//! An ordered map from package names to entries, with its keys kept in
//! increasing character order, as the manifests' dependency tables have them.
use vstd::prelude::*;
use crate::text::{chars_of, strings_view};

verus! {

/// `a` comes strictly before `b` in lexicographic character order.
pub open spec fn chars_lt(a: Seq<char>, b: Seq<char>) -> bool
    decreases a.len(),
{
    if a.len() == 0 {
        b.len() > 0
    } else if b.len() == 0 {
        false
    } else if a[0] != b[0] {
        a[0] < b[0]
    } else {
        chars_lt(a.drop_first(), b.drop_first())
    }
}

/// The order is irreflexive and total: of two different texts, exactly one
/// comes first.
pub proof fn lemma_chars_lt_total(a: Seq<char>, b: Seq<char>)
    ensures
        !chars_lt(a, a),
        a != b ==> (chars_lt(a, b) || chars_lt(b, a)),
        !(chars_lt(a, b) && chars_lt(b, a)),
    decreases a.len(),
{
    if a.len() > 0 {
        lemma_chars_lt_total(a.drop_first(), a.drop_first());
        if b.len() > 0 {
            lemma_chars_lt_total(a.drop_first(), b.drop_first());
            if a != b && a[0] == b[0] {
                assert(a.drop_first() != b.drop_first()) by {
                    if a.drop_first() == b.drop_first() {
                        assert(a =~= seq![a[0]] + a.drop_first());
                        assert(b =~= seq![b[0]] + b.drop_first());
                    }
                }
            }
        }
    } else {
        if b.len() == 0 {
            assert(a =~= b);
        }
    }
}

/// The order is transitive.
pub proof fn lemma_chars_lt_transitive(a: Seq<char>, b: Seq<char>, c: Seq<char>)
    requires
        chars_lt(a, b),
        chars_lt(b, c),
    ensures
        chars_lt(a, c),
    decreases a.len(),
{
    if a.len() > 0 && b.len() > 0 && c.len() > 0 {
        if a[0] == b[0] && b[0] == c[0] {
            lemma_chars_lt_transitive(a.drop_first(), b.drop_first(), c.drop_first());
        }
    }
}

/// Whether `a` comes strictly before `b`.
pub fn chars_less(a: &[char], b: &[char]) -> (r: bool)
    ensures
        r == chars_lt(a@, b@),
{
    let mut i: usize = 0;
    assert(a@.skip(0) =~= a@);
    assert(b@.skip(0) =~= b@);
    while i < a.len() && i < b.len() && a[i] == b[i]
        invariant
            i <= a.len(),
            i <= b.len(),
            chars_lt(a@, b@) == chars_lt(a@.skip(i as int), b@.skip(i as int)),
        decreases a.len() - i,
    {
        assert(a@.skip(i as int).drop_first() =~= a@.skip(i + 1));
        assert(b@.skip(i as int).drop_first() =~= b@.skip(i + 1));
        i = i + 1;
    }
    if i == a.len() {
        i < b.len()
    } else if i == b.len() {
        false
    } else {
        a[i] < b[i]
    }
}

/// The keys of a sequence of entries.
pub open spec fn keys_of<V>(es: Seq<(Seq<char>, V)>) -> Seq<Seq<char>> {
    es.map_values(|e: (Seq<char>, V)| e.0)
}

/// Keys in strictly increasing order (so no key occurs twice).
pub open spec fn strictly_sorted(ks: Seq<Seq<char>>) -> bool {
    forall|i: int, j: int| 0 <= i < j < ks.len() ==> chars_lt(#[trigger] ks[i], #[trigger] ks[j])
}

/// The entry stored under `k`, if any.
pub open spec fn find_value<V>(es: Seq<(Seq<char>, V)>, k: Seq<char>) -> Option<V>
    decreases es.len(),
{
    if es.len() == 0 {
        None
    } else if es[0].0 == k {
        Some(es[0].1)
    } else {
        find_value(es.drop_first(), k)
    }
}

/// The entry found for `k` is the one at the position where `k` stands.
pub proof fn lemma_find_value_at<V>(es: Seq<(Seq<char>, V)>, k: Seq<char>)
    ensures
        find_value(es, k) is Some <==> keys_of(es).contains(k),
        forall|i: int| 0 <= i < es.len() && es[i].0 == k && strictly_sorted(keys_of(es)) ==>
            find_value(es, k) == Some(#[trigger] es[i].1),
    decreases es.len(),
{
    if es.len() > 0 {
        let rest = es.drop_first();
        lemma_find_value_at(rest, k);
        assert(keys_of(rest) =~= keys_of(es).drop_first());
        assert(keys_of(es)[0] == es[0].0);
        if es[0].0 == k {
            assert(keys_of(es).contains(k));
        }
        if keys_of(es).contains(k) && es[0].0 != k {
            let i = choose|i: int| 0 <= i < keys_of(es).len() && keys_of(es)[i] == k;
            assert(keys_of(rest)[i - 1] == k);
        }
        if keys_of(rest).contains(k) {
            let i = choose|i: int| 0 <= i < keys_of(rest).len() && keys_of(rest)[i] == k;
            assert(keys_of(es)[i + 1] == k);
        }
        assert forall|i: int| 0 <= i < es.len() && es[i].0 == k && strictly_sorted(keys_of(es)) implies
            find_value(es, k) == Some(#[trigger] es[i].1) by {
            if i > 0 {
                assert(keys_of(es)[0] == es[0].0);
                assert(keys_of(es)[i] == es[i].0);
                lemma_chars_lt_total(k, k);
                assert(es[0].0 != k);
                assert(rest[i - 1] == es[i]);
                assert(strictly_sorted(keys_of(rest))) by {
                    assert forall|a: int, b: int| 0 <= a < b < keys_of(rest).len() implies
                        chars_lt(#[trigger] keys_of(rest)[a], #[trigger] keys_of(rest)[b]) by {
                        assert(keys_of(rest)[a] == keys_of(es)[a + 1]);
                        assert(keys_of(rest)[b] == keys_of(es)[b + 1]);
                    }
                }
            }
        }
    }
}

/// A map from package names to entries, ordered by name.
pub struct StringMap<V> {
    entries: Vec<(String, V)>,
}

impl<V> View for StringMap<V> {
    type V = Seq<(Seq<char>, V)>;

    closed spec fn view(&self) -> Seq<(Seq<char>, V)> {
        self.entries@.map_values(|e: (String, V)| (e.0@, e.1))
    }
}

impl<V> StringMap<V> {
    #[verifier::type_invariant]
    closed spec fn keys_increase(self) -> bool {
        strictly_sorted(keys_of(self@))
    }

    /// The empty map.
    pub fn new() -> (m: Self)
        ensures
            m@ == Seq::<(Seq<char>, V)>::empty(),
    {
        let m = StringMap { entries: Vec::new() };
        assert(m@ =~= Seq::<(Seq<char>, V)>::empty());
        m
    }

    /// The number of entries.
    pub fn len(&self) -> (n: usize)
        ensures
            n == self@.len(),
    {
        self.entries.len()
    }

    /// The entry stored under `key`, if any.
    pub fn get(&self, key: &str) -> (r: Option<&V>)
        ensures
            match r {
                Some(v) => find_value(self@, key@) == Some(*v),
                None => find_value(self@, key@) is None,
            },
            strictly_sorted(keys_of(self@)),
    {
        proof {
            use_type_invariant(self);
        }
        let k = chars_of(key);
        let ghost es = self@;
        let mut i: usize = 0;
        assert(es.skip(0) =~= es);
        while i < self.entries.len()
            invariant
                i <= self.entries.len(),
                es == self@,
                k@ == key@,
                strictly_sorted(keys_of(es)),
                es.len() == self.entries.len(),
                find_value(es, key@) == find_value(es.skip(i as int), key@),
            decreases self.entries.len() - i,
        {
            let name = chars_of(self.entries[i].0.as_str());
            assert(es.skip(i as int)[0] == es[i as int]);
            assert(es[i as int] == (self.entries@[i as int].0@, self.entries@[i as int].1));
            if crate::text::chars_eq(name.as_slice(), k.as_slice()) {
                return Some(&self.entries[i].1);
            }
            assert(es.skip(i as int).drop_first() =~= es.skip(i + 1));
            i = i + 1;
        }
        assert(es.skip(i as int) =~= Seq::<(Seq<char>, V)>::empty());
        None
    }

    /// The names, in increasing order.
    pub fn keys(&self) -> (r: Vec<String>)
        ensures
            strings_view(r@) == keys_of(self@),
            strictly_sorted(keys_of(self@)),
    {
        proof {
            use_type_invariant(self);
        }
        let mut r: Vec<String> = Vec::new();
        let mut i: usize = 0;
        while i < self.entries.len()
            invariant
                i <= self.entries.len(),
                strings_view(r@) == keys_of(self@).take(i as int),
                self@.len() == self.entries.len(),
            decreases self.entries.len() - i,
        {
            assert(keys_of(self@)[i as int] == self.entries@[i as int].0@);
            let ghost prev = r@;
            r.push(self.entries[i].0.clone());
            assert(strings_view(r@) =~= strings_view(prev).push(self.entries@[i as int].0@));
            assert(keys_of(self@).take(i + 1) =~= keys_of(self@).take(i as int).push(keys_of(self@)[i as int]));
            i = i + 1;
        }
        assert(keys_of(self@).take(i as int) =~= keys_of(self@));
        r
    }

    /// Stores `value` under `key`, in place of any entry stored there.
    pub fn insert(&mut self, key: String, value: V)
        ensures
            strictly_sorted(keys_of(final(self)@)),
            keys_of(final(self)@).to_set() == keys_of(old(self)@).to_set().insert(key@),
            find_value(final(self)@, key@) == Some(value),
            forall|k: Seq<char>| k != key@ ==> #[trigger] find_value(final(self)@, k) == find_value(old(self)@, k),
    {
        proof {
            use_type_invariant(&*self);
        }
        let ghost es = self@;
        let k = chars_of(key.as_str());
        let mut entries: Vec<(String, V)> = Vec::new();
        std::mem::swap(&mut entries, &mut self.entries);
        assert(entries@.map_values(|e: (String, V)| (e.0@, e.1)) == es);
        let mut i: usize = 0;
        let mut equal = false;
        let mut go = true;
        while go
            invariant
                i <= entries.len(),
                entries@.map_values(|e: (String, V)| (e.0@, e.1)) == es,
                es.len() == entries.len(),
                k@ == key@,
                strictly_sorted(keys_of(es)),
                forall|j: int| 0 <= j < i ==> chars_lt(#[trigger] keys_of(es)[j], key@),
                equal ==> i < entries.len() && keys_of(es)[i as int] == key@,
                !go && !equal ==> i == entries.len() || chars_lt(key@, keys_of(es)[i as int]),
            decreases 2 * (entries.len() - i) + if go { 1int } else { 0int },
        {
            if i == entries.len() {
                go = false;
            } else {
                let name = chars_of(entries[i].0.as_str());
                assert(keys_of(es)[i as int] == name@);
                if crate::text::chars_eq(name.as_slice(), k.as_slice()) {
                    equal = true;
                    go = false;
                } else if !chars_less(name.as_slice(), k.as_slice()) {
                    proof {
                        lemma_chars_lt_total(name@, key@);
                    }
                    go = false;
                } else {
                    i = i + 1;
                }
            }
        }
        let ghost old_keys = keys_of(es);
        if equal {
            entries.set(i, (key, value));
            let ghost ns = entries@.map_values(|e: (String, V)| (e.0@, e.1));
            assert(ns =~= es.update(i as int, (key@, value)));
            assert(keys_of(ns) =~= old_keys);
            proof {
                lemma_find_value_at(ns, key@);
                assert(ns[i as int].0 == key@);
                assert(ns[i as int].1 == value);
                assert forall|k2: Seq<char>| k2 != key@ implies #[trigger] find_value(ns, k2) == find_value(es, k2) by {
                    lemma_find_value_at(ns, k2);
                    lemma_find_value_at(es, k2);
                    if keys_of(es).contains(k2) {
                        let j = choose|j: int| 0 <= j < keys_of(es).len() && keys_of(es)[j] == k2;
                        assert(ns[j] == es[j]);
                        assert(ns[j].0 == k2);
                        assert(ns[j].1 == es[j].1);
                    }
                }
                assert(keys_of(ns).to_set() =~= old_keys.to_set().insert(key@)) by {
                    assert(old_keys.contains(key@)) by {
                        assert(old_keys[i as int] == key@);
                    }
                }
            }
        } else {
            entries.insert(i, (key, value));
            let ghost ns = entries@.map_values(|e: (String, V)| (e.0@, e.1));
            assert(ns =~= es.insert(i as int, (key@, value)));
            let ghost nk = keys_of(ns);
            assert(nk =~= old_keys.insert(i as int, key@));
            proof {
                assert forall|a: int, b: int| 0 <= a < b < nk.len() implies chars_lt(#[trigger] nk[a], #[trigger] nk[b]) by {
                    if b < i {
                    } else if b == i {
                        assert(nk[a] == old_keys[a]);
                    } else if a < i {
                        assert(nk[a] == old_keys[a]);
                        assert(nk[b] == old_keys[b - 1]);
                    } else if a == i {
                        assert(nk[b] == old_keys[b - 1]);
                        if b - 1 > i {
                            lemma_chars_lt_transitive(key@, old_keys[i as int], old_keys[b - 1]);
                        }
                    } else {
                        assert(nk[a] == old_keys[a - 1]);
                        assert(nk[b] == old_keys[b - 1]);
                    }
                }
                assert(ns[i as int].0 == key@);
                assert(ns[i as int].1 == value);
                lemma_find_value_at(ns, key@);
                assert(!old_keys.contains(key@)) by {
                    if old_keys.contains(key@) {
                        let j = choose|j: int| 0 <= j < old_keys.len() && old_keys[j] == key@;
                        lemma_chars_lt_total(key@, key@);
                        if j < i {
                        } else {
                            if j > i {
                                lemma_chars_lt_transitive(key@, old_keys[i as int], old_keys[j]);
                            }
                        }
                    }
                }
                assert forall|k2: Seq<char>| k2 != key@ implies #[trigger] find_value(ns, k2) == find_value(es, k2) by {
                    lemma_find_value_at(ns, k2);
                    lemma_find_value_at(es, k2);
                    if keys_of(es).contains(k2) {
                        let j = choose|j: int| 0 <= j < keys_of(es).len() && keys_of(es)[j] == k2;
                        if j < i {
                            assert(ns[j] == es[j]);
                            assert(ns[j].0 == k2);
                            assert(ns[j].1 == es[j].1);
                        } else {
                            assert(ns[j + 1] == es[j]);
                            assert(ns[j + 1].0 == k2);
                            assert(ns[j + 1].1 == es[j].1);
                        }
                    }
                    if keys_of(ns).contains(k2) {
                        let j = choose|j: int| 0 <= j < keys_of(ns).len() && keys_of(ns)[j] == k2;
                        if j < i {
                            assert(old_keys[j] == k2);
                        } else {
                            assert(old_keys[j - 1] == k2);
                        }
                    }
                }
                assert(nk.to_set() =~= old_keys.to_set().insert(key@)) by {
                    assert forall|x: Seq<char>| nk.to_set().contains(x) implies old_keys.to_set().insert(key@).contains(x) by {
                        let j = choose|j: int| 0 <= j < nk.len() && nk[j] == x;
                        if j < i {
                            assert(old_keys[j] == x);
                        } else if j > i {
                            assert(old_keys[j - 1] == x);
                        }
                    }
                    assert forall|x: Seq<char>| old_keys.to_set().insert(key@).contains(x) implies nk.to_set().contains(x) by {
                        if x == key@ {
                            assert(nk[i as int] == x);
                        } else {
                            let j = choose|j: int| 0 <= j < old_keys.len() && old_keys[j] == x;
                            if j < i {
                                assert(nk[j] == x);
                            } else {
                                assert(nk[j + 1] == x);
                            }
                        }
                    }
                }
            }
        }
        self.entries = entries;
    }
}

} // verus!
