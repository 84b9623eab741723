//! Rejection of the server-side packages that no consumer may reach.
use vstd::prelude::*;
use crate::text::{chars_of, contains_chars, has_infix, strings_view};

verus! {

/// The packages that a public validation consumer must never mention, in
/// the order in which they are looked for.
pub open spec fn forbidden_packages() -> Seq<Seq<char>> {
    seq!["declmig-server-core"@, "server-core"@, "migration-executor"@]
}

/// The first package of `fs` that occurs in `v`.
pub open spec fn first_occurring(v: Seq<char>, fs: Seq<Seq<char>>) -> Option<Seq<char>>
    decreases fs.len(),
{
    if fs.len() == 0 {
        None
    } else if has_infix(v, fs[0]) {
        Some(fs[0])
    } else {
        first_occurring(v, fs.drop_first())
    }
}

/// The first forbidden package that occurs in `v`, if any does.
pub open spec fn forbidden_in(v: Seq<char>) -> Option<Seq<char>> {
    first_occurring(v, forbidden_packages())
}

/// The forbidden package reported for `vs`: the first one found in the
/// first value that holds any.
pub open spec fn first_forbidden(vs: Seq<Seq<char>>) -> Option<Seq<char>>
    decreases vs.len(),
{
    if vs.len() == 0 {
        None
    } else {
        match forbidden_in(vs[0]) {
            Some(f) => Some(f),
            None => first_forbidden(vs.drop_first()),
        }
    }
}

/// The message that reports `package` in what `label` names.
pub open spec fn forbidden_message(label: Seq<char>, package: Seq<char>) -> Seq<char> {
    label + " exposes forbidden server package "@ + package
}

/// What checking `vs` under `label` answers.
pub open spec fn spec_reject_forbidden(label: Seq<char>, vs: Seq<Seq<char>>) -> Result<(), Seq<char>> {
    match first_forbidden(vs) {
        Some(f) => Err(forbidden_message(label, f)),
        None => Ok(()),
    }
}

/// The view of a check's answer.
pub open spec fn unit_outcome(r: Result<(), String>) -> Result<(), Seq<char>> {
    match r {
        Ok(()) => Ok(()),
        Err(m) => Err(m@),
    }
}

/// The first forbidden package that occurs in `v`.
pub fn find_forbidden(v: &[char]) -> (r: Option<&'static str>)
    ensures
        match r {
            Some(f) => forbidden_in(v@) == Some(f@),
            None => forbidden_in(v@) is None,
        },
{
    reveal_with_fuel(first_occurring, 4);
    let a = "declmig-server-core";
    let b = "server-core";
    let c = "migration-executor";
    let ghost fs = forbidden_packages();
    assert(fs.drop_first() =~= seq![b@, c@]);
    assert(fs.drop_first().drop_first() =~= seq![c@]);
    assert(fs.drop_first().drop_first().drop_first() =~= Seq::<Seq<char>>::empty());
    let av = chars_of(a);
    if contains_chars(v, av.as_slice()) {
        return Some(a);
    }
    let bv = chars_of(b);
    if contains_chars(v, bv.as_slice()) {
        return Some(b);
    }
    let cv = chars_of(c);
    if contains_chars(v, cv.as_slice()) {
        return Some(c);
    }
    None
}

/// The message that reports `package` in what `label` names.
pub fn forbidden_error(label: &str, package: &str) -> (m: String)
    ensures
        m@ == forbidden_message(label@, package@),
{
    let mut m = String::from_str(label);
    m.append(" exposes forbidden server package ");
    m.append(package);
    m
}

/// Fails with the first forbidden package found, looking through `values`
/// in order and, in each, through the forbidden packages in order.
pub fn reject_forbidden(label: &str, values: &Vec<String>) -> (r: Result<(), String>)
    ensures
        unit_outcome(r) == spec_reject_forbidden(label@, strings_view(values@)),
{
    let ghost vs = strings_view(values@);
    let mut i: usize = 0;
    assert(vs.skip(0) =~= vs);
    while i < values.len()
        invariant
            i <= values.len(),
            vs == strings_view(values@),
            first_forbidden(vs) == first_forbidden(vs.skip(i as int)),
        decreases values.len() - i,
    {
        let chars = chars_of(values[i].as_str());
        assert(vs.skip(i as int)[0] == chars@);
        match find_forbidden(chars.as_slice()) {
            Some(f) => {
                return Err(forbidden_error(label, f));
            },
            None => {
                assert(vs.skip(i as int).drop_first() =~= vs.skip(i + 1));
            },
        }
        i = i + 1;
    }
    assert(vs.skip(i as int) =~= Seq::<Seq<char>>::empty());
    Ok(())
}

/// Checking two lists one after the other answers as checking them joined:
/// the first list's finding, else the second's.
pub proof fn lemma_first_forbidden_concat(a: Seq<Seq<char>>, b: Seq<Seq<char>>)
    ensures
        first_forbidden(a + b) == match first_forbidden(a) {
            Some(f) => Some(f),
            None => first_forbidden(b),
        },
    decreases a.len(),
{
    if a.len() > 0 {
        assert((a + b).drop_first() =~= a.drop_first() + b);
        assert((a + b)[0] == a[0]);
        lemma_first_forbidden_concat(a.drop_first(), b);
    } else {
        assert(a + b =~= b);
    }
}

/// A list passes exactly when each of its values passes on its own.
pub proof fn lemma_first_forbidden_none(vs: Seq<Seq<char>>)
    ensures
        first_forbidden(vs) is None <==> forall|i: int| 0 <= i < vs.len() ==> (#[trigger] forbidden_in(vs[i])) is None,
    decreases vs.len(),
{
    if vs.len() > 0 {
        lemma_first_forbidden_none(vs.drop_first());
        if first_forbidden(vs) is None {
            assert forall|i: int| 0 <= i < vs.len() implies (#[trigger] forbidden_in(vs[i])) is None by {
                if i > 0 {
                    assert(vs.drop_first()[i - 1] == vs[i]);
                }
            }
        }
        if forall|i: int| 0 <= i < vs.len() ==> (#[trigger] forbidden_in(vs[i])) is None {
            assert(forbidden_in(vs[0]) is None);
            assert forall|i: int| 0 <= i < vs.drop_first().len() implies (#[trigger] forbidden_in(vs.drop_first()[i])) is None by {
                assert(vs.drop_first()[i] == vs[i + 1]);
            }
        }
    }
}

} // verus!
