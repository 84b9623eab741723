//! Comment stripping: `//` line comments and `/* */` block comments are
//! blanked out, while quoted text (`'`, `"`, `` ` ``) is kept verbatim.
use vstd::prelude::*;
use crate::text::{chars_of, string_from_chars};

verus! {

/// Where the scanner stands between two characters.
#[derive(Clone, Copy)]
pub enum ScanState {
    Normal,
    Line,
    Block,
    Quoted(char),
}

/// One move of the scanner at the front of the non-empty `s`: the characters
/// it emits, how many characters it consumes, and the state it moves to.
pub open spec fn step(st: ScanState, s: Seq<char>) -> (Seq<char>, int, ScanState) {
    let c = s[0];
    let two = s.len() > 1;
    match st {
        ScanState::Normal => if c == '/' && two && s[1] == '/' {
            (seq![' ', ' '], 2, ScanState::Line)
        } else if c == '/' && two && s[1] == '*' {
            (seq![' ', ' '], 2, ScanState::Block)
        } else if c == '\'' || c == '"' || c == '`' {
            (seq![c], 1, ScanState::Quoted(c))
        } else {
            (seq![c], 1, ScanState::Normal)
        },
        ScanState::Line => if c == '\n' {
            (seq!['\n'], 1, ScanState::Normal)
        } else {
            (seq![' '], 1, ScanState::Line)
        },
        ScanState::Block => if c == '*' && two && s[1] == '/' {
            (seq![' ', ' '], 2, ScanState::Normal)
        } else if c == '\n' {
            (seq!['\n'], 1, ScanState::Block)
        } else {
            (seq![' '], 1, ScanState::Block)
        },
        ScanState::Quoted(q) => if c == '\\' {
            if two {
                (seq![c, s[1]], 2, ScanState::Quoted(q))
            } else {
                (seq![c], 1, ScanState::Quoted(q))
            }
        } else if c == q {
            (seq![c], 1, ScanState::Normal)
        } else {
            (seq![c], 1, ScanState::Quoted(q))
        },
    }
}

/// The text the scanner emits for `s` when it starts in state `st`.
pub open spec fn scan(st: ScanState, s: Seq<char>) -> Seq<char>
    decreases s.len(),
{
    if s.len() == 0 {
        Seq::empty()
    } else {
        let (out, n, next) = step(st, s);
        out + scan(next, s.skip(n))
    }
}

/// `source` with its comments blanked out.
pub open spec fn spec_strip_comments(source: Seq<char>) -> Seq<char> {
    scan(ScanState::Normal, source)
}

/// Each move consumes as many characters as it emits, one or two.
pub proof fn lemma_step_shape(st: ScanState, s: Seq<char>)
    requires
        s.len() > 0,
    ensures
        1 <= step(st, s).1 <= s.len(),
        step(st, s).0.len() == step(st, s).1,
        forall|i: int| 0 <= i < step(st, s).1 ==>
            (#[trigger] step(st, s).0[i] == s[i] || step(st, s).0[i] == ' ') && (s[i] == '\n' ==> step(st, s).0[i] == '\n'),
{
}

/// Blanking keeps the text's length, keeps every line break, and replaces
/// any character it changes by a space.
pub proof fn lemma_scan_layout(st: ScanState, s: Seq<char>)
    ensures
        scan(st, s).len() == s.len(),
        forall|i: int| 0 <= i < s.len() ==>
            (#[trigger] scan(st, s)[i] == s[i] || scan(st, s)[i] == ' ') && (s[i] == '\n' ==> scan(st, s)[i] == '\n'),
    decreases s.len(),
{
    if s.len() > 0 {
        lemma_step_shape(st, s);
        let (out, n, next) = step(st, s);
        let rest = s.skip(n);
        lemma_scan_layout(next, rest);
        assert forall|i: int| 0 <= i < s.len() implies
            (#[trigger] scan(st, s)[i] == s[i] || scan(st, s)[i] == ' ') && (s[i] == '\n' ==> scan(st, s)[i] == '\n') by {
            if i >= n {
                assert(rest[i - n] == s[i]);
            }
        }
    }
}

/// Outside comments and with no `/` ahead, the scanner copies its input.
pub proof fn lemma_scan_without_slash(st: ScanState, s: Seq<char>)
    requires
        !(st is Line),
        !(st is Block),
        forall|i: int| 0 <= i < s.len() ==> s[i] != '/',
    ensures
        scan(st, s) == s,
    decreases s.len(),
{
    if s.len() > 0 {
        let (out, n, next) = step(st, s);
        let rest = s.skip(n);
        assert forall|i: int| 0 <= i < rest.len() implies rest[i] != '/' by {
            assert(rest[i] == s[i + n]);
        }
        lemma_scan_without_slash(next, rest);
        assert(out + rest =~= s);
    }
}

/// The state a second pass is in where the first pass is in `st`: blanked
/// comments read as plain text.
pub open spec fn resume(st: ScanState) -> ScanState {
    match st {
        ScanState::Line => ScanState::Normal,
        ScanState::Block => ScanState::Normal,
        _ => st,
    }
}

/// Outside comments, a character other than `/` is emitted as it is.
proof fn lemma_scan_first(s: Seq<char>)
    requires
        s.len() > 0,
        s[0] != '/',
    ensures
        scan(ScanState::Normal, s).len() > 0,
        scan(ScanState::Normal, s)[0] == s[0],
{
    lemma_scan_layout(ScanState::Normal, s);
}

/// Scanning `o` in state `st2` when `o` is `out` followed by `rest` and the
/// first move over `o` emits `out` as it is and lands in `next`.
proof fn lemma_scan_prefix(st2: ScanState, o: Seq<char>, out: Seq<char>, rest: Seq<char>, next: ScanState)
    requires
        o == out + rest,
        out.len() > 0,
        step(st2, o) == (out, out.len() as int, next),
    ensures
        scan(st2, o) == out + scan(next, rest),
{
    assert(o.skip(out.len() as int) =~= rest);
}

/// A second pass over blanked text, resumed in the matching state, changes
/// nothing.
pub proof fn lemma_scan_idempotent(st: ScanState, s: Seq<char>)
    ensures
        scan(resume(st), scan(st, s)) == scan(st, s),
    decreases s.len(),
{
    if s.len() == 0 {
        return;
    }
    lemma_step_shape(st, s);
    let (out, n, next) = step(st, s);
    let rest = s.skip(n);
    let r = scan(next, rest);
    let o = scan(st, s);
    assert(o == out + r);
    lemma_scan_idempotent(next, rest);
    lemma_scan_layout(next, rest);
    assert(o[0] == out[0]);
    if n == 2 {
        assert(o[1] == out[1]);
    }
    if out.len() == 1 && r.len() > 0 {
        assert(o[1] == r[0]);
    }
    match st {
        ScanState::Normal => {
            let c = s[0];
            if c == '/' && s.len() > 1 && (s[1] == '/' || s[1] == '*') {
                let o1 = o.skip(1);
                assert(o1 =~= seq![' '] + r);
                assert(o =~= seq![' '] + o1);
                assert(step(ScanState::Normal, o) == (seq![' '], 1int, ScanState::Normal));
                lemma_scan_prefix(ScanState::Normal, o, seq![' '], o1, ScanState::Normal);
                assert(step(ScanState::Normal, o1) == (seq![' '], 1int, ScanState::Normal));
                lemma_scan_prefix(ScanState::Normal, o1, seq![' '], r, ScanState::Normal);
                assert(o =~= seq![' '] + (seq![' '] + r));
            } else if c == '\'' || c == '"' || c == '`' {
                lemma_scan_prefix(ScanState::Normal, o, out, r, next);
            } else {
                if c == '/' && r.len() > 0 {
                    assert(rest[0] == s[1]);
                    lemma_scan_first(rest);
                }
                lemma_scan_prefix(ScanState::Normal, o, out, r, next);
            }
        },
        ScanState::Line => {
            lemma_scan_prefix(ScanState::Normal, o, out, r, resume(next));
        },
        ScanState::Block => {
            if s[0] == '*' && s.len() > 1 && s[1] == '/' {
                let o1 = o.skip(1);
                assert(o1 =~= seq![' '] + r);
                assert(o =~= seq![' '] + o1);
                assert(step(ScanState::Normal, o) == (seq![' '], 1int, ScanState::Normal));
                lemma_scan_prefix(ScanState::Normal, o, seq![' '], o1, ScanState::Normal);
                assert(step(ScanState::Normal, o1) == (seq![' '], 1int, ScanState::Normal));
                lemma_scan_prefix(ScanState::Normal, o1, seq![' '], r, ScanState::Normal);
                assert(o =~= seq![' '] + (seq![' '] + r));
            } else {
                lemma_scan_prefix(ScanState::Normal, o, out, r, resume(next));
            }
        },
        ScanState::Quoted(q) => {
            lemma_scan_prefix(st, o, out, r, next);
        },
    }
}

/// Stripping is idempotent: stripped text has no comment left to strip.
pub proof fn lemma_strip_comments_idempotent(s: Seq<char>)
    ensures
        spec_strip_comments(spec_strip_comments(s)) == spec_strip_comments(s),
{
    lemma_scan_idempotent(ScanState::Normal, s);
}

/// One move of the scanner at position `index` of `chars`.
fn scan_step(st: ScanState, chars: &Vec<char>, index: usize) -> (r: (Vec<char>, usize, ScanState))
    requires
        index < chars.len(),
    ensures
        r.0@ == step(st, chars@.skip(index as int)).0,
        r.1 == step(st, chars@.skip(index as int)).1,
        r.2 == step(st, chars@.skip(index as int)).2,
{
    let ghost rest = chars@.skip(index as int);
    let current = chars[index];
    let two = index + 1 < chars.len();
    let next = if two { chars[index + 1] } else { ' ' };
    assert(rest[0] == current);
    assert(two ==> rest[1] == next);
    assert(two == (rest.len() > 1));
    let mut out: Vec<char> = Vec::new();
    match st {
        ScanState::Normal => {
            if current == '/' && two && next == '/' {
                out.push(' ');
                out.push(' ');
                assert(out@ =~= seq![' ', ' ']);
                (out, 2, ScanState::Line)
            } else if current == '/' && two && next == '*' {
                out.push(' ');
                out.push(' ');
                assert(out@ =~= seq![' ', ' ']);
                (out, 2, ScanState::Block)
            } else if current == '\'' || current == '"' || current == '`' {
                out.push(current);
                assert(out@ =~= seq![current]);
                (out, 1, ScanState::Quoted(current))
            } else {
                out.push(current);
                assert(out@ =~= seq![current]);
                (out, 1, ScanState::Normal)
            }
        },
        ScanState::Line => {
            if current == '\n' {
                out.push('\n');
                assert(out@ =~= seq!['\n']);
                (out, 1, ScanState::Normal)
            } else {
                out.push(' ');
                assert(out@ =~= seq![' ']);
                (out, 1, ScanState::Line)
            }
        },
        ScanState::Block => {
            if current == '*' && two && next == '/' {
                out.push(' ');
                out.push(' ');
                assert(out@ =~= seq![' ', ' ']);
                (out, 2, ScanState::Normal)
            } else if current == '\n' {
                out.push('\n');
                assert(out@ =~= seq!['\n']);
                (out, 1, ScanState::Block)
            } else {
                out.push(' ');
                assert(out@ =~= seq![' ']);
                (out, 1, ScanState::Block)
            }
        },
        ScanState::Quoted(quote) => {
            if current == '\\' {
                out.push(current);
                if two {
                    out.push(next);
                    assert(out@ =~= seq![current, next]);
                    (out, 2, ScanState::Quoted(quote))
                } else {
                    assert(out@ =~= seq![current]);
                    (out, 1, ScanState::Quoted(quote))
                }
            } else if current == quote {
                out.push(current);
                assert(out@ =~= seq![current]);
                (out, 1, ScanState::Normal)
            } else {
                out.push(current);
                assert(out@ =~= seq![current]);
                (out, 1, ScanState::Quoted(quote))
            }
        },
    }
}

/// Scanning inside text opened by `q`, over `t` (no `q`, no backslash), then
/// the closing `q`: all of it is copied, and the scanner is back outside.
proof fn lemma_quoted_run(q: char, t: Seq<char>, rest: Seq<char>)
    requires
        q == '\'' || q == '"' || q == '`',
        forall|k: int| 0 <= k < t.len() ==> t[k] != q && t[k] != '\\',
    ensures
        scan(ScanState::Quoted(q), t + seq![q] + rest) == t + seq![q] + scan(ScanState::Normal, rest),
    decreases t.len(),
{
    let s = t + seq![q] + rest;
    if t.len() == 0 {
        assert(s[0] == q);
        assert(s.skip(1) =~= rest);
        assert(t + seq![q] + scan(ScanState::Normal, rest) =~= seq![q] + scan(ScanState::Normal, rest));
    } else {
        let t1 = t.drop_first();
        assert(s[0] == t[0]);
        assert(s.skip(1) =~= t1 + seq![q] + rest);
        lemma_quoted_run(q, t1, rest);
        assert(t + seq![q] + scan(ScanState::Normal, rest)
            =~= seq![t[0]] + (t1 + seq![q] + scan(ScanState::Normal, rest)));
    }
}

/// Quoted text ends only at the quote character that opened it: text opened
/// by `q` that holds no `q` and no backslash is kept as it is, whatever other
/// quotes, `//` or `/*` it holds, and what follows the closing `q` is blanked
/// as if it stood alone.
pub proof fn lemma_quoted_text_is_kept(q: char, t: Seq<char>, rest: Seq<char>)
    requires
        q == '\'' || q == '"' || q == '`',
        forall|k: int| 0 <= k < t.len() ==> t[k] != q && t[k] != '\\',
    ensures
        spec_strip_comments(seq![q] + t + seq![q] + rest) == seq![q] + t + seq![q] + spec_strip_comments(rest),
{
    let s = seq![q] + t + seq![q] + rest;
    assert(s[0] == q);
    assert(s.skip(1) =~= t + seq![q] + rest);
    lemma_quoted_run(q, t, rest);
    assert(seq![q] + (t + seq![q] + spec_strip_comments(rest)) =~= seq![q] + t + seq![q] + spec_strip_comments(rest));
}

/// A `//` comment runs to the end of its line: each of its characters
/// becomes a space, the line break stays, and what follows is blanked as if
/// it stood alone.
pub proof fn lemma_line_comment_is_blanked(t: Seq<char>, rest: Seq<char>)
    requires
        forall|k: int| 0 <= k < t.len() ==> t[k] != '\n',
    ensures
        spec_strip_comments(seq!['/', '/'] + t + seq!['\n'] + rest)
            == Seq::new(t.len() + 2, |k: int| ' ') + seq!['\n'] + spec_strip_comments(rest),
{
    let s = seq!['/', '/'] + t + seq!['\n'] + rest;
    assert(s[0] == '/' && s[1] == '/');
    assert(s.skip(2) =~= t + seq!['\n'] + rest);
    lemma_line_run(t, rest);
    assert(seq![' ', ' '] + (Seq::new(t.len(), |k: int| ' ') + seq!['\n'] + spec_strip_comments(rest))
        =~= Seq::new(t.len() + 2, |k: int| ' ') + seq!['\n'] + spec_strip_comments(rest));
}

/// Inside a `//` comment: spaces up to the line break, which ends it.
proof fn lemma_line_run(t: Seq<char>, rest: Seq<char>)
    requires
        forall|k: int| 0 <= k < t.len() ==> t[k] != '\n',
    ensures
        scan(ScanState::Line, t + seq!['\n'] + rest)
            == Seq::new(t.len(), |k: int| ' ') + seq!['\n'] + scan(ScanState::Normal, rest),
    decreases t.len(),
{
    let s = t + seq!['\n'] + rest;
    if t.len() == 0 {
        assert(s[0] == '\n');
        assert(s.skip(1) =~= rest);
        assert(Seq::new(t.len(), |k: int| ' ') + seq!['\n'] + scan(ScanState::Normal, rest)
            =~= seq!['\n'] + scan(ScanState::Normal, rest));
    } else {
        let t1 = t.drop_first();
        assert(s[0] == t[0]);
        assert(s.skip(1) =~= t1 + seq!['\n'] + rest);
        lemma_line_run(t1, rest);
        assert(Seq::new(t.len(), |k: int| ' ') + seq!['\n'] + scan(ScanState::Normal, rest)
            =~= seq![' '] + (Seq::new(t1.len(), |k: int| ' ') + seq!['\n'] + scan(ScanState::Normal, rest)));
    }
}

/// `t` with every character but a line break turned into a space.
pub open spec fn blanked(t: Seq<char>) -> Seq<char> {
    Seq::new(t.len(), |k: int| if t[k] == '\n' { '\n' } else { ' ' })
}

/// Inside a `/* */` comment whose body `t` holds no `*/`: the body is
/// blanked, line breaks kept, and the closing `*/` ends the comment.
proof fn lemma_block_run(t: Seq<char>, rest: Seq<char>)
    requires
        forall|k: int| 0 <= k < t.len() - 1 ==> !(#[trigger] t[k] == '*' && t[k + 1] == '/'),
    ensures
        scan(ScanState::Block, t + seq!['*', '/'] + rest) == blanked(t) + seq![' ', ' '] + scan(ScanState::Normal, rest),
    decreases t.len(),
{
    let s = t + seq!['*', '/'] + rest;
    if t.len() == 0 {
        assert(s[0] == '*' && s[1] == '/');
        assert(s.skip(2) =~= rest);
        assert(blanked(t) + seq![' ', ' '] + scan(ScanState::Normal, rest) =~= seq![' ', ' '] + scan(ScanState::Normal, rest));
    } else {
        let t1 = t.drop_first();
        assert(s[0] == t[0]);
        if t.len() > 1 {
            assert(s[1] == t[1]);
        } else {
            assert(s[1] == '*');
        }
        assert(s.skip(1) =~= t1 + seq!['*', '/'] + rest);
        assert forall|k: int| 0 <= k < t1.len() - 1 implies !(#[trigger] t1[k] == '*' && t1[k + 1] == '/') by {
            assert(t1[k] == t[k + 1] && t1[k + 1] == t[k + 2]);
        }
        lemma_block_run(t1, rest);
        let c = if t[0] == '\n' { '\n' } else { ' ' };
        assert(blanked(t) + seq![' ', ' '] + scan(ScanState::Normal, rest)
            =~= seq![c] + (blanked(t1) + seq![' ', ' '] + scan(ScanState::Normal, rest)));
    }
}

/// A `/* */` comment ends at the first `*/`: its characters become spaces,
/// its line breaks stay, and what follows is blanked as if it stood alone.
pub proof fn lemma_block_comment_is_blanked(t: Seq<char>, rest: Seq<char>)
    requires
        forall|k: int| 0 <= k < t.len() - 1 ==> !(#[trigger] t[k] == '*' && t[k + 1] == '/'),
    ensures
        spec_strip_comments(seq!['/', '*'] + t + seq!['*', '/'] + rest)
            == seq![' ', ' '] + blanked(t) + seq![' ', ' '] + spec_strip_comments(rest),
{
    let s = seq!['/', '*'] + t + seq!['*', '/'] + rest;
    assert(s[0] == '/' && s[1] == '*');
    assert(s.skip(2) =~= t + seq!['*', '/'] + rest);
    lemma_block_run(t, rest);
    assert(seq![' ', ' '] + (blanked(t) + seq![' ', ' '] + spec_strip_comments(rest))
        =~= seq![' ', ' '] + blanked(t) + seq![' ', ' '] + spec_strip_comments(rest));
}

/// The state the scanner is in once it has read `s`, starting in `st`.
pub open spec fn scan_end(st: ScanState, s: Seq<char>) -> ScanState
    decreases s.len(),
{
    if s.len() == 0 {
        st
    } else {
        let (out, n, next) = step(st, s);
        scan_end(next, s.skip(n))
    }
}

/// A state the scanner can reach: quoted text is always opened by a quote
/// character.
pub open spec fn reachable(st: ScanState) -> bool {
    match st {
        ScanState::Quoted(q) => q == '\'' || q == '"' || q == '`',
        _ => true,
    }
}

/// Text made of whole lines is blanked line by line: when `a` is empty or
/// ends with a line break, blanking `a + b` blanks `a`, then `b` from the
/// state `a` left; and a line break never leaves the scanner in a `//`
/// comment.
pub proof fn lemma_scan_concat(st: ScanState, a: Seq<char>, b: Seq<char>)
    requires
        a.len() == 0 || a.last() == '\n',
    ensures
        scan(st, a + b) == scan(st, a) + scan(scan_end(st, a), b),
        a.len() > 0 ==> !(scan_end(st, a) is Line),
        reachable(st) ==> reachable(scan_end(st, a)),
    decreases a.len(),
{
    if a.len() == 0 {
        assert(a + b =~= b);
        assert(scan(st, a) + scan(st, b) =~= scan(st, b));
    } else {
        let s = a + b;
        assert(s[0] == a[0]);
        if a.len() > 1 {
            assert(s[1] == a[1]);
        }
        assert(step(st, s) == step(st, a));
        lemma_step_shape(st, a);
        let (out, n, next) = step(st, a);
        let a1 = a.skip(n);
        assert(s.skip(n) =~= a1 + b);
        if a1.len() > 0 {
            assert(a1.last() == a.last());
        }
        lemma_scan_concat(next, a1, b);
        assert(out + (scan(next, a1) + scan(scan_end(next, a1), b))
            =~= (out + scan(next, a1)) + scan(scan_end(next, a1), b));
        if a1.len() == 0 {
            assert(a.last() == a[n - 1]);
        }
    }
}

/// Text with no `/` and no quote character leaves the scanner where it was,
/// outside comments and quotes, and is kept as it is.
pub proof fn lemma_plain_text(a: Seq<char>)
    requires
        forall|k: int| 0 <= k < a.len() ==> a[k] != '/' && a[k] != '\'' && a[k] != '"' && a[k] != '`',
    ensures
        scan_end(ScanState::Normal, a) == ScanState::Normal,
        spec_strip_comments(a) == a,
    decreases a.len(),
{
    lemma_scan_without_slash(ScanState::Normal, a);
    if a.len() > 0 {
        let a1 = a.skip(1);
        assert forall|k: int| 0 <= k < a1.len() implies a1[k] != '/' && a1[k] != '\'' && a1[k] != '"' && a1[k] != '`' by {
            assert(a1[k] == a[k + 1]);
        }
        lemma_plain_text(a1);
    }
}

/// Blanks out the comments of `source`: each character of a `//` or `/* */`
/// comment, its delimiters included, becomes a space, except that line
/// breaks stay; quoted text, backslash escapes included, is copied as it is.
pub fn strip_comments(source: &str) -> (r: String)
    ensures
        r@ == spec_strip_comments(source@),
        r@.len() == source@.len(),
        forall|i: int| 0 <= i < source@.len() ==>
            (#[trigger] r@[i] == source@[i] || r@[i] == ' ') && (source@[i] == '\n' ==> r@[i] == '\n'),
        (forall|i: int| 0 <= i < source@.len() ==> source@[i] != '/') ==> r@ == source@,
        spec_strip_comments(r@) == r@,
{
    let chars = chars_of(source);
    let mut output: Vec<char> = Vec::new();
    let mut state = ScanState::Normal;
    let mut index: usize = 0;
    assert(chars@.skip(0) =~= chars@);
    assert(output@ + scan(state, chars@.skip(0)) =~= scan(ScanState::Normal, chars@));
    while index < chars.len()
        invariant
            index <= chars.len(),
            output@ + scan(state, chars@.skip(index as int)) == scan(ScanState::Normal, chars@),
        decreases chars.len() - index,
    {
        let ghost rest = chars@.skip(index as int);
        let ghost before = output@;
        proof {
            lemma_step_shape(state, rest);
        }
        let (emitted, advance, next_state) = scan_step(state, &chars, index);
        let mut k: usize = 0;
        while k < emitted.len()
            invariant
                k <= emitted.len(),
                output@ == before + emitted@.take(k as int),
            decreases emitted.len() - k,
        {
            output.push(emitted[k]);
            k = k + 1;
            assert(output@ =~= before + emitted@.take(k as int));
        }
        assert(emitted@.take(emitted.len() as int) =~= emitted@);
        assert(rest.skip(advance as int) =~= chars@.skip(index + advance));
        assert(before + scan(state, rest) =~= output@ + scan(next_state, chars@.skip(index + advance)));
        index = index + advance;
        state = next_state;
    }
    assert(chars@.skip(index as int) =~= Seq::<char>::empty());
    assert(output@ =~= scan(ScanState::Normal, chars@));
    proof {
        lemma_scan_layout(ScanState::Normal, source@);
        if forall|i: int| 0 <= i < source@.len() ==> source@[i] != '/' {
            lemma_scan_without_slash(ScanState::Normal, source@);
        }
        lemma_strip_comments_idempotent(source@);
    }
    string_from_chars(output.as_slice())
}

} // verus!
