//! How each consumer's executable source is recognised as importing its
//! public validation SDK, once comments are blanked out.
use vstd::prelude::*;
use crate::comments::{
    lemma_plain_text, lemma_scan_concat, lemma_scan_layout, reachable, scan, scan_end, spec_strip_comments, step, strip_comments,
    ScanState,
};
use crate::forbidden::{
    first_forbidden, forbidden_in, forbidden_message, lemma_first_forbidden_concat, lemma_first_forbidden_none, reject_forbidden,
};
use crate::text::{
    char_is_whitespace, is_white_space, matches_at, occurs_at, chars_eq, chars_of, contains_chars, has_infix, has_prefix, lines_of, lines_view, spec_lines,
    spec_trim, spec_trim_start, starts_with_chars, strings_view, trim_chars, trim_start_chars, lemma_lines_concat,
};

verus! {

/// The TypeScript SDK's package name.
pub const TS_PACKAGE: &'static str = "@declarative-migrations/declmig-validation";

/// The Rust SDK's package name.
pub const RUST_PACKAGE: &'static str = "declmig-validation";

/// The Rust SDK's crate name.
pub const RUST_CRATE: &'static str = "declmig_validation";

/// The Go SDK's module path.
pub const GO_PACKAGE: &'static str = "github.com/declarative-migrations/declmig-lib-core/validation/golang";

/// The Gleam SDK's package name.
pub const GLEAM_PACKAGE: &'static str = "declmig_validation";

/// The four consumers.
#[derive(Clone, Copy)]
pub enum Language {
    TypeScript,
    Rust,
    Go,
    Gleam,
}

/// `a` + `b` + `c`.
pub fn concat3(a: &str, b: &str, c: &str) -> (r: String)
    ensures
        r@ == a@ + b@ + c@,
{
    let mut r = String::from_str(a);
    r.append(b);
    r.append(c);
    r
}

/// A character of a word: an ASCII letter or digit, `_`, `$`, or any
/// non-ASCII character that is not white space.
pub open spec fn is_word_char(c: char) -> bool {
    ||| ('a' <= c && c <= 'z')
    ||| ('A' <= c && c <= 'Z')
    ||| ('0' <= c && c <= '9')
    ||| c == '_'
    ||| c == '$'
    ||| (c > '\u{7f}' && !is_white_space(c))
}

/// A character that may close or open quoted text.
pub open spec fn is_quote_char(c: char) -> bool {
    c == '"' || c == '\'' || c == '`'
}

/// White space within a line.
pub open spec fn is_inline_space(c: char) -> bool {
    is_white_space(c) && c != '\n' && c != '\r'
}

/// The first position at or after `j` that is not white space.
pub open spec fn skip_space(s: Seq<char>, j: int) -> int
    decreases s.len() - j,
{
    if 0 <= j < s.len() && is_white_space(s[j]) {
        skip_space(s, j + 1)
    } else {
        j
    }
}

/// The first position at or after `j` that is not white space within the line.
pub open spec fn skip_inline_space(s: Seq<char>, j: int) -> int
    decreases s.len() - j,
{
    if 0 <= j < s.len() && is_inline_space(s[j]) {
        skip_inline_space(s, j + 1)
    } else {
        j
    }
}

/// `w` stands at `i` with no word character just before it.
pub open spec fn word_at(s: Seq<char>, w: Seq<char>, i: int) -> bool {
    occurs_at(s, w, i) && (i == 0 || !is_word_char(s[i - 1]))
}

/// `body` stands at `j` as the whole text between two equal `"` or `'` quotes.
pub open spec fn quoted_at(s: Seq<char>, body: Seq<char>, j: int) -> bool {
    &&& 0 <= j
    &&& j + body.len() + 2 <= s.len()
    &&& (s[j] == '"' || s[j] == '\'')
    &&& occurs_at(s, body, j + 1)
    &&& s[j + body.len() + 1] == s[j]
}

/// What follows position `k` on its line is no quote: the text matched
/// before `k` is not the inside of a string that closes there.
pub open spec fn not_closed_by_quote(s: Seq<char>, k: int) -> bool {
    let e = skip_inline_space(s, k);
    !(0 <= e < s.len() && is_quote_char(s[e]))
}

/// TypeScript: the keyword `kw` at `i`, then, after any white space, the
/// SDK package quoted exactly, not closed by a quote after it.
pub open spec fn ts_keyword_import(s: Seq<char>, kw: Seq<char>, i: int) -> bool {
    &&& word_at(s, kw, i)
    &&& quoted_at(s, TS_PACKAGE@, skip_space(s, i + kw.len()))
    &&& not_closed_by_quote(s, skip_space(s, i + kw.len()) + TS_PACKAGE@.len() + 2)
}

/// TypeScript: `require ( "<package>" )` at `i`, white space allowed
/// between the parts, not closed by a quote after it.
pub open spec fn ts_require_import(s: Seq<char>, i: int) -> bool {
    let j = skip_space(s, i + "require"@.len());
    let k = skip_space(s, j + 1);
    let m = skip_space(s, k + TS_PACKAGE@.len() + 2);
    &&& word_at(s, "require"@, i)
    &&& 0 <= j < s.len()
    &&& s[j] == '('
    &&& quoted_at(s, TS_PACKAGE@, k)
    &&& 0 <= m < s.len()
    &&& s[m] == ')'
    &&& not_closed_by_quote(s, m + 1)
}

/// TypeScript: an import of the SDK starts at `i` of the comment-free text:
/// `from` or `import` followed by the package in `"` or `'` quotes, exactly,
/// or a `require` of it.
pub open spec fn ts_import_at(s: Seq<char>, i: int) -> bool {
    ts_keyword_import(s, "from"@, i) || ts_keyword_import(s, "import"@, i) || ts_require_import(s, i)
}

/// TypeScript: the source, with comments blanked out, imports the SDK package.
pub open spec fn spec_typescript_imports(source: Seq<char>) -> bool {
    exists|i: int| #[trigger] ts_import_at(spec_strip_comments(source), i)
}

/// Rust: the crate name at `j`, as a whole word, not closed by a quote after it.
pub open spec fn rust_crate_at(s: Seq<char>, j: int) -> bool {
    &&& occurs_at(s, RUST_CRATE@, j)
    &&& (j + RUST_CRATE@.len() == s.len() || !is_word_char(s[j + RUST_CRATE@.len()]))
    &&& not_closed_by_quote(s, j + RUST_CRATE@.len())
}

/// Rust: at `i` of the comment-free text, `use` or `extern crate`, each
/// word followed by white space, then the SDK crate's name.
pub open spec fn rust_import_at(s: Seq<char>, i: int) -> bool {
    ||| {
        let j = skip_space(s, i + "use"@.len());
        &&& word_at(s, "use"@, i)
        &&& j > i + "use"@.len()
        &&& rust_crate_at(s, j)
    }
    ||| {
        let j = skip_space(s, i + "extern"@.len());
        let k = skip_space(s, j + "crate"@.len());
        &&& word_at(s, "extern"@, i)
        &&& j > i + "extern"@.len()
        &&& occurs_at(s, "crate"@, j)
        &&& k > j + "crate"@.len()
        &&& rust_crate_at(s, k)
    }
}

/// Rust: the source, with comments blanked out, imports the SDK crate.
pub open spec fn spec_rust_imports(source: Seq<char>) -> bool {
    exists|i: int| #[trigger] rust_import_at(spec_strip_comments(source), i)
}

/// Gleam: a line that, without its indentation, imports the SDK module or one of its submodules.
pub open spec fn gleam_import_line(line: Seq<char>) -> bool {
    let t = spec_trim_start(line);
    ||| t == "import declmig_validation"@
    ||| has_prefix(t, "import declmig_validation."@)
    ||| has_prefix(t, "import declmig_validation "@)
}

/// Gleam: some line of the source imports the SDK.
pub open spec fn spec_gleam_imports(source: Seq<char>) -> bool {
    let lines = spec_lines(spec_strip_comments(source));
    exists|i: int| 0 <= i < lines.len() && #[trigger] gleam_import_line(lines[i])
}

/// Go: a scan over the trimmed lines that tracks whether it is inside an
/// `import ( ... )` block; a line inside the block that holds the quoted
/// path, or a single-line `import` that does, is an import.
pub open spec fn go_scan(lines: Seq<Seq<char>>, in_block: bool, quoted: Seq<char>) -> bool
    decreases lines.len(),
{
    if lines.len() == 0 {
        false
    } else {
        let line = spec_trim(lines[0]);
        let rest = lines.drop_first();
        if in_block {
            if has_prefix(line, ")"@) {
                go_scan(rest, false, quoted)
            } else if has_infix(line, quoted) {
                true
            } else {
                go_scan(rest, true, quoted)
            }
        } else if line == "import ("@ || has_prefix(line, "import("@) {
            go_scan(rest, true, quoted)
        } else if has_prefix(line, "import "@) && has_infix(line, quoted) {
            true
        } else {
            go_scan(rest, false, quoted)
        }
    }
}

/// Go: `source` imports `package`.
pub open spec fn spec_go_imports(source: Seq<char>, package: Seq<char>) -> bool {
    go_scan(spec_lines(spec_strip_comments(source)), false, "\""@ + package + "\""@)
}

/// Whether `source` imports the SDK of `lang`.
pub open spec fn imports_sdk(lang: Language, source: Seq<char>) -> bool {
    match lang {
        Language::TypeScript => spec_typescript_imports(source),
        Language::Rust => spec_rust_imports(source),
        Language::Go => spec_go_imports(source, GO_PACKAGE@),
        Language::Gleam => spec_gleam_imports(source),
    }
}

/// Whether `c` is a character of a word.
pub fn word_char(c: char) -> (b: bool)
    ensures
        b == is_word_char(c),
{
    ('a' <= c && c <= 'z') || ('A' <= c && c <= 'Z') || ('0' <= c && c <= '9') || c == '_' || c == '$'
        || (c > '\u{7f}' && !char_is_whitespace(c))
}

fn skip_space_exec(s: &[char], j: usize) -> (r: usize)
    requires
        j <= s.len(),
    ensures
        j <= r <= s.len(),
        r == skip_space(s@, j as int),
{
    let mut k = j;
    while k < s.len() && char_is_whitespace(s[k])
        invariant
            j <= k <= s.len(),
            skip_space(s@, j as int) == skip_space(s@, k as int),
        decreases s.len() - k,
    {
        k = k + 1;
    }
    k
}

fn skip_inline_space_exec(s: &[char], j: usize) -> (r: usize)
    requires
        j <= s.len(),
    ensures
        j <= r <= s.len(),
        r == skip_inline_space(s@, j as int),
{
    let mut k = j;
    while k < s.len() && char_is_whitespace(s[k]) && s[k] != '\n' && s[k] != '\r'
        invariant
            j <= k <= s.len(),
            skip_inline_space(s@, j as int) == skip_inline_space(s@, k as int),
        decreases s.len() - k,
    {
        k = k + 1;
    }
    k
}

fn word_at_exec(s: &[char], w: &[char], i: usize) -> (b: bool)
    ensures
        b == word_at(s@, w@, i as int),
{
    matches_at(s, i, w) && (i == 0 || !word_char(s[i - 1]))
}

fn quoted_at_exec(s: &[char], body: &[char], j: usize) -> (b: bool)
    ensures
        b == quoted_at(s@, body@, j as int),
{
    if j >= s.len() || s.len() - j < 2 || s.len() - j - 2 < body.len() {
        return false;
    }
    let q = s[j];
    (q == '"' || q == '\'') && matches_at(s, j + 1, body) && s[j + body.len() + 1] == q
}

fn not_closed_by_quote_exec(s: &[char], k: usize) -> (b: bool)
    requires
        k <= s.len(),
    ensures
        b == not_closed_by_quote(s@, k as int),
{
    let e = skip_inline_space_exec(s, k);
    !(e < s.len() && (s[e] == '"' || s[e] == '\'' || s[e] == '`'))
}

fn ts_keyword_import_exec(s: &[char], kw: &[char], pkg: &[char], i: usize) -> (b: bool)
    requires
        pkg@ == TS_PACKAGE@,
    ensures
        b == ts_keyword_import(s@, kw@, i as int),
{
    if !word_at_exec(s, kw, i) {
        return false;
    }
    assert(occurs_at(s@, kw@, i as int) && i + kw.len() <= s.len());
    let j = skip_space_exec(s, i + kw.len());
    if !quoted_at_exec(s, pkg, j) {
        return false;
    }
    not_closed_by_quote_exec(s, j + pkg.len() + 2)
}

fn ts_require_import_exec(s: &[char], require: &[char], pkg: &[char], i: usize) -> (b: bool)
    requires
        pkg@ == TS_PACKAGE@,
        require@ == "require"@,
    ensures
        b == ts_require_import(s@, i as int),
{
    if !word_at_exec(s, require, i) {
        return false;
    }
    assert(occurs_at(s@, require@, i as int) && i + require.len() <= s.len());
    let j = skip_space_exec(s, i + require.len());
    if j >= s.len() || s[j] != '(' {
        return false;
    }
    let k = skip_space_exec(s, j + 1);
    if !quoted_at_exec(s, pkg, k) {
        return false;
    }
    let m = skip_space_exec(s, k + pkg.len() + 2);
    if m >= s.len() || s[m] != ')' {
        return false;
    }
    not_closed_by_quote_exec(s, m + 1)
}

fn typescript_imports(source: &str) -> (b: bool)
    ensures
        b == spec_typescript_imports(source@),
{
    let stripped = strip_comments(source);
    let chars = chars_of(stripped.as_str());
    let s = chars.as_slice();
    let from = chars_of("from");
    let import = chars_of("import");
    let require = chars_of("require");
    let pkg = chars_of(TS_PACKAGE);
    let ghost t = spec_strip_comments(source@);
    let mut i: usize = 0;
    while i < s.len()
        invariant
            i <= s.len(),
            t == spec_strip_comments(source@),
            s@ == t,
            from@ == "from"@,
            import@ == "import"@,
            require@ == "require"@,
            pkg@ == TS_PACKAGE@,
            forall|j: int| 0 <= j < i ==> !#[trigger] ts_import_at(t, j),
        decreases s.len() - i,
    {
        if ts_keyword_import_exec(s, from.as_slice(), pkg.as_slice(), i)
            || ts_keyword_import_exec(s, import.as_slice(), pkg.as_slice(), i)
            || ts_require_import_exec(s, require.as_slice(), pkg.as_slice(), i) {
            assert(ts_import_at(t, i as int));
            return true;
        }
        i = i + 1;
    }
    if ts_keyword_import_exec(s, from.as_slice(), pkg.as_slice(), i)
        || ts_keyword_import_exec(s, import.as_slice(), pkg.as_slice(), i)
        || ts_require_import_exec(s, require.as_slice(), pkg.as_slice(), i) {
        assert(ts_import_at(t, i as int));
        return true;
    }
    assert forall|j: int| !#[trigger] ts_import_at(t, j) by {
        if j > i {
            assert(!occurs_at(t, "from"@, j));
            assert(!occurs_at(t, "import"@, j));
            assert(!occurs_at(t, "require"@, j));
        }
    }
    false
}

fn rust_crate_at_exec(s: &[char], krate: &[char], j: usize) -> (b: bool)
    requires
        krate@ == RUST_CRATE@,
    ensures
        b == rust_crate_at(s@, j as int),
{
    if !matches_at(s, j, krate) {
        return false;
    }
    assert(occurs_at(s@, krate@, j as int) && j + krate.len() <= s.len());
    let e = j + krate.len();
    (e == s.len() || !word_char(s[e])) && not_closed_by_quote_exec(s, e)
}

fn rust_import_at_exec(s: &[char], kw_use: &[char], kw_extern: &[char], kw_crate: &[char], krate: &[char], i: usize) -> (b: bool)
    requires
        kw_use@ == "use"@,
        kw_extern@ == "extern"@,
        kw_crate@ == "crate"@,
        krate@ == RUST_CRATE@,
    ensures
        b == rust_import_at(s@, i as int),
{
    if word_at_exec(s, kw_use, i) {
        assert(occurs_at(s@, kw_use@, i as int) && i + kw_use.len() <= s.len());
    let j = skip_space_exec(s, i + kw_use.len());
        if j > i + kw_use.len() && rust_crate_at_exec(s, krate, j) {
            return true;
        }
    }
    if word_at_exec(s, kw_extern, i) {
        assert(occurs_at(s@, kw_extern@, i as int) && i + kw_extern.len() <= s.len());
    let j = skip_space_exec(s, i + kw_extern.len());
        if j > i + kw_extern.len() && matches_at(s, j, kw_crate) {
            let k = skip_space_exec(s, j + kw_crate.len());
            if k > j + kw_crate.len() && rust_crate_at_exec(s, krate, k) {
                return true;
            }
        }
    }
    false
}

fn rust_imports(source: &str) -> (b: bool)
    ensures
        b == spec_rust_imports(source@),
{
    let stripped = strip_comments(source);
    let chars = chars_of(stripped.as_str());
    let s = chars.as_slice();
    let kw_use = chars_of("use");
    let kw_extern = chars_of("extern");
    let kw_crate = chars_of("crate");
    let krate = chars_of(RUST_CRATE);
    let ghost t = spec_strip_comments(source@);
    let mut i: usize = 0;
    while i < s.len()
        invariant
            i <= s.len(),
            t == spec_strip_comments(source@),
            s@ == t,
            kw_use@ == "use"@,
            kw_extern@ == "extern"@,
            kw_crate@ == "crate"@,
            krate@ == RUST_CRATE@,
            forall|j: int| 0 <= j < i ==> !#[trigger] rust_import_at(t, j),
        decreases s.len() - i,
    {
        if rust_import_at_exec(s, kw_use.as_slice(), kw_extern.as_slice(), kw_crate.as_slice(), krate.as_slice(), i) {
            assert(rust_import_at(t, i as int));
            return true;
        }
        i = i + 1;
    }
    if rust_import_at_exec(s, kw_use.as_slice(), kw_extern.as_slice(), kw_crate.as_slice(), krate.as_slice(), i) {
        assert(rust_import_at(t, i as int));
        return true;
    }
    assert forall|j: int| !#[trigger] rust_import_at(t, j) by {
        if j > i {
            assert(!occurs_at(t, "use"@, j));
            assert(!occurs_at(t, "extern"@, j));
        }
    }
    false
}

fn is_gleam_import_line(line: &[char]) -> (b: bool)
    ensures
        b == gleam_import_line(line@),
{
    let t = trim_start_chars(line);
    let whole = chars_of("import declmig_validation");
    let dotted = chars_of("import declmig_validation.");
    let spaced = chars_of("import declmig_validation ");
    chars_eq(t.as_slice(), whole.as_slice()) || starts_with_chars(t.as_slice(), dotted.as_slice())
        || starts_with_chars(t.as_slice(), spaced.as_slice())
}

fn gleam_imports(source: &str) -> (b: bool)
    ensures
        b == spec_gleam_imports(source@),
{
    let stripped = strip_comments(source);
    let chars = chars_of(stripped.as_str());
    let lines = lines_of(chars.as_slice());
    let ghost lv = lines_view(lines@);
    let mut k: usize = 0;
    while k < lines.len()
        invariant
            k <= lines.len(),
            lv == lines_view(lines@),
            lv == spec_lines(spec_strip_comments(source@)),
            forall|j: int| 0 <= j < k ==> !#[trigger] gleam_import_line(lv[j]),
        decreases lines.len() - k,
    {
        assert(lv[k as int] == lines@[k as int]@);
        if is_gleam_import_line(lines[k].as_slice()) {
            return true;
        }
        k = k + 1;
    }
    false
}

/// Whether the Go `source` imports `package`: after comments are blanked
/// out, a trimmed line inside an `import ( ... )` block holds the quoted
/// path, or a single-line `import ` statement does.
pub fn go_imports(source: &str, package: &str) -> (b: bool)
    ensures
        b == spec_go_imports(source@, package@),
{
    let stripped = strip_comments(source);
    let chars = chars_of(stripped.as_str());
    let lines = lines_of(chars.as_slice());
    let quoted_s = concat3("\"", package, "\"");
    let quoted = chars_of(quoted_s.as_str());
    let close = chars_of(")");
    let block_open = chars_of("import (");
    let block_open_tight = chars_of("import(");
    let single = chars_of("import ");
    let ghost lv = lines_view(lines@);
    let mut in_block = false;
    let mut k: usize = 0;
    assert(lv.skip(0) =~= lv);
    while k < lines.len()
        invariant
            k <= lines.len(),
            lv == lines_view(lines@),
            lv == spec_lines(spec_strip_comments(source@)),
            quoted@ == "\""@ + package@ + "\""@,
            close@ == ")"@,
            block_open@ == "import ("@,
            block_open_tight@ == "import("@,
            single@ == "import "@,
            spec_go_imports(source@, package@) == go_scan(lv.skip(k as int), in_block, quoted@),
        decreases lines.len() - k,
    {
        let ghost rest = lv.skip(k as int);
        assert(rest[0] == lines@[k as int]@);
        assert(rest.drop_first() =~= lv.skip(k + 1));
        let line = trim_chars(lines[k].as_slice());
        if in_block {
            if starts_with_chars(line.as_slice(), close.as_slice()) {
                in_block = false;
            } else if contains_chars(line.as_slice(), quoted.as_slice()) {
                return true;
            }
        } else if chars_eq(line.as_slice(), block_open.as_slice())
            || starts_with_chars(line.as_slice(), block_open_tight.as_slice()) {
            in_block = true;
        } else if starts_with_chars(line.as_slice(), single.as_slice())
            && contains_chars(line.as_slice(), quoted.as_slice()) {
            return true;
        }
        k = k + 1;
    }
    false
}

/// Whether `source` imports the SDK of `lang`.
pub fn source_imports(lang: Language, source: &str) -> (b: bool)
    ensures
        b == imports_sdk(lang, source@),
{
    match lang {
        Language::TypeScript => typescript_imports(source),
        Language::Rust => rust_imports(source),
        Language::Go => go_imports(source, GO_PACKAGE),
        Language::Gleam => gleam_imports(source),
    }
}

/// Whether a source imports its SDK depends on its text with the comments
/// blanked out alone: a mention of the SDK inside a comment neither makes
/// nor unmakes an import.
pub proof fn lemma_imports_ignore_comments(lang: Language, a: Seq<char>, b: Seq<char>)
    requires
        spec_strip_comments(a) == spec_strip_comments(b),
    ensures
        imports_sdk(lang, a) == imports_sdk(lang, b),
{
}

/// An import is exact: a TypeScript source that imports the SDK holds, outside
/// its comments, the package name whole between two equal quotes; a Rust
/// source that imports it holds the crate name as a whole word.
pub proof fn lemma_imports_name_the_sdk_exactly(source: Seq<char>)
    ensures
        spec_typescript_imports(source) ==> exists|j: int|
            #[trigger] quoted_at(spec_strip_comments(source), TS_PACKAGE@, j),
        spec_rust_imports(source) ==> exists|j: int|
            #[trigger] rust_crate_at(spec_strip_comments(source), j),
{
    let t = spec_strip_comments(source);
    if spec_typescript_imports(source) {
        let i = choose|i: int| #[trigger] ts_import_at(t, i);
        if ts_keyword_import(t, "from"@, i) {
            assert(quoted_at(t, TS_PACKAGE@, skip_space(t, i + "from"@.len())));
        } else if ts_keyword_import(t, "import"@, i) {
            assert(quoted_at(t, TS_PACKAGE@, skip_space(t, i + "import"@.len())));
        } else {
            let j = skip_space(t, i + "require"@.len());
            assert(quoted_at(t, TS_PACKAGE@, skip_space(t, j + 1)));
        }
    }
    if spec_rust_imports(source) {
        let i = choose|i: int| #[trigger] rust_import_at(t, i);
        let j = skip_space(t, i + "use"@.len());
        if word_at(t, "use"@, i) && j > i + "use"@.len() && rust_crate_at(t, j) {
            assert(rust_crate_at(t, j));
        } else {
            let j2 = skip_space(t, i + "extern"@.len());
            assert(rust_crate_at(t, skip_space(t, j2 + "crate"@.len())));
        }
    }
}

/// Go: a blank line (a line that trims to nothing) read anywhere in the
/// scan, inside an `import ( ... )` block or outside, changes nothing.
proof fn lemma_go_scan_blank_line(ls: Seq<Seq<char>>, k: int, blank: Seq<char>, in_block: bool, quoted: Seq<char>)
    requires
        0 <= k <= ls.len(),
        spec_trim(blank).len() == 0,
        quoted.len() > 0,
    ensures
        go_scan(ls.insert(k, blank), in_block, quoted) == go_scan(ls, in_block, quoted),
    decreases k,
{
    let ins = ls.insert(k, blank);
    if k == 0 {
        reveal_strlit(")");
        reveal_strlit("import (");
        reveal_strlit("import(");
        reveal_strlit("import ");
        assert(ins[0] == blank);
        assert(ins.drop_first() =~= ls);
        let line = spec_trim(blank);
        assert(!has_infix(line, quoted)) by {
            if has_infix(line, quoted) {
                let i = choose|i: int| #[trigger] occurs_at(line, quoted, i);
                assert(occurs_at(line, quoted, i));
            }
        }
        assert(line != "import ("@);
    } else {
        assert(ins[0] == ls[0]);
        assert(ins.drop_first() =~= ls.drop_first().insert(k - 1, blank));
        lemma_go_scan_blank_line(ls.drop_first(), k - 1, blank, true, quoted);
        lemma_go_scan_blank_line(ls.drop_first(), k - 1, blank, false, quoted);
    }
}

/// Go: only a line starting with `)` ends an `import ( ... )` block, so
/// blank lines between an import block's lines, or anywhere else, do not
/// change whether a source imports a package: inserting a line break
/// between two lines of the source keeps the answer.
pub proof fn lemma_go_imports_ignore_blank_lines(a: Seq<char>, b: Seq<char>, package: Seq<char>)
    requires
        a.len() == 0 || a.last() == '\n',
    ensures
        spec_go_imports(a + seq!['\n'] + b, package) == spec_go_imports(a + b, package),
{
    let nl = seq!['\n'];
    let n = ScanState::Normal;
    let e = scan_end(n, a);
    assert(a + nl + b =~= a + (nl + b));
    lemma_scan_concat(n, a, nl + b);
    lemma_scan_concat(e, nl, b);
    lemma_scan_concat(n, a, b);
    assert(reachable(n));
    assert(nl[0] == '\n' && nl.skip(1) =~= Seq::<char>::empty());
    assert(reachable(e));
    assert(a.len() == 0 ==> e == n);
    let (o, n1, nx) = step(e, nl);
    assert(scan(nx, nl.skip(1)) == Seq::<char>::empty());
    assert(scan_end(nx, nl.skip(1)) == nx);
    assert(o =~= nl && n1 == 1 && nx == e);
    assert(scan(e, nl) =~= nl);
    assert(scan_end(e, nl) == e);
    let x = scan(n, a);
    let y = scan(e, b);
    lemma_scan_layout(n, a);
    if a.len() > 0 {
        assert(x.last() == '\n');
    }
    assert(x + (nl + y) =~= x + nl + y);
    lemma_lines_concat(x, nl + y);
    lemma_lines_concat(nl, y);
    lemma_lines_concat(x, y);
    assert(spec_lines(nl) =~= seq![Seq::<char>::empty()]) by {
        assert(nl.drop_last() =~= Seq::<char>::empty());
    }
    let lx = spec_lines(x);
    let ly = spec_lines(y);
    let quoted = "\""@ + package + "\""@;
    reveal_strlit("\"");
    assert(spec_trim(Seq::<char>::empty()) =~= Seq::<char>::empty());
    lemma_go_scan_blank_line(lx + ly, lx.len() as int, Seq::<char>::empty(), false, quoted);
    assert((lx + ly).insert(lx.len() as int, Seq::<char>::empty()) =~= lx + (seq![Seq::<char>::empty()] + ly));
}

/// Gleam: when `a` is made of whole lines and leaves no comment or quote
/// open, `a + b` imports the SDK exactly when `a` or `b` does: an import
/// line counts wherever it stands, whatever lines come before or after it.
pub proof fn lemma_gleam_imports_by_any_line(a: Seq<char>, b: Seq<char>)
    requires
        a.len() == 0 || a.last() == '\n',
        scan_end(ScanState::Normal, a) == ScanState::Normal,
    ensures
        spec_gleam_imports(a + b) == (spec_gleam_imports(a) || spec_gleam_imports(b)),
{
    let n = ScanState::Normal;
    lemma_scan_concat(n, a, b);
    let x = scan(n, a);
    let y = scan(n, b);
    lemma_scan_layout(n, a);
    if a.len() > 0 {
        assert(x.last() == '\n');
    }
    lemma_lines_concat(x, y);
    let lx = spec_lines(x);
    let ly = spec_lines(y);
    let l = lx + ly;
    if spec_gleam_imports(a + b) {
        let i = choose|i: int| 0 <= i < l.len() && #[trigger] gleam_import_line(l[i]);
        if i < lx.len() {
            assert(l[i] == lx[i]);
            assert(lx == spec_lines(spec_strip_comments(a)));
            assert(gleam_import_line(lx[i]));
            assert(spec_gleam_imports(a));
        } else {
            let j = i - lx.len();
            assert(l[i] == ly[j]);
            assert(ly == spec_lines(spec_strip_comments(b)));
            assert(0 <= j < ly.len() && gleam_import_line(ly[j]));
            assert(spec_gleam_imports(b));
        }
    }
    if spec_gleam_imports(a) {
        let i = choose|i: int| 0 <= i < lx.len() && #[trigger] gleam_import_line(lx[i]);
        assert(l[i] == lx[i]);
    }
    if spec_gleam_imports(b) {
        let i = choose|i: int| 0 <= i < ly.len() && #[trigger] gleam_import_line(ly[i]);
        assert(l[i + lx.len()] == ly[i]);
    }
}

/// Gleam: putting a plain line (no line break, no `/`, no quote) before a
/// source that imports the SDK keeps it importing.
pub proof fn lemma_gleam_import_survives_a_line_before(line: Seq<char>, b: Seq<char>)
    requires
        forall|k: int| 0 <= k < line.len() ==> line[k] != '\n' && line[k] != '/' && line[k] != '\'' && line[k] != '"' && line[k] != '`',
        spec_gleam_imports(b),
    ensures
        spec_gleam_imports(line + seq!['\n'] + b),
{
    let a = line + seq!['\n'];
    assert forall|k: int| 0 <= k < a.len() implies a[k] != '/' && a[k] != '\'' && a[k] != '"' && a[k] != '`' by {
        if k < line.len() {
            assert(a[k] == line[k]);
        }
    }
    lemma_plain_text(a);
    lemma_gleam_imports_by_any_line(a, b);
}

/// TypeScript: past the closing quote of a `from` or `import` specifier,
/// only a quote matters. In comment-free text laid out as `pre`, the
/// keyword, white space, the package between two equal quotes and then
/// `after`, the import counts exactly when `after` does not start with a
/// quote: whether a `;`, a line break, the end of the text or anything else
/// follows makes no difference.
pub proof fn lemma_typescript_import_ends_at_its_specifier(
    pre: Seq<char>,
    kw: Seq<char>,
    ws: Seq<char>,
    q: char,
    after: Seq<char>,
)
    requires
        kw == "from"@ || kw == "import"@,
        pre.len() == 0 || !is_word_char(pre.last()),
        forall|k: int| 0 <= k < ws.len() ==> is_white_space(#[trigger] ws[k]),
        q == '"' || q == '\'',
        after.len() == 0 || !is_inline_space(after[0]),
    ensures
        ts_keyword_import(pre + kw + ws + seq![q] + TS_PACKAGE@ + seq![q] + after, kw, pre.len() as int)
            <==> !(after.len() > 0 && is_quote_char(after[0])),
{
    let p = TS_PACKAGE@;
    let s = pre + kw + ws + seq![q] + p + seq![q] + after;
    let i = pre.len() as int;
    let j = i + kw.len() + ws.len();
    let e = j + p.len() + 2;
    assert(s.subrange(i, i + kw.len()) =~= kw);
    if i > 0 {
        assert(s[i - 1] == pre.last());
    }
    assert(word_at(s, kw, i));
    assert(s[j] == q);
    lemma_skip_space_run(s, i + kw.len(), ws.len() as int);
    assert(skip_space(s, i + kw.len()) == j);
    assert(s.subrange(j + 1, j + 1 + p.len()) =~= p);
    assert(s[j + p.len() + 1] == q);
    assert(quoted_at(s, p, j));
    if after.len() > 0 {
        assert(s[e] == after[0]);
    } else {
        assert(e == s.len());
    }
    assert(skip_inline_space(s, e) == e);
}

/// TypeScript: the same for `require ( "<package>" )`: past its closing
/// bracket only a quote matters.
pub proof fn lemma_typescript_require_ends_at_its_bracket(
    pre: Seq<char>,
    w1: Seq<char>,
    w2: Seq<char>,
    q: char,
    w3: Seq<char>,
    after: Seq<char>,
)
    requires
        pre.len() == 0 || !is_word_char(pre.last()),
        forall|k: int| 0 <= k < w1.len() ==> is_white_space(#[trigger] w1[k]),
        forall|k: int| 0 <= k < w2.len() ==> is_white_space(#[trigger] w2[k]),
        forall|k: int| 0 <= k < w3.len() ==> is_white_space(#[trigger] w3[k]),
        q == '"' || q == '\'',
        after.len() == 0 || !is_inline_space(after[0]),
    ensures
        ts_require_import(
            pre + "require"@ + w1 + seq!['('] + w2 + seq![q] + TS_PACKAGE@ + seq![q] + w3 + seq![')'] + after,
            pre.len() as int,
        ) <==> !(after.len() > 0 && is_quote_char(after[0])),
{
    let p = TS_PACKAGE@;
    let r = "require"@;
    let s = pre + r + w1 + seq!['('] + w2 + seq![q] + p + seq![q] + w3 + seq![')'] + after;
    let i = pre.len() as int;
    let j = i + r.len() + w1.len();
    let k = j + 1 + w2.len();
    let m = k + p.len() + 2 + w3.len();
    assert(s.subrange(i, i + r.len()) =~= r);
    if i > 0 {
        assert(s[i - 1] == pre.last());
    }
    assert(s[j] == '(');
    lemma_skip_space_run(s, i + r.len(), w1.len() as int);
    assert(s[k] == q);
    lemma_skip_space_run(s, j + 1, w2.len() as int);
    assert(s.subrange(k + 1, k + 1 + p.len()) =~= p);
    assert(s[k + p.len() + 1] == q);
    assert(quoted_at(s, p, k));
    assert(s[m] == ')');
    lemma_skip_space_run(s, k + p.len() + 2, w3.len() as int);
    if after.len() > 0 {
        assert(s[m + 1] == after[0]);
    } else {
        assert(m + 1 == s.len());
    }
    assert(skip_inline_space(s, m + 1) == m + 1);
}

/// Skipping white space from `j` over a run of `len` white-space characters
/// stops right after it, at a character that is not white space or at the end.
proof fn lemma_skip_space_run(s: Seq<char>, j: int, len: int)
    requires
        0 <= j,
        0 <= len,
        j + len <= s.len(),
        forall|k: int| j <= k < j + len ==> is_white_space(#[trigger] s[k]),
        j + len < s.len() ==> !is_white_space(s[j + len]),
    ensures
        skip_space(s, j) == j + len,
    decreases len,
{
    if len > 0 {
        assert(is_white_space(s[j]));
        lemma_skip_space_run(s, j + 1, len - 1);
    }
}

/// Go: inside an `import ( ... )` block, the scan finds the quoted path on
/// any later line as long as neither that line nor one before it starts
/// with `)`.
proof fn lemma_go_block_scan_finds(m: Seq<Seq<char>>, k: int, quoted: Seq<char>)
    requires
        0 <= k < m.len(),
        forall|j: int| 0 <= j <= k ==> !has_prefix(#[trigger] spec_trim(m[j]), ")"@),
        has_infix(spec_trim(m[k]), quoted),
    ensures
        go_scan(m, true, quoted),
    decreases k,
{
    if k > 0 && !has_infix(spec_trim(m[0]), quoted) {
        let m1 = m.drop_first();
        assert forall|j: int| 0 <= j <= k - 1 implies !has_prefix(#[trigger] spec_trim(m1[j]), ")"@) by {
            assert(m1[j] == m[j + 1]);
        }
        assert(m1[k - 1] == m[k]);
        lemma_go_block_scan_finds(m1, k - 1, quoted);
    }
}

/// Go: an `import (` line opens a block that only a line starting with `)`
/// closes; a line of the block that holds the quoted path (and does not
/// itself start with `)`) is an import,
/// whatever lines (blank ones, other imports) stand between.
pub proof fn lemma_go_block_import_is_found(ls: Seq<Seq<char>>, k: int, quoted: Seq<char>)
    requires
        0 < k < ls.len(),
        spec_trim(ls[0]) == "import ("@,
        forall|j: int| 0 < j <= k ==> !has_prefix(#[trigger] spec_trim(ls[j]), ")"@),
        has_infix(spec_trim(ls[k]), quoted),
    ensures
        go_scan(ls, false, quoted),
{
    let m = ls.drop_first();
    assert forall|j: int| 0 <= j <= k - 1 implies !has_prefix(#[trigger] spec_trim(m[j]), ")"@) by {
        assert(m[j] == ls[j + 1]);
    }
    assert(m[k - 1] == ls[k]);
    lemma_go_block_scan_finds(m, k - 1, quoted);
}

/// Rust: in comment-free text laid out as `pre`, `use`, white space, the
/// crate name and then `after` (which does not continue the name), the
/// import counts exactly when `after` does not start with a quote: a `;`, a
/// `::`, a line break or the end of the text all do.
pub proof fn lemma_rust_use_ends_at_the_crate_name(pre: Seq<char>, ws: Seq<char>, after: Seq<char>)
    requires
        pre.len() == 0 || !is_word_char(pre.last()),
        ws.len() > 0,
        forall|k: int| 0 <= k < ws.len() ==> is_white_space(#[trigger] ws[k]),
        after.len() == 0 || (!is_word_char(after[0]) && !is_inline_space(after[0])),
    ensures
        rust_import_at(pre + "use"@ + ws + RUST_CRATE@ + after, pre.len() as int)
            <==> !(after.len() > 0 && is_quote_char(after[0])),
{
    reveal_strlit("use");
    reveal_strlit("extern");
    reveal_strlit("declmig_validation");
    let c = RUST_CRATE@;
    let u = "use"@;
    let s = pre + u + ws + c + after;
    let i = pre.len() as int;
    let j = i + u.len() + ws.len();
    let e = j + c.len();
    assert(s.subrange(i, i + u.len()) =~= u);
    if i > 0 {
        assert(s[i - 1] == pre.last());
    }
    assert(s[i] == 'u');
    assert(!occurs_at(s, "extern"@, i)) by {
        if occurs_at(s, "extern"@, i) {
            assert(s.subrange(i, i + 6)[0] == s[i]);
        }
    }
    assert(s[j] == c[0]);
    lemma_skip_space_run(s, i + u.len(), ws.len() as int);
    assert(s.subrange(j, e) =~= c);
    if after.len() > 0 {
        assert(s[e] == after[0]);
    } else {
        assert(e == s.len());
    }
    assert(skip_inline_space(s, e) == e);
}

/// Adding a source with no forbidden mention to the sources, at any place,
/// never turns a pass into a failure: the answer becomes whether the others
/// already imported the SDK or the new one does; a failure stays the same.
pub proof fn lemma_scan_sources_insert(lang: Language, label: Seq<char>, ss: Seq<Seq<char>>, k: int, x: Seq<char>)
    requires
        0 <= k <= ss.len(),
        forbidden_in(spec_strip_comments(x)) is None,
    ensures
        spec_scan_sources(lang, label, ss.insert(k, x)) == match spec_scan_sources(lang, label, ss) {
            Ok(b) => Ok::<bool, Seq<char>>(b || imports_sdk(lang, x)),
            Err(m) => Err::<bool, Seq<char>>(m),
        },
{
    let ins = ss.insert(k, x);
    let st = stripped_all(ss);
    let sx = spec_strip_comments(x);
    assert(stripped_all(ins) =~= st.take(k) + seq![sx] + st.skip(k));
    assert(st =~= st.take(k) + st.skip(k));
    lemma_first_forbidden_concat(st.take(k) + seq![sx], st.skip(k));
    lemma_first_forbidden_concat(st.take(k), seq![sx]);
    lemma_first_forbidden_concat(st.take(k), st.skip(k));
    assert(seq![sx].drop_first() =~= Seq::<Seq<char>>::empty());
    assert(seq![sx][0] == sx);
    assert(first_forbidden(Seq::<Seq<char>>::empty()) is None);
    assert(first_forbidden(seq![sx]) is None);
    if some_source_imports(lang, ins) {
        let i = choose|i: int| 0 <= i < ins.len() && #[trigger] imports_sdk(lang, ins[i]);
        if i < k {
            assert(imports_sdk(lang, ss[i]));
        } else if i > k {
            assert(imports_sdk(lang, ss[i - 1]));
        }
    }
    if some_source_imports(lang, ss) {
        let i = choose|i: int| 0 <= i < ss.len() && #[trigger] imports_sdk(lang, ss[i]);
        if i < k {
            assert(ins[i] == ss[i]);
        } else {
            assert(ins[i + 1] == ss[i]);
        }
    }
    if imports_sdk(lang, x) {
        assert(ins[k] == x);
    }
}

/// One importing source is enough: when no source mentions a forbidden
/// package, the sources pass as soon as any one of them imports the SDK.
pub proof fn lemma_one_importing_source_suffices(lang: Language, label: Seq<char>, ss: Seq<Seq<char>>, i: int)
    requires
        0 <= i < ss.len(),
        imports_sdk(lang, ss[i]),
        forall|j: int| 0 <= j < ss.len() ==> (#[trigger] forbidden_in(spec_strip_comments(ss[j]))) is None,
    ensures
        spec_scan_sources(lang, label, ss) == Ok::<bool, Seq<char>>(true),
{
    let st = stripped_all(ss);
    assert forall|j: int| 0 <= j < st.len() implies (#[trigger] forbidden_in(st[j])) is None by {
        assert(st[j] == spec_strip_comments(ss[j]));
    }
    lemma_first_forbidden_none(st);
}

/// The sources with their comments blanked out.
pub open spec fn stripped_all(ss: Seq<Seq<char>>) -> Seq<Seq<char>> {
    ss.map_values(|s: Seq<char>| spec_strip_comments(s))
}

/// Some source imports the SDK of `lang`.
pub open spec fn some_source_imports(lang: Language, ss: Seq<Seq<char>>) -> bool {
    exists|i: int| 0 <= i < ss.len() && #[trigger] imports_sdk(lang, ss[i])
}

/// What a consumer's sources answer: the first forbidden package found in
/// them once their comments are blanked out, else whether any imports the SDK.
pub open spec fn spec_scan_sources(lang: Language, label: Seq<char>, ss: Seq<Seq<char>>) -> Result<bool, Seq<char>> {
    match first_forbidden(stripped_all(ss)) {
        Some(f) => Err(forbidden_message(label, f)),
        None => Ok(some_source_imports(lang, ss)),
    }
}

/// Looks through the sources in order: each, with its comments blanked out,
/// must name no forbidden package; answers whether any imports the SDK.
pub fn scan_sources(lang: Language, label: &str, sources: &Vec<String>) -> (r: Result<bool, String>)
    ensures
        match r {
            Ok(b) => spec_scan_sources(lang, label@, strings_view(sources@)) == Ok::<bool, Seq<char>>(b),
            Err(m) => spec_scan_sources(lang, label@, strings_view(sources@)) == Err::<bool, Seq<char>>(m@),
        },
{
    let ghost ss = strings_view(sources@);
    let ghost all = stripped_all(ss);
    let mut imported = false;
    let mut i: usize = 0;
    assert(all.skip(0) =~= all);
    while i < sources.len()
        invariant
            i <= sources.len(),
            ss == strings_view(sources@),
            all == stripped_all(ss),
            all.len() == sources.len(),
            first_forbidden(all) == first_forbidden(all.skip(i as int)),
            imported == exists|j: int| 0 <= j < i && #[trigger] imports_sdk(lang, ss[j]),
        decreases sources.len() - i,
    {
        let source = sources[i].as_str();
        assert(ss[i as int] == source@);
        let stripped = strip_comments(source);
        let one = vec![stripped];
        assert(strings_view(one@) =~= seq![all[i as int]]);
        let ghost rest = all.skip(i as int);
        assert(rest[0] == all[i as int]);
        assert(seq![all[i as int]].drop_first() =~= Seq::<Seq<char>>::empty());
        match reject_forbidden(label, &one) {
            Ok(()) => {},
            Err(m) => {
                assert(first_forbidden(seq![all[i as int]]) is Some);
                assert(seq![all[i as int]][0] == all[i as int]);
                assert(rest.len() > 0);
                assert(first_forbidden(seq![all[i as int]].drop_first()) is None);
                assert(forbidden_in(all[i as int]) is Some);
                assert(first_forbidden(rest) == first_forbidden(seq![all[i as int]]));
                return Err(m);
            },
        }
        assert(rest.drop_first() =~= all.skip(i + 1));
        let found = source_imports(lang, source);
        imported = imported || found;
        i = i + 1;
        assert(imported == exists|j: int| 0 <= j < i && #[trigger] imports_sdk(lang, ss[j]));
    }
    assert(all.skip(i as int) =~= Seq::<Seq<char>>::empty());
    Ok(imported)
}

} // verus!
