//! The rules on what the checks may read: where each consumer's files
//! stand, and which files and directories are refused or skipped.
use vstd::prelude::*;
use crate::imports::Language;
use crate::table::{chars_less, chars_lt, lemma_chars_lt_total, lemma_chars_lt_transitive};
use crate::text::{chars_of, str_eq};

verus! {

/// Where a consumer's manifest and sources stand, relative to the
/// repository root, and which source extensions are inspected.
pub struct ConsumerLayout {
    pub manifest: &'static str,
    pub source_dir: &'static str,
    pub extensions: Vec<&'static str>,
}

/// The fixed layout of `lang`'s consumer: manifest path, source
/// directory and source extensions.
pub open spec fn spec_layout(lang: Language) -> (Seq<char>, Seq<char>, Seq<Seq<char>>) {
    match lang {
        Language::TypeScript => (
            "validation-consumer/typescript/package.json"@,
            "validation-consumer/typescript/src"@,
            seq!["ts"@, "tsx"@],
        ),
        Language::Rust => (
            "validation-consumer/rust/Cargo.toml"@,
            "validation-consumer/rust/src"@,
            seq!["rs"@],
        ),
        Language::Go => (
            "validation-consumer/golang/go.mod"@,
            "validation-consumer/golang"@,
            seq!["go"@],
        ),
        Language::Gleam => (
            "validation-consumer/gleam/gleam.toml"@,
            "validation-consumer/gleam/src"@,
            seq!["gleam"@],
        ),
    }
}

/// The views of a sequence of string slices.
pub open spec fn strs_view(v: Seq<&str>) -> Seq<Seq<char>> {
    v.map_values(|s: &str| s@)
}

/// The layout of `lang`'s consumer.
pub fn consumer_layout(lang: Language) -> (l: ConsumerLayout)
    ensures
        (l.manifest@, l.source_dir@, strs_view(l.extensions@)) == spec_layout(lang),
{
    match lang {
        Language::TypeScript => {
            let l = ConsumerLayout {
                manifest: "validation-consumer/typescript/package.json",
                source_dir: "validation-consumer/typescript/src",
                extensions: vec!["ts", "tsx"],
            };
            assert(strs_view(l.extensions@) =~= seq!["ts"@, "tsx"@]);
            l
        },
        Language::Rust => {
            let l = ConsumerLayout {
                manifest: "validation-consumer/rust/Cargo.toml",
                source_dir: "validation-consumer/rust/src",
                extensions: vec!["rs"],
            };
            assert(strs_view(l.extensions@) =~= seq!["rs"@]);
            l
        },
        Language::Go => {
            let l = ConsumerLayout {
                manifest: "validation-consumer/golang/go.mod",
                source_dir: "validation-consumer/golang",
                extensions: vec!["go"],
            };
            assert(strs_view(l.extensions@) =~= seq!["go"@]);
            l
        },
        Language::Gleam => {
            let l = ConsumerLayout {
                manifest: "validation-consumer/gleam/gleam.toml",
                source_dir: "validation-consumer/gleam/src",
                extensions: vec!["gleam"],
            };
            assert(strs_view(l.extensions@) =~= seq!["gleam"@]);
            l
        },
    }
}

/// `prefix` followed by `s` and `suffix`, as a string.
fn framed(prefix: &str, s: &str, suffix: &str) -> (r: String)
    ensures
        r@ == prefix@ + s@ + suffix@,
{
    let mut r = String::from_str(prefix);
    r.append(s);
    r.append(suffix);
    r
}

/// The view of a decision that may refuse.
pub open spec fn refusal<T>(r: Result<T, String>) -> Option<Seq<char>> {
    match r {
        Ok(_) => None,
        Err(e) => Some(e@),
    }
}

/// `s` followed by `suffix`, as a string.
fn suffixed(s: &str, suffix: &str) -> (r: String)
    ensures
        r@ == s@ + suffix@,
{
    let mut r = String::from_str(s);
    r.append(suffix);
    r
}

/// A manifest may be read only when it is a regular file reached without a
/// symbolic link.
pub fn check_read_target(relative: &str, is_symlink: bool, is_file: bool) -> (r: Result<(), String>)
    ensures
        refusal(r) == if is_symlink {
            Some(relative@ + " must not be a symlink"@)
        } else if !is_file {
            Some(relative@ + " must be a regular file"@)
        } else {
            None::<Seq<char>>
        },
{
    if is_symlink {
        return Err(suffixed(relative, " must not be a symlink"));
    }
    if !is_file {
        return Err(suffixed(relative, " must be a regular file"));
    }
    Ok(())
}

/// A file may be read only when its resolved path stays inside the
/// repository root.
pub fn check_inside_root(relative: &str, inside: bool) -> (r: Result<(), String>)
    ensures
        refusal(r) == if inside {
            None::<Seq<char>>
        } else {
            Some(relative@ + " resolves outside the repository root"@)
        },
{
    if !inside {
        return Err(suffixed(relative, " resolves outside the repository root"));
    }
    Ok(())
}

/// Sources are collected only from a real directory, not from a symbolic link.
pub fn check_source_root(relative: &str, is_symlink: bool, is_dir: bool) -> (r: Result<(), String>)
    ensures
        refusal(r) == if is_symlink || !is_dir {
            Some(relative@ + " must be a real directory"@)
        } else {
            None::<Seq<char>>
        },
{
    if is_symlink || !is_dir {
        return Err(suffixed(relative, " must be a real directory"));
    }
    Ok(())
}

/// What to do with an entry met while collecting sources.
#[derive(Clone, Copy, Debug, PartialEq, Eq)]
pub enum EntryAction {
    /// Collect the sources below this directory.
    Descend,
    /// Leave this entry out.
    Skip,
    /// Read this file as a source.
    Read,
}

/// `ext` is one of the inspected extensions.
pub open spec fn reviewed_extension(ext: Seq<char>, extensions: Seq<Seq<char>>) -> bool {
    exists|i: int| 0 <= i < extensions.len() && #[trigger] extensions[i] == ext
}

/// What to do with the entry `path`: a symbolic link is refused, a
/// directory is descended into, anything but a regular file is skipped, and
/// a regular file is read when its extension is inspected, else skipped.
pub open spec fn spec_classify_entry(
    path: Seq<char>,
    is_symlink: bool,
    is_dir: bool,
    is_file: bool,
    extension: Seq<char>,
    extensions: Seq<Seq<char>>,
) -> Result<EntryAction, Seq<char>> {
    if is_symlink {
        Err("source path "@ + path + " must not be a symlink"@)
    } else if is_dir {
        Ok(EntryAction::Descend)
    } else if !is_file {
        Ok(EntryAction::Skip)
    } else if !reviewed_extension(extension, extensions) {
        Ok(EntryAction::Skip)
    } else {
        Ok(EntryAction::Read)
    }
}

/// Whether `ext` is one of `extensions`.
fn has_extension(ext: &str, extensions: &Vec<&str>) -> (b: bool)
    ensures
        b == reviewed_extension(ext@, strs_view(extensions@)),
{
    let mut i: usize = 0;
    while i < extensions.len()
        invariant
            i <= extensions.len(),
            forall|j: int| 0 <= j < i ==> extensions@[j]@ != ext@,
        decreases extensions.len() - i,
    {
        if str_eq(extensions[i], ext) {
            assert(strs_view(extensions@)[i as int] == ext@);
            return true;
        }
        i = i + 1;
    }
    assert forall|j: int| 0 <= j < strs_view(extensions@).len() implies #[trigger] strs_view(extensions@)[j] != ext@ by {
        assert(strs_view(extensions@)[j] == extensions@[j]@);
    }
    false
}

/// Decides what to do with the entry `path` met while collecting sources;
/// `extension` is its extension, empty when it has none.
pub fn classify_source_entry(
    path: &str,
    is_symlink: bool,
    is_dir: bool,
    is_file: bool,
    extension: &str,
    extensions: &Vec<&str>,
) -> (r: Result<EntryAction, String>)
    ensures
        match r {
            Ok(a) => spec_classify_entry(path@, is_symlink, is_dir, is_file, extension@, strs_view(extensions@)) == Ok::<EntryAction, Seq<char>>(a),
            Err(e) => spec_classify_entry(path@, is_symlink, is_dir, is_file, extension@, strs_view(extensions@)) == Err::<EntryAction, Seq<char>>(e@),
        },
{
    if is_symlink {
        return Err(framed("source path ", path, " must not be a symlink"));
    }
    if is_dir {
        return Ok(EntryAction::Descend);
    }
    if !is_file {
        return Ok(EntryAction::Skip);
    }
    if !has_extension(extension, extensions) {
        return Ok(EntryAction::Skip);
    }
    Ok(EntryAction::Read)
}

/// `order` puts every position of `names` once, and in an order where no
/// name comes after a later one.
pub open spec fn orders_by_name(names: Seq<Seq<char>>, order: Seq<usize>) -> bool {
    &&& order.len() == names.len()
    &&& forall|i: int| 0 <= i < order.len() ==> (#[trigger] order[i]) < names.len()
    &&& forall|i: int, j: int| 0 <= i < j < order.len() ==> #[trigger] order[i] != #[trigger] order[j]
    &&& forall|i: int, j: int| 0 <= i < j < order.len() ==>
        !chars_lt(names[#[trigger] order[j] as int], names[#[trigger] order[i] as int])
}

/// The order in which the entries of a directory are visited: by name, in
/// increasing character order (the byte order of their UTF-8 encoding).
/// Answers the positions of `names` in that order.
pub fn order_by_name(names: &Vec<String>) -> (r: Vec<usize>)
    ensures
        orders_by_name(crate::text::strings_view(names@), r@),
{
    let ghost nv = crate::text::strings_view(names@);
    let mut keys: Vec<Vec<char>> = Vec::new();
    let mut k: usize = 0;
    while k < names.len()
        invariant
            k <= names.len(),
            nv == crate::text::strings_view(names@),
            keys@.len() == k,
            forall|i: int| 0 <= i < k ==> #[trigger] keys@[i]@ == nv[i],
        decreases names.len() - k,
    {
        keys.push(chars_of(names[k].as_str()));
        k = k + 1;
    }
    let mut r: Vec<usize> = Vec::new();
    let mut k: usize = 0;
    while k < keys.len()
        invariant
            k <= keys.len(),
            keys@.len() == nv.len(),
            forall|i: int| 0 <= i < keys@.len() ==> #[trigger] keys@[i]@ == nv[i],
            r@.len() == k,
            forall|i: int| 0 <= i < r@.len() ==> (#[trigger] r@[i]) < k,
            forall|i: int, j: int| 0 <= i < j < r@.len() ==> #[trigger] r@[i] != #[trigger] r@[j],
            forall|i: int, j: int| 0 <= i < j < r@.len() ==>
                !chars_lt(nv[#[trigger] r@[j] as int], nv[#[trigger] r@[i] as int]),
        decreases keys.len() - k,
    {
        let mut p: usize = 0;
        let mut go = true;
        while go
            invariant
                p <= r.len(),
                k < keys@.len(),
                keys@.len() == nv.len(),
                forall|i: int| 0 <= i < keys@.len() ==> #[trigger] keys@[i]@ == nv[i],
                forall|i: int| 0 <= i < r@.len() ==> (#[trigger] r@[i]) < k,
                forall|q: int| 0 <= q < p ==> !chars_lt(nv[k as int], nv[#[trigger] r@[q] as int]),
                !go ==> p == r.len() || chars_lt(nv[k as int], nv[r@[p as int] as int]),
            decreases 2 * (r.len() - p) + if go { 1int } else { 0int },
        {
            if p == r.len() {
                go = false;
            } else if chars_less(keys[k].as_slice(), keys[r[p]].as_slice()) {
                go = false;
            } else {
                p = p + 1;
            }
        }
        let ghost old_r = r@;
        r.insert(p, k);
        proof {
            assert(r@ =~= old_r.insert(p as int, k));
            assert forall|i: int| 0 <= i < r@.len() implies (#[trigger] r@[i]) < k + 1 by {
                if i < p {
                    assert(r@[i] == old_r[i]);
                } else if i > p {
                    assert(r@[i] == old_r[i - 1]);
                }
            }
            assert forall|i: int, j: int| 0 <= i < j < r@.len() implies #[trigger] r@[i] != #[trigger] r@[j] by {
                if i < p && j < p {
                    assert(r@[i] == old_r[i] && r@[j] == old_r[j]);
                } else if i < p && j == p {
                    assert(r@[i] == old_r[i]);
                } else if i < p {
                    assert(r@[i] == old_r[i] && r@[j] == old_r[j - 1]);
                } else if i == p {
                    assert(r@[j] == old_r[j - 1]);
                } else {
                    assert(r@[i] == old_r[i - 1] && r@[j] == old_r[j - 1]);
                }
            }
            assert forall|i: int, j: int| 0 <= i < j < r@.len() implies
                !chars_lt(nv[#[trigger] r@[j] as int], nv[#[trigger] r@[i] as int]) by {
                let a = nv[r@[i] as int];
                let b = nv[r@[j] as int];
                lemma_chars_lt_total(a, b);
                if i < p && j < p {
                    assert(r@[i] == old_r[i] && r@[j] == old_r[j]);
                } else if i < p && j == p {
                    assert(r@[i] == old_r[i]);
                } else if i < p {
                    assert(r@[i] == old_r[i] && r@[j] == old_r[j - 1]);
                } else if i == p {
                    assert(r@[j] == old_r[j - 1]);
                    let first = nv[old_r[p as int] as int];
                    if j - 1 > p {
                        lemma_chars_lt_total(first, b);
                        if chars_lt(first, b) {
                            lemma_chars_lt_transitive(a, first, b);
                        }
                    }
                } else {
                    assert(r@[i] == old_r[i - 1] && r@[j] == old_r[j - 1]);
                }
            }
        }
        k = k + 1;
    }
    r
}

/// A source may be read only when its resolved path stays inside the repository.
pub fn check_source_inside(path: &str, inside: bool) -> (r: Result<(), String>)
    ensures
        refusal(r) == if inside {
            None::<Seq<char>>
        } else {
            Some("source path "@ + path@ + " escaped the repository"@)
        },
{
    if !inside {
        return Err(framed("source path ", path, " escaped the repository"));
    }
    Ok(())
}

/// A consumer must have at least one inspected source.
pub fn finish_sources(relative: &str, output: Vec<String>) -> (r: Result<Vec<String>, String>)
    ensures
        match r {
            Ok(v) => output@.len() > 0 && v@ == output@,
            Err(e) => output@.len() == 0 && e@ == relative@ + " contains no reviewed source files"@,
        },
{
    if output.len() == 0 {
        return Err(suffixed(relative, " contains no reviewed source files"));
    }
    Ok(output)
}

} // verus!
