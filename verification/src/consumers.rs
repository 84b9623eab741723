//! The four consumer checks: each validates its manifest, then its
//! executable sources, and answers with a detail or with the first failure.
use vstd::prelude::*;
use crate::forbidden::{reject_forbidden, spec_reject_forbidden, unit_outcome};
use crate::imports::{
    concat3, scan_sources, spec_scan_sources, Language, GLEAM_PACKAGE, GO_PACKAGE, RUST_PACKAGE,
    TS_PACKAGE,
};
use crate::manifest::{spec_dependency_path, CargoManifest, DependencySpec, GleamManifest, NodeManifest};
use crate::table::{find_value, keys_of};
use crate::text::{
    chars_of, lines_of, lines_view, slice_chars, spec_lines, spec_trim, str_eq,
    string_from_chars, strings_view, trim_chars,
};

verus! {

/// The view of a check's answer.
pub open spec fn outcome(r: Result<String, String>) -> Result<Seq<char>, Seq<char>> {
    match r {
        Ok(s) => Ok(s@),
        Err(e) => Err(e@),
    }
}

/// The view of a collection of sources, or of the failure to collect them.
pub open spec fn sources_view(s: Result<Vec<String>, String>) -> Result<Seq<Seq<char>>, Seq<char>> {
    match s {
        Ok(v) => Ok(strings_view(v@)),
        Err(e) => Err(e@),
    }
}

/// The answer of the source stage of a check.
pub open spec fn spec_source_stage(
    lang: Language,
    label: Seq<char>,
    sources: Result<Seq<Seq<char>>, Seq<char>>,
    missing: Seq<char>,
    success: Seq<char>,
) -> Result<Seq<char>, Seq<char>> {
    match sources {
        Err(e) => Err(e),
        Ok(ss) => match spec_scan_sources(lang, label, ss) {
            Err(m) => Err(m),
            Ok(true) => Ok(success),
            Ok(false) => Err(missing),
        },
    }
}

/// The source stage: the collected sources must name no forbidden package,
/// and one of them must import the SDK.
fn source_stage(
    lang: Language,
    label: &str,
    sources: Result<Vec<String>, String>,
    missing: &str,
    success: &str,
) -> (r: Result<String, String>)
    ensures
        outcome(r) == spec_source_stage(lang, label@, sources_view(sources), missing@, success@),
{
    let sources = match sources {
        Ok(s) => s,
        Err(e) => {
            return Err(e);
        },
    };
    match scan_sources(lang, label, &sources) {
        Ok(true) => Ok(String::from_str(success)),
        Ok(false) => Err(String::from_str(missing)),
        Err(m) => Err(m),
    }
}

/// The path that the TypeScript manifest gives the SDK: under
/// `dependencies`, else under `devDependencies`.
pub open spec fn typescript_dependency(m: NodeManifest) -> Option<Seq<char>> {
    match find_value(m.dependencies@, TS_PACKAGE@) {
        Some(v) => Some(v@),
        None => match find_value(m.dev_dependencies@, TS_PACKAGE@) {
            Some(v) => Some(v@),
            None => None,
        },
    }
}

/// What the TypeScript check answers.
pub open spec fn spec_validate_typescript(
    manifest: Result<NodeManifest, String>,
    sources: Result<Vec<String>, String>,
) -> Result<Seq<char>, Seq<char>> {
    match manifest {
        Err(e) => Err(e@),
        Ok(m) => if m.name@ != "@declarative-migrations/declmig-validation-consumer"@ {
            Err("unexpected TypeScript package name "@ + m.name@)
        } else if typescript_dependency(m) != Some("file:../../.deps/lib-core/validation/typescript"@) {
            Err("TypeScript validation dependency must use the reviewed local SDK path"@)
        } else {
            match spec_reject_forbidden(
                "TypeScript manifest"@,
                keys_of(m.dependencies@) + keys_of(m.dev_dependencies@),
            ) {
                Err(msg) => Err(msg),
                Ok(()) => spec_source_stage(
                    Language::TypeScript,
                    "TypeScript source"@,
                    sources_view(sources),
                    "TypeScript executable source does not import the public validation SDK"@,
                    "manifest path and executable import are exact"@,
                ),
            }
        },
    }
}

/// Checks the TypeScript consumer: `manifest` is its parsed `package.json`
/// (or the failure to read or parse it), `sources` its collected `.ts` and
/// `.tsx` sources (or the failure to collect them). The package must be the
/// consumer, the SDK dependency must be the approved local path, no
/// dependency may name a forbidden package, no source may mention one
/// outside comments, and some source must import the SDK.
pub fn validate_typescript(
    manifest: Result<NodeManifest, String>,
    sources: Result<Vec<String>, String>,
) -> (r: Result<String, String>)
    ensures
        outcome(r) == spec_validate_typescript(manifest, sources),
{
    let manifest = match manifest {
        Ok(m) => m,
        Err(e) => {
            return Err(e);
        },
    };
    if !str_eq(manifest.name.as_str(), "@declarative-migrations/declmig-validation-consumer") {
        let mut m = String::from_str("unexpected TypeScript package name ");
        m.append(manifest.name.as_str());
        return Err(m);
    }
    let dependency = match manifest.dependencies.get(TS_PACKAGE) {
        Some(v) => Some(v),
        None => manifest.dev_dependencies.get(TS_PACKAGE),
    };
    let reviewed = match dependency {
        Some(v) => str_eq(v.as_str(), "file:../../.deps/lib-core/validation/typescript"),
        None => false,
    };
    if !reviewed {
        return Err(String::from_str("TypeScript validation dependency must use the reviewed local SDK path"));
    }
    let mut names = manifest.dependencies.keys();
    let mut dev_names = manifest.dev_dependencies.keys();
    let ghost first = names@;
    let ghost second = dev_names@;
    names.append(&mut dev_names);
    assert(strings_view(names@) =~= strings_view(first) + strings_view(second));
    match reject_forbidden("TypeScript manifest", &names) {
        Ok(()) => {},
        Err(m) => {
            return Err(m);
        },
    }
    source_stage(
        Language::TypeScript,
        "TypeScript source",
        sources,
        "TypeScript executable source does not import the public validation SDK",
        "manifest path and executable import are exact",
    )
}

/// What a TOML consumer's manifest answers about its SDK dependency.
pub open spec fn spec_toml_dependency(
    dep: Option<DependencySpec>,
    missing: Seq<char>,
    path: Seq<char>,
    wrong: Seq<char>,
) -> Result<(), Seq<char>> {
    match dep {
        None => Err(missing),
        Some(d) => if spec_dependency_path(d) != Some(path) {
            Err(wrong)
        } else {
            Ok(())
        },
    }
}

/// The SDK dependency of a TOML manifest must be present and a table whose
/// `path` is the approved one.
fn check_toml_dependency(dep: Option<&DependencySpec>, missing: &str, path: &str, wrong: &str) -> (r: Result<(), String>)
    ensures
        unit_outcome(r) == spec_toml_dependency(
            match dep {
                Some(d) => Some(*d),
                None => None,
            },
            missing@,
            path@,
            wrong@,
        ),
{
    match dep {
        None => Err(String::from_str(missing)),
        Some(d) => {
            let reviewed = match &d.path {
                Some(p) => str_eq(p.as_str(), path),
                None => false,
            };
            if reviewed {
                Ok(())
            } else {
                Err(String::from_str(wrong))
            }
        },
    }
}

/// What the Rust check answers.
pub open spec fn spec_validate_rust(
    manifest: Result<CargoManifest, String>,
    sources: Result<Vec<String>, String>,
) -> Result<Seq<char>, Seq<char>> {
    match manifest {
        Err(e) => Err(e@),
        Ok(m) => if m.package.name@ != "declmig-validation-consumer"@ {
            Err("unexpected Rust package name "@ + m.package.name@)
        } else {
            match spec_toml_dependency(
                find_value(m.dependencies@, RUST_PACKAGE@),
                "Rust validation dependency is missing"@,
                "../../.deps/lib-core/validation/rust"@,
                "Rust validation dependency must use the reviewed local SDK path"@,
            ) {
                Err(msg) => Err(msg),
                Ok(()) => match spec_reject_forbidden("Rust manifest"@, keys_of(m.dependencies@)) {
                    Err(msg) => Err(msg),
                    Ok(()) => spec_source_stage(
                        Language::Rust,
                        "Rust source"@,
                        sources_view(sources),
                        "Rust executable source does not import the public validation crate"@,
                        "manifest path and executable import are exact"@,
                    ),
                },
            }
        },
    }
}

/// Checks the Rust consumer: `manifest` is its parsed `Cargo.toml`,
/// `sources` its collected `.rs` sources. The package must be the consumer,
/// the SDK dependency must name the approved local path, no dependency may
/// name a forbidden package, no source may mention one outside comments, and
/// some source must `use` the SDK crate or declare it `extern crate`.
pub fn validate_rust(
    manifest: Result<CargoManifest, String>,
    sources: Result<Vec<String>, String>,
) -> (r: Result<String, String>)
    ensures
        outcome(r) == spec_validate_rust(manifest, sources),
{
    let manifest = match manifest {
        Ok(m) => m,
        Err(e) => {
            return Err(e);
        },
    };
    if !str_eq(manifest.package.name.as_str(), "declmig-validation-consumer") {
        let mut m = String::from_str("unexpected Rust package name ");
        m.append(manifest.package.name.as_str());
        return Err(m);
    }
    match check_toml_dependency(
        manifest.dependencies.get(RUST_PACKAGE),
        "Rust validation dependency is missing",
        "../../.deps/lib-core/validation/rust",
        "Rust validation dependency must use the reviewed local SDK path",
    ) {
        Ok(()) => {},
        Err(m) => {
            return Err(m);
        },
    }
    let names = manifest.dependencies.keys();
    match reject_forbidden("Rust manifest", &names) {
        Ok(()) => {},
        Err(m) => {
            return Err(m);
        },
    }
    source_stage(
        Language::Rust,
        "Rust source",
        sources,
        "Rust executable source does not import the public validation crate",
        "manifest path and executable import are exact",
    )
}

/// What the Gleam check answers.
pub open spec fn spec_validate_gleam(
    manifest: Result<GleamManifest, String>,
    sources: Result<Vec<String>, String>,
) -> Result<Seq<char>, Seq<char>> {
    match manifest {
        Err(e) => Err(e@),
        Ok(m) => if m.name@ != "declmig_validation_consumer"@ {
            Err("unexpected Gleam package name "@ + m.name@)
        } else {
            match spec_toml_dependency(
                find_value(m.dependencies@, GLEAM_PACKAGE@),
                "Gleam validation dependency is missing"@,
                "../../.deps/lib-core/validation/gleam"@,
                "Gleam validation dependency must use the reviewed local SDK path"@,
            ) {
                Err(msg) => Err(msg),
                Ok(()) => match spec_reject_forbidden("Gleam manifest"@, keys_of(m.dependencies@)) {
                    Err(msg) => Err(msg),
                    Ok(()) => spec_source_stage(
                        Language::Gleam,
                        "Gleam source"@,
                        sources_view(sources),
                        "Gleam executable source does not import the public validation package"@,
                        "manifest path and executable import are exact"@,
                    ),
                },
            }
        },
    }
}

/// Checks the Gleam consumer: `manifest` is its parsed `gleam.toml`,
/// `sources` its collected `.gleam` sources. The package must be the
/// consumer, the SDK dependency must name the approved local path, no
/// dependency may name a forbidden package, no source may mention one
/// outside comments, and some source line must import the SDK module.
pub fn validate_gleam(
    manifest: Result<GleamManifest, String>,
    sources: Result<Vec<String>, String>,
) -> (r: Result<String, String>)
    ensures
        outcome(r) == spec_validate_gleam(manifest, sources),
{
    let manifest = match manifest {
        Ok(m) => m,
        Err(e) => {
            return Err(e);
        },
    };
    if !str_eq(manifest.name.as_str(), "declmig_validation_consumer") {
        let mut m = String::from_str("unexpected Gleam package name ");
        m.append(manifest.name.as_str());
        return Err(m);
    }
    match check_toml_dependency(
        manifest.dependencies.get(GLEAM_PACKAGE),
        "Gleam validation dependency is missing",
        "../../.deps/lib-core/validation/gleam",
        "Gleam validation dependency must use the reviewed local SDK path",
    ) {
        Ok(()) => {},
        Err(m) => {
            return Err(m);
        },
    }
    let names = manifest.dependencies.keys();
    match reject_forbidden("Gleam manifest", &names) {
        Ok(()) => {},
        Err(m) => {
            return Err(m);
        },
    }
    source_stage(
        Language::Gleam,
        "Gleam source",
        sources,
        "Gleam executable source does not import the public validation package",
        "manifest path and executable import are exact",
    )
}

/// `l` up to, not including, its first `//` (all of `l` when it has none).
pub open spec fn cut_comment(l: Seq<char>) -> Seq<char>
    decreases l.len(),
{
    if l.len() == 0 {
        l
    } else if l.len() >= 2 && l[0] == '/' && l[1] == '/' {
        Seq::empty()
    } else {
        seq![l[0]] + cut_comment(l.drop_first())
    }
}

/// The statement a `go.mod` line holds: the line without its `//` comment,
/// trimmed.
pub open spec fn go_statement(l: Seq<char>) -> Seq<char> {
    spec_trim(cut_comment(l))
}

/// The statements of the lines of `go.mod`, blank ones dropped, in order.
pub open spec fn go_mod_kept(lines: Seq<Seq<char>>) -> Seq<Seq<char>> {
    lines.map_values(|l: Seq<char>| go_statement(l)).filter(|l: Seq<char>| l.len() > 0)
}

/// The statements of `go.mod`, in order.
pub open spec fn spec_go_mod_statements(source: Seq<char>) -> Seq<Seq<char>> {
    go_mod_kept(spec_lines(source))
}

/// `l` without its `//` comment.
fn cut_comment_chars(l: &[char]) -> (r: Vec<char>)
    ensures
        r@ == cut_comment(l@),
{
    let n = l.len();
    let mut j: usize = 0;
    assert(l@.take(0) + cut_comment(l@.skip(0)) =~= cut_comment(l@)) by {
        assert(l@.skip(0) =~= l@);
    }
    while j < n && !(l[j] == '/' && j + 1 < n && l[j + 1] == '/')
        invariant
            j <= n,
            n == l.len(),
            l@.take(j as int) + cut_comment(l@.skip(j as int)) == cut_comment(l@),
        decreases n - j,
    {
        let ghost rest = l@.skip(j as int);
        assert(rest[0] == l@[j as int]);
        assert(rest.len() >= 2 ==> rest[1] == l@[j + 1]);
        assert(rest.drop_first() =~= l@.skip(j + 1));
        assert(l@.take(j + 1) =~= l@.take(j as int) + seq![rest[0]]);
        assert(l@.take(j as int) + (seq![rest[0]] + cut_comment(l@.skip(j + 1)))
            =~= l@.take(j + 1) + cut_comment(l@.skip(j + 1)));
        j = j + 1;
    }
    let r = slice_chars(l, 0, j);
    proof {
        let rest = l@.skip(j as int);
        if j < n {
            assert(rest[0] == l@[j as int]);
            assert(rest[1] == l@[j + 1]);
        }
        assert(cut_comment(rest) =~= Seq::<char>::empty());
        assert(r@ =~= l@.take(j as int));
        assert(l@.take(j as int) + Seq::<char>::empty() =~= l@.take(j as int));
    }
    r
}

/// The statements of `go.mod`: each line without its `//` comment, trimmed,
/// blank ones dropped.
pub fn go_mod_statements(source: &str) -> (r: Vec<String>)
    ensures
        strings_view(r@) == spec_go_mod_statements(source@),
{
    let chars = chars_of(source);
    let lines = lines_of(chars.as_slice());
    let ghost lv = lines_view(lines@);
    let mut kept: Vec<String> = Vec::new();
    let mut k: usize = 0;
    assert(strings_view(kept@) =~= go_mod_kept(lv.take(0))) by {
        reveal_with_fuel(Seq::<_>::filter, 1);
        assert(lv.take(0).map_values(|l: Seq<char>| go_statement(l)) =~= Seq::<Seq<char>>::empty());
    }
    while k < lines.len()
        invariant
            k <= lines.len(),
            lv == lines_view(lines@),
            strings_view(kept@) == go_mod_kept(lv.take(k as int)),
        decreases lines.len() - k,
    {
        assert(lv[k as int] == lines@[k as int]@);
        let cut = cut_comment_chars(lines[k].as_slice());
        let line = trim_chars(cut.as_slice());
        let ghost before = strings_view(kept@);
        if line.len() > 0 {
            let ghost l = line@;
            kept.push(string_from_chars(line.as_slice()));
            assert(strings_view(kept@) =~= before.push(l));
        }
        proof {
            reveal_with_fuel(Seq::<_>::filter, 1);
            let f = |l: Seq<char>| go_statement(l);
            let m1 = lv.take(k + 1).map_values(f);
            assert(m1.drop_last() =~= lv.take(k as int).map_values(f));
            assert(m1.last() == go_statement(lv[k as int]));
        }
        k = k + 1;
    }
    assert(lv.take(lines.len() as int) =~= lv);
    kept
}

/// Whether one of `statements` is exactly `wanted`.
pub fn has_statement(statements: &Vec<String>, wanted: &str) -> (b: bool)
    ensures
        b == strings_view(statements@).contains(wanted@),
{
    let ghost sv = strings_view(statements@);
    let mut i: usize = 0;
    while i < statements.len()
        invariant
            i <= statements.len(),
            sv == strings_view(statements@),
            forall|j: int| 0 <= j < i ==> sv[j] != wanted@,
        decreases statements.len() - i,
    {
        assert(sv[i as int] == statements@[i as int]@);
        if str_eq(statements[i].as_str(), wanted) {
            return true;
        }
        i = i + 1;
    }
    false
}

/// The `module` statement that the Go consumer must declare.
pub open spec fn go_module_statement() -> Seq<char> {
    "module github.com/declarative-migrations/declmig-clients/validation-consumer/golang"@
}

/// The `require` statement that pins the SDK at the placeholder version.
pub open spec fn go_require_statement() -> Seq<char> {
    "require "@ + GO_PACKAGE@ + " v0.0.0"@
}

/// The `replace` statement that resolves the SDK to the approved local path.
pub open spec fn go_replace_statement() -> Seq<char> {
    "replace "@ + GO_PACKAGE@ + " => ../../.deps/lib-core/validation/golang"@
}

/// What the Go check answers.
pub open spec fn spec_validate_go(
    manifest: Result<String, String>,
    sources: Result<Vec<String>, String>,
) -> Result<Seq<char>, Seq<char>> {
    match manifest {
        Err(e) => Err(e@),
        Ok(text) => match spec_reject_forbidden("Go manifest"@, seq![text@]) {
            Err(msg) => Err(msg),
            Ok(()) => {
                let st = spec_go_mod_statements(text@);
                if !st.contains(go_module_statement()) {
                    Err("unexpected Go consumer module identity"@)
                } else if !st.contains(go_require_statement()) {
                    Err("Go validation module must be required at the reviewed local placeholder version"@)
                } else if !st.contains(go_replace_statement()) {
                    Err("Go validation module must resolve to the reviewed local SDK path"@)
                } else {
                    spec_source_stage(
                        Language::Go,
                        "Go source"@,
                        sources_view(sources),
                        "Go executable source does not import the public validation module"@,
                        "module replacement and executable import are exact"@,
                    )
                }
            },
        },
    }
}

/// The Go check passes only when `go.mod` holds, each as a whole statement
/// of a line (its `//` comment aside), the consumer's exact `module`
/// statement and the exact `require` and `replace` statements of the SDK:
/// no drifted identity, version or path passes.
pub proof fn lemma_go_pass_needs_exact_statements(manifest: Result<String, String>, sources: Result<Vec<String>, String>)
    requires
        spec_validate_go(manifest, sources) is Ok,
    ensures
        manifest is Ok,
        spec_go_mod_statements(manifest->Ok_0@).contains(go_module_statement()),
        spec_go_mod_statements(manifest->Ok_0@).contains(go_require_statement()),
        spec_go_mod_statements(manifest->Ok_0@).contains(go_replace_statement()),
{
}

/// Checks the Go consumer: `manifest` is the text of its `go.mod`, `sources`
/// its collected `.go` sources. `go.mod` may name no forbidden package, even
/// in comments; among its statements (each line without its `//` comment,
/// trimmed) it must hold, each as a whole statement, the consumer's `module`
/// statement, the `require` of the SDK at the placeholder version and the
/// `replace` of the SDK by the approved local path, so that any drift of
/// identity, version or path is refused;
/// no source may mention a forbidden package outside comments, and some
/// source must import the SDK.
pub fn validate_go(
    manifest: Result<String, String>,
    sources: Result<Vec<String>, String>,
) -> (r: Result<String, String>)
    ensures
        outcome(r) == spec_validate_go(manifest, sources),
{
    let text = match manifest {
        Ok(t) => t,
        Err(e) => {
            return Err(e);
        },
    };
    let ghost tv = text@;
    let whole = vec![text];
    assert(strings_view(whole@) =~= seq![tv]);
    match reject_forbidden("Go manifest", &whole) {
        Ok(()) => {},
        Err(m) => {
            return Err(m);
        },
    }
    let statements = go_mod_statements(whole[0].as_str());
    if !has_statement(&statements, "module github.com/declarative-migrations/declmig-clients/validation-consumer/golang") {
        return Err(String::from_str("unexpected Go consumer module identity"));
    }
    let require = concat3("require ", GO_PACKAGE, " v0.0.0");
    if !has_statement(&statements, require.as_str()) {
        return Err(String::from_str("Go validation module must be required at the reviewed local placeholder version"));
    }
    let replace = concat3("replace ", GO_PACKAGE, " => ../../.deps/lib-core/validation/golang");
    if !has_statement(&statements, replace.as_str()) {
        return Err(String::from_str("Go validation module must resolve to the reviewed local SDK path"));
    }
    source_stage(
        Language::Go,
        "Go source",
        sources,
        "Go executable source does not import the public validation module",
        "module replacement and executable import are exact",
    )
}

} // verus!
