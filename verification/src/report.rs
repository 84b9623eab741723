//! The audit: the four consumer checks run in a fixed order and their
//! answers are collected into an evidence report.
use vstd::prelude::*;
use crate::consumers::{
    outcome, spec_validate_go, spec_validate_gleam, spec_validate_rust, spec_validate_typescript,
    validate_gleam, validate_go, validate_rust, validate_typescript,
};
use crate::forbidden::first_forbidden;
use crate::imports::{some_source_imports, stripped_all, Language};
use crate::manifest::{CargoManifest, GleamManifest, NodeManifest};
use crate::text::strings_view;

verus! {

/// One check of the report.
pub struct Check {
    pub id: String,
    pub state: String,
    pub detail: String,
}

/// The evidence report of an audit.
pub struct Report {
    pub schema: String,
    pub repository: String,
    pub root: String,
    pub status: String,
    pub zero_unexplained_findings: bool,
    pub checks: Vec<Check>,
    pub errors: Vec<String>,
}

/// What the audit reads of the repository: for each consumer, its manifest
/// (or the failure to read or parse it) and its collected sources (or the
/// failure to collect them).
pub struct AuditInputs {
    pub typescript_manifest: Result<NodeManifest, String>,
    pub typescript_sources: Result<Vec<String>, String>,
    pub rust_manifest: Result<CargoManifest, String>,
    pub rust_sources: Result<Vec<String>, String>,
    pub go_manifest: Result<String, String>,
    pub go_sources: Result<Vec<String>, String>,
    pub gleam_manifest: Result<GleamManifest, String>,
    pub gleam_sources: Result<Vec<String>, String>,
}

/// The identifiers of the four checks, in the order in which they run.
pub open spec fn check_ids() -> Seq<Seq<char>> {
    seq![
        "typescript-public-validation-boundary"@,
        "rust-public-validation-boundary"@,
        "go-public-validation-boundary"@,
        "gleam-public-validation-boundary"@,
    ]
}

/// The answers of the four checks, in the same order.
pub open spec fn check_outcomes(inputs: AuditInputs) -> Seq<Result<Seq<char>, Seq<char>>> {
    seq![
        spec_validate_typescript(inputs.typescript_manifest, inputs.typescript_sources),
        spec_validate_rust(inputs.rust_manifest, inputs.rust_sources),
        spec_validate_go(inputs.go_manifest, inputs.go_sources),
        spec_validate_gleam(inputs.gleam_manifest, inputs.gleam_sources),
    ]
}

/// The view of a check: its identifier, state and detail.
pub open spec fn check_view(c: Check) -> (Seq<char>, Seq<char>, Seq<char>) {
    (c.id@, c.state@, c.detail@)
}

/// The check recorded for the answer `o` of the check `id`.
pub open spec fn expected_check(id: Seq<char>, o: Result<Seq<char>, Seq<char>>) -> (Seq<char>, Seq<char>, Seq<char>) {
    match o {
        Ok(d) => (id, "passed"@, d),
        Err(e) => (id, "failed"@, e),
    }
}

/// The error lines of the failed checks, `id: error`, in order.
pub open spec fn failure_lines(ids: Seq<Seq<char>>, os: Seq<Result<Seq<char>, Seq<char>>>) -> Seq<Seq<char>>
    decreases os.len(),
{
    if os.len() == 0 {
        Seq::empty()
    } else {
        let prev = failure_lines(ids.drop_last(), os.drop_last());
        match os.last() {
            Ok(_) => prev,
            Err(e) => prev.push(ids.last() + ": "@ + e),
        }
    }
}

/// No error line is written exactly when every check passed.
pub proof fn lemma_failure_lines_empty(ids: Seq<Seq<char>>, os: Seq<Result<Seq<char>, Seq<char>>>)
    ensures
        failure_lines(ids, os).len() == 0 <==> forall|i: int| 0 <= i < os.len() ==> (#[trigger] os[i]) is Ok,
    decreases os.len(),
{
    if os.len() > 0 {
        lemma_failure_lines_empty(ids.drop_last(), os.drop_last());
        if forall|i: int| 0 <= i < os.len() ==> (#[trigger] os[i]) is Ok {
            assert(os.last() is Ok);
            assert forall|i: int| 0 <= i < os.drop_last().len() implies (#[trigger] os.drop_last()[i]) is Ok by {
                assert(os.drop_last()[i] == os[i]);
            }
        } else {
            let i = choose|i: int| 0 <= i < os.len() && !((#[trigger] os[i]) is Ok);
            if i < os.len() - 1 {
                assert(os.drop_last()[i] == os[i]);
            }
        }
    }
}

/// The sources of a consumer were collected, none names a forbidden
/// package outside comments, and one imports the SDK of `lang`.
pub open spec fn sources_vouch(lang: Language, sources: Result<Vec<String>, String>) -> bool {
    match sources {
        Ok(v) => {
            &&& first_forbidden(stripped_all(strings_view(v@))) is None
            &&& some_source_imports(lang, strings_view(v@))
        },
        Err(_) => false,
    }
}

/// The audit fails closed: it passes only when every manifest was read and
/// parsed, every consumer's sources were collected, none of them mentions a
/// forbidden package outside comments, and each consumer imports its SDK.
pub proof fn lemma_audit_pass_needs_evidence(inputs: AuditInputs)
    requires
        forall|i: int| 0 <= i < 4 ==> (#[trigger] check_outcomes(inputs)[i]) is Ok,
    ensures
        inputs.typescript_manifest is Ok,
        inputs.rust_manifest is Ok,
        inputs.go_manifest is Ok,
        inputs.gleam_manifest is Ok,
        sources_vouch(Language::TypeScript, inputs.typescript_sources),
        sources_vouch(Language::Rust, inputs.rust_sources),
        sources_vouch(Language::Go, inputs.go_sources),
        sources_vouch(Language::Gleam, inputs.gleam_sources),
{
    assert(check_outcomes(inputs)[0] is Ok);
    assert(check_outcomes(inputs)[1] is Ok);
    assert(check_outcomes(inputs)[2] is Ok);
    assert(check_outcomes(inputs)[3] is Ok);
}

/// Records the answer of the check `id`: its check, and, when it failed, its error line.
fn record(id: &str, result: Result<String, String>, checks: &mut Vec<Check>, errors: &mut Vec<String>)
    ensures
        final(checks)@.len() == old(checks)@.len() + 1,
        forall|i: int| 0 <= i < old(checks)@.len() ==> #[trigger] final(checks)@[i] == old(checks)@[i],
        check_view(final(checks)@[old(checks)@.len() as int]) == expected_check(id@, outcome(result)),
        strings_view(final(errors)@) == match outcome(result) {
            Ok(_) => strings_view(old(errors)@),
            Err(e) => strings_view(old(errors)@).push(id@ + ": "@ + e),
        },
{
    match result {
        Ok(detail) => {
            checks.push(Check { id: String::from_str(id), state: String::from_str("passed"), detail });
            assert(strings_view(errors@) =~= strings_view(old(errors)@));
        },
        Err(error) => {
            checks.push(Check {
                id: String::from_str(id),
                state: String::from_str("failed"),
                detail: error.clone(),
            });
            let mut line = String::from_str(id);
            line.append(": ");
            line.append(error.as_str());
            errors.push(line);
            assert(strings_view(errors@) =~= strings_view(old(errors)@).push(id@ + ": "@ + error@));
        },
    }
}

/// Runs the TypeScript, Rust, Go and Gleam checks, in that order, and
/// reports each as passed or failed with its detail; every failure also
/// gives an error line `id: error`. The audit passes, with no unexplained
/// finding, exactly when all four checks pass.
pub fn audit(root: String, inputs: AuditInputs) -> (r: Report)
    ensures
        r.schema@ == "ores.validation-import-check/v1"@,
        r.repository@ == "declarative-migrations/declmig-clients"@,
        r.root@ == root@,
        r.checks@.len() == 4,
        forall|i: int| 0 <= i < 4 ==>
            check_view(#[trigger] r.checks@[i]) == expected_check(check_ids()[i], check_outcomes(inputs)[i]),
        strings_view(r.errors@) == failure_lines(check_ids(), check_outcomes(inputs)),
        r.zero_unexplained_findings <==> forall|i: int| 0 <= i < 4 ==> (#[trigger] check_outcomes(inputs)[i]) is Ok,
        r.zero_unexplained_findings <==> r.errors@.len() == 0,
        r.status@ == if r.zero_unexplained_findings { "passed"@ } else { "failed"@ },
{
    let ghost os = check_outcomes(inputs);
    let ghost ids = check_ids();
    let AuditInputs {
        typescript_manifest,
        typescript_sources,
        rust_manifest,
        rust_sources,
        go_manifest,
        go_sources,
        gleam_manifest,
        gleam_sources,
    } = inputs;
    let typescript = validate_typescript(typescript_manifest, typescript_sources);
    let rust = validate_rust(rust_manifest, rust_sources);
    let go = validate_go(go_manifest, go_sources);
    let gleam = validate_gleam(gleam_manifest, gleam_sources);
    let mut checks: Vec<Check> = Vec::new();
    let mut errors: Vec<String> = Vec::new();
    assert(strings_view(errors@) =~= Seq::<Seq<char>>::empty());
    record("typescript-public-validation-boundary", typescript, &mut checks, &mut errors);
    record("rust-public-validation-boundary", rust, &mut checks, &mut errors);
    record("go-public-validation-boundary", go, &mut checks, &mut errors);
    record("gleam-public-validation-boundary", gleam, &mut checks, &mut errors);
    proof {
        reveal_with_fuel(failure_lines, 5);
        assert(os.drop_last() =~= seq![os[0], os[1], os[2]]);
        assert(os.drop_last().drop_last() =~= seq![os[0], os[1]]);
        assert(os.drop_last().drop_last().drop_last() =~= seq![os[0]]);
        assert(os.drop_last().drop_last().drop_last().drop_last() =~= Seq::<Result<Seq<char>, Seq<char>>>::empty());
        assert(ids.drop_last() =~= seq![ids[0], ids[1], ids[2]]);
        assert(ids.drop_last().drop_last() =~= seq![ids[0], ids[1]]);
        assert(ids.drop_last().drop_last().drop_last() =~= seq![ids[0]]);
        lemma_failure_lines_empty(ids, os);
    }
    let passed = errors.len() == 0;
    Report {
        schema: String::from_str("ores.validation-import-check/v1"),
        repository: String::from_str("declarative-migrations/declmig-clients"),
        root,
        status: if passed { String::from_str("passed") } else { String::from_str("failed") },
        zero_unexplained_findings: passed,
        checks,
        errors,
    }
}

} // verus!
