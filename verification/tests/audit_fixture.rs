use validation_import_check::files::{classify_source_entry, consumer_layout, EntryAction};
use validation_import_check::imports::{Language, TS_PACKAGE};
use validation_import_check::manifest::{
    CargoManifest, DependencySpec, GleamManifest, NodeManifest, PackageSection,
};
use validation_import_check::report::{audit, AuditInputs, Report};
use validation_import_check::table::StringMap;

const TS_SOURCE: &str = r#"import { RequestMetaSchema } from "@declarative-migrations/declmig-validation"; export { RequestMetaSchema };"#;
const RUST_SOURCE: &str = "use declmig_validation::RequestMeta; pub fn accept(_: RequestMeta) {}\n";
const GO_MOD: &str = "module github.com/declarative-migrations/declmig-clients/validation-consumer/golang\n\ngo 1.25.0\nrequire github.com/declarative-migrations/declmig-lib-core/validation/golang v0.0.0\nreplace github.com/declarative-migrations/declmig-lib-core/validation/golang => ../../.deps/lib-core/validation/golang\n";
const GO_SOURCE: &str = "package validationconsumer\nimport public \"github.com/declarative-migrations/declmig-lib-core/validation/golang\"\nvar _ public.RequestMeta\n";
const GLEAM_SOURCE: &str = "import declmig_validation\npub fn validate(value) { declmig_validation.decode_request_meta(value) }\n";

fn typescript_manifest() -> NodeManifest {
    let mut dependencies = StringMap::new();
    dependencies.insert(
        "@declarative-migrations/declmig-validation".to_string(),
        "file:../../.deps/lib-core/validation/typescript".to_string(),
    );
    NodeManifest {
        name: "@declarative-migrations/declmig-validation-consumer".to_string(),
        dependencies,
        dev_dependencies: StringMap::new(),
    }
}

fn rust_manifest(path: &str) -> CargoManifest {
    let mut dependencies = StringMap::new();
    dependencies.insert(
        "declmig-validation".to_string(),
        DependencySpec {
            path: Some(path.to_string()),
        },
    );
    CargoManifest {
        package: PackageSection {
            name: "declmig-validation-consumer".to_string(),
        },
        dependencies,
    }
}

fn gleam_manifest() -> GleamManifest {
    let mut dependencies = StringMap::new();
    dependencies.insert(
        "declmig_validation".to_string(),
        DependencySpec {
            path: Some("../../.deps/lib-core/validation/gleam".to_string()),
        },
    );
    GleamManifest {
        name: "declmig_validation_consumer".to_string(),
        dependencies,
    }
}

fn valid_fixture() -> AuditInputs {
    AuditInputs {
        typescript_manifest: Ok(typescript_manifest()),
        typescript_sources: Ok(vec![TS_SOURCE.to_string()]),
        rust_manifest: Ok(rust_manifest("../../.deps/lib-core/validation/rust")),
        rust_sources: Ok(vec![RUST_SOURCE.to_string()]),
        go_manifest: Ok(GO_MOD.to_string()),
        go_sources: Ok(vec![GO_SOURCE.to_string()]),
        gleam_manifest: Ok(gleam_manifest()),
        gleam_sources: Ok(vec![GLEAM_SOURCE.to_string()]),
    }
}

fn run(inputs: AuditInputs) -> Report {
    audit("/fixture".to_string(), inputs)
}

#[test]
fn valid_fixture_passes() {
    let report = run(valid_fixture());
    assert!(report.zero_unexplained_findings);
}

#[test]
fn readme_mentions_do_not_replace_executable_imports() {
    let layout = consumer_layout(Language::TypeScript);
    let readme = classify_source_entry(
        "validation-consumer/typescript/README.md",
        false,
        false,
        true,
        "md",
        &layout.extensions,
    );
    assert_eq!(readme, Ok(EntryAction::Skip));
    let mut fixture = valid_fixture();
    fixture.typescript_sources = Ok(vec!["export const value = 1;\n".to_string()]);
    let report = run(fixture);
    assert!(report
        .errors
        .iter()
        .any(|error| error.contains("TypeScript executable source")));
}

#[test]
fn wrong_manifest_path_fails_closed() {
    let mut fixture = valid_fixture();
    fixture.rust_manifest = Ok(rust_manifest("../../server-core"));
    let report = run(fixture);
    assert!(report
        .errors
        .iter()
        .any(|error| error.contains("Rust validation dependency")));
}

#[test]
fn forbidden_server_package_in_source_is_rejected() {
    let mut fixture = valid_fixture();
    fixture.gleam_sources = Ok(vec!["import declmig_validation\nimport migration-executor\n".to_string()]);
    let report = run(fixture);
    assert!(report
        .errors
        .iter()
        .any(|error| error.contains("forbidden server package")));
}

#[test]
fn go_manifest_without_exact_replace_is_rejected() {
    let mut fixture = valid_fixture();
    fixture.go_manifest = Ok("module github.com/declarative-migrations/declmig-clients/validation-consumer/golang\nrequire github.com/declarative-migrations/declmig-lib-core/validation/golang v0.0.0\nreplace github.com/declarative-migrations/declmig-lib-core/validation/golang => ../../wrong\n".to_string());
    let report = run(fixture);
    assert!(report
        .errors
        .iter()
        .any(|error| error.contains("Go validation module")));
}

#[test]
fn symlinked_source_is_rejected() {
    let layout = consumer_layout(Language::TypeScript);
    let outside = format!("import x from \"{TS_PACKAGE}\";\n");
    assert!(outside.contains(TS_PACKAGE));
    let entry = classify_source_entry(
        "/fixture/validation-consumer/typescript/src/index.ts",
        true,
        false,
        false,
        "ts",
        &layout.extensions,
    );
    let mut fixture = valid_fixture();
    fixture.typescript_sources = entry.map(|_| vec![outside]);
    let report = run(fixture);
    assert!(report.errors.iter().any(|error| error.contains("symlink")));
}

#[test]
fn valid_fixture_report_is_exact() {
    let report = run(valid_fixture());
    assert_eq!(report.schema, "ores.validation-import-check/v1");
    assert_eq!(report.repository, "declarative-migrations/declmig-clients");
    assert_eq!(report.root, "/fixture");
    assert_eq!(report.status, "passed");
    assert!(report.errors.is_empty());
    let ids: Vec<&str> = report.checks.iter().map(|c| c.id.as_str()).collect();
    assert_eq!(
        ids,
        vec![
            "typescript-public-validation-boundary",
            "rust-public-validation-boundary",
            "go-public-validation-boundary",
            "gleam-public-validation-boundary",
        ]
    );
    assert!(report.checks.iter().all(|c| c.state == "passed"));
    assert_eq!(report.checks[0].detail, "manifest path and executable import are exact");
    assert_eq!(report.checks[2].detail, "module replacement and executable import are exact");
}

#[test]
fn failing_checks_give_error_lines_in_order() {
    let mut fixture = valid_fixture();
    fixture.typescript_manifest = Err("failed to inspect validation-consumer/typescript/package.json: gone".to_string());
    fixture.gleam_sources = Err("validation-consumer/gleam/src contains no reviewed source files".to_string());
    let report = run(fixture);
    assert!(!report.zero_unexplained_findings);
    assert_eq!(report.status, "failed");
    assert_eq!(
        report.errors,
        vec![
            "typescript-public-validation-boundary: failed to inspect validation-consumer/typescript/package.json: gone".to_string(),
            "gleam-public-validation-boundary: validation-consumer/gleam/src contains no reviewed source files".to_string(),
        ]
    );
    assert_eq!(report.checks[0].state, "failed");
    assert_eq!(report.checks[1].state, "passed");
    assert_eq!(report.checks[3].detail, "validation-consumer/gleam/src contains no reviewed source files");
}

#[test]
fn go_replace_path_drift_fails_the_audit() {
    let mut fixture = valid_fixture();
    fixture.go_manifest = Ok(GO_MOD.replace("validation/golang\n", "validation/golang-fork\n"));
    assert!(fixture.go_manifest.as_ref().unwrap().contains("golang-fork"));
    let report = run(fixture);
    assert!(!report.zero_unexplained_findings);
    assert_eq!(report.status, "failed");
    assert_eq!(
        report.errors,
        vec!["go-public-validation-boundary: Go validation module must resolve to the reviewed local SDK path".to_string()]
    );
}
