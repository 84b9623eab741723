use validation_import_check::consumers::{validate_gleam, validate_go, validate_rust, validate_typescript};
use validation_import_check::manifest::{CargoManifest, DependencySpec, GleamManifest, NodeManifest, PackageSection};
use validation_import_check::table::StringMap;

const EXACT: &str = "manifest path and executable import are exact";
const TS_PATH: &str = "file:../../.deps/lib-core/validation/typescript";
const TS_IMPORT: &str = "import { a } from \"@declarative-migrations/declmig-validation\";";

fn node(name: &str, deps: &[(&str, &str)], dev: &[(&str, &str)]) -> NodeManifest {
    let mut dependencies = StringMap::new();
    for (k, v) in deps {
        dependencies.insert(k.to_string(), v.to_string());
    }
    let mut dev_dependencies = StringMap::new();
    for (k, v) in dev {
        dev_dependencies.insert(k.to_string(), v.to_string());
    }
    NodeManifest { name: name.to_string(), dependencies, dev_dependencies }
}

fn toml_deps(deps: &[(&str, Option<&str>)]) -> StringMap<DependencySpec> {
    let mut map = StringMap::new();
    for (k, p) in deps {
        map.insert(k.to_string(), DependencySpec { path: p.map(|s| s.to_string()) });
    }
    map
}

fn cargo(name: &str, deps: &[(&str, Option<&str>)]) -> CargoManifest {
    CargoManifest { package: PackageSection { name: name.to_string() }, dependencies: toml_deps(deps) }
}

fn gleam(name: &str, deps: &[(&str, Option<&str>)]) -> GleamManifest {
    GleamManifest { name: name.to_string(), dependencies: toml_deps(deps) }
}

fn sources(values: &[&str]) -> Result<Vec<String>, String> {
    Ok(values.iter().map(|v| v.to_string()).collect())
}

const CONSUMER: &str = "@declarative-migrations/declmig-validation-consumer";
const SDK: &str = "@declarative-migrations/declmig-validation";

#[test]
fn typescript_dev_dependency_is_accepted() {
    let m = node(CONSUMER, &[], &[(SDK, TS_PATH)]);
    assert_eq!(validate_typescript(Ok(m), sources(&[TS_IMPORT])), Ok(EXACT.to_string()));
}

#[test]
fn typescript_wrong_name_is_reported() {
    let m = node("other", &[(SDK, TS_PATH)], &[]);
    assert_eq!(
        validate_typescript(Ok(m), sources(&[TS_IMPORT])),
        Err("unexpected TypeScript package name other".to_string())
    );
}

#[test]
fn typescript_dependency_takes_precedence_over_dev_dependency() {
    let m = node(CONSUMER, &[(SDK, "file:../elsewhere")], &[(SDK, TS_PATH)]);
    assert_eq!(
        validate_typescript(Ok(m), sources(&[TS_IMPORT])),
        Err("TypeScript validation dependency must use the reviewed local SDK path".to_string())
    );
}

#[test]
fn typescript_forbidden_dev_dependency_is_reported() {
    let m = node(CONSUMER, &[(SDK, TS_PATH)], &[("server-core", "1.0.0")]);
    assert_eq!(
        validate_typescript(Ok(m), sources(&[TS_IMPORT])),
        Err("TypeScript manifest exposes forbidden server package server-core".to_string())
    );
}

#[test]
fn typescript_forbidden_mention_in_a_later_source_is_reported() {
    let m = node(CONSUMER, &[(SDK, TS_PATH)], &[]);
    assert_eq!(
        validate_typescript(Ok(m), sources(&[TS_IMPORT, "const x = 'migration-executor';", "// server-core"])),
        Err("TypeScript source exposes forbidden server package migration-executor".to_string())
    );
}

#[test]
fn forbidden_mention_inside_a_comment_is_ignored() {
    let m = node(CONSUMER, &[(SDK, TS_PATH)], &[]);
    assert_eq!(
        validate_typescript(Ok(m), sources(&["// migration-executor\n", TS_IMPORT])),
        Ok(EXACT.to_string())
    );
}

#[test]
fn unreadable_inputs_are_passed_through() {
    assert_eq!(
        validate_typescript(Err("invalid TypeScript package.json: eof".to_string()), sources(&[])),
        Err("invalid TypeScript package.json: eof".to_string())
    );
    let m = node(CONSUMER, &[(SDK, TS_PATH)], &[]);
    assert_eq!(
        validate_typescript(Ok(m), Err("src must be a real directory".to_string())),
        Err("src must be a real directory".to_string())
    );
}

#[test]
fn rust_checks_in_order() {
    let good = Some("../../.deps/lib-core/validation/rust");
    assert_eq!(
        validate_rust(Ok(cargo("x", &[("declmig-validation", good)])), sources(&[])),
        Err("unexpected Rust package name x".to_string())
    );
    assert_eq!(
        validate_rust(Ok(cargo("declmig-validation-consumer", &[])), sources(&[])),
        Err("Rust validation dependency is missing".to_string())
    );
    assert_eq!(
        validate_rust(Ok(cargo("declmig-validation-consumer", &[("declmig-validation", None)])), sources(&[])),
        Err("Rust validation dependency must use the reviewed local SDK path".to_string())
    );
    assert_eq!(
        validate_rust(
            Ok(cargo("declmig-validation-consumer", &[("declmig-validation", good), ("declmig-server-core", None)])),
            sources(&[])
        ),
        Err("Rust manifest exposes forbidden server package declmig-server-core".to_string())
    );
    assert_eq!(
        validate_rust(
            Ok(cargo("declmig-validation-consumer", &[("declmig-validation", good)])),
            sources(&["/* use declmig_validation; */ fn f() {}"])
        ),
        Err("Rust executable source does not import the public validation crate".to_string())
    );
    assert_eq!(
        validate_rust(
            Ok(cargo("declmig-validation-consumer", &[("declmig-validation", good)])),
            sources(&["fn f() {}", "extern crate declmig_validation;"])
        ),
        Ok(EXACT.to_string())
    );
}

#[test]
fn gleam_checks_in_order() {
    let good = Some("../../.deps/lib-core/validation/gleam");
    assert_eq!(
        validate_gleam(Ok(gleam("other", &[("declmig_validation", good)])), sources(&[])),
        Err("unexpected Gleam package name other".to_string())
    );
    assert_eq!(
        validate_gleam(Ok(gleam("declmig_validation_consumer", &[])), sources(&[])),
        Err("Gleam validation dependency is missing".to_string())
    );
    assert_eq!(
        validate_gleam(
            Ok(gleam("declmig_validation_consumer", &[("declmig_validation", Some("../gleam"))])),
            sources(&[])
        ),
        Err("Gleam validation dependency must use the reviewed local SDK path".to_string())
    );
    assert_eq!(
        validate_gleam(
            Ok(gleam("declmig_validation_consumer", &[("declmig_validation", good)])),
            sources(&["pub fn main() { 1 }\n"])
        ),
        Err("Gleam executable source does not import the public validation package".to_string())
    );
}

const GO_MOD: &str = "module github.com/declarative-migrations/declmig-clients/validation-consumer/golang\nrequire github.com/declarative-migrations/declmig-lib-core/validation/golang v0.0.0\nreplace github.com/declarative-migrations/declmig-lib-core/validation/golang => ../../.deps/lib-core/validation/golang\n";
const GO_SOURCE: &str = "import \"github.com/declarative-migrations/declmig-lib-core/validation/golang\"\n";

#[test]
fn go_checks_in_order() {
    assert_eq!(
        validate_go(Ok(format!("// replaces migration-executor\n{GO_MOD}")), sources(&[GO_SOURCE])),
        Err("Go manifest exposes forbidden server package migration-executor".to_string())
    );
    assert_eq!(
        validate_go(Ok("module other\n".to_string()), sources(&[GO_SOURCE])),
        Err("unexpected Go consumer module identity".to_string())
    );
    assert_eq!(
        validate_go(
            Ok("module github.com/declarative-migrations/declmig-clients/validation-consumer/golang\n".to_string()),
            sources(&[GO_SOURCE])
        ),
        Err("Go validation module must be required at the reviewed local placeholder version".to_string())
    );
    assert_eq!(
        validate_go(Ok(GO_MOD.to_string()), sources(&["package p\n"])),
        Err("Go executable source does not import the public validation module".to_string())
    );
    assert_eq!(
        validate_go(Ok(GO_MOD.to_string()), sources(&[GO_SOURCE])),
        Ok("module replacement and executable import are exact".to_string())
    );
    assert_eq!(
        validate_go(Err("validation-consumer/golang/go.mod must not be a symlink".to_string()), sources(&[])),
        Err("validation-consumer/golang/go.mod must not be a symlink".to_string())
    );
}

#[test]
fn go_mod_spread_over_indented_lines_is_accepted() {
    let text = "  module github.com/declarative-migrations/declmig-clients/validation-consumer/golang\n\n// note\nrequire github.com/declarative-migrations/declmig-lib-core/validation/golang v0.0.0\r\n\treplace github.com/declarative-migrations/declmig-lib-core/validation/golang => ../../.deps/lib-core/validation/golang";
    assert_eq!(
        validate_go(Ok(text.to_string()), sources(&[GO_SOURCE])),
        Ok("module replacement and executable import are exact".to_string())
    );
}

const GO_REQUIRE: &str = "require github.com/declarative-migrations/declmig-lib-core/validation/golang v0.0.0";
const GO_REPLACE: &str = "replace github.com/declarative-migrations/declmig-lib-core/validation/golang => ../../.deps/lib-core/validation/golang";
const GO_MODULE: &str = "module github.com/declarative-migrations/declmig-clients/validation-consumer/golang";

#[test]
fn go_path_drift_is_rejected() {
    let text = format!("{GO_MODULE}\n{GO_REQUIRE}\n{GO_REPLACE}-fork\n");
    assert_eq!(
        validate_go(Ok(text), sources(&[GO_SOURCE])),
        Err("Go validation module must resolve to the reviewed local SDK path".to_string())
    );
}

#[test]
fn go_module_drift_is_rejected() {
    let text = format!("{GO_MODULE}x\n{GO_REQUIRE}\n{GO_REPLACE}\n");
    assert_eq!(
        validate_go(Ok(text), sources(&[GO_SOURCE])),
        Err("unexpected Go consumer module identity".to_string())
    );
}

#[test]
fn go_version_drift_is_rejected() {
    let text = format!("{GO_MODULE}\n{GO_REQUIRE}1\n{GO_REPLACE}\n");
    assert_eq!(
        validate_go(Ok(text), sources(&[GO_SOURCE])),
        Err("Go validation module must be required at the reviewed local placeholder version".to_string())
    );
}

#[test]
fn go_statements_joined_on_one_line_are_rejected() {
    let text = format!("{GO_MODULE} {GO_REQUIRE} {GO_REPLACE}\n");
    assert_eq!(
        validate_go(Ok(text), sources(&[GO_SOURCE])),
        Err("unexpected Go consumer module identity".to_string())
    );
}

#[test]
fn typescript_comment_mention_with_split_specifier_is_not_an_import() {
    let m = node(CONSUMER, &[(SDK, TS_PATH)], &[]);
    assert_eq!(
        validate_typescript(
            Ok(m),
            sources(&["// @declarative-migrations/declmig-validation\nimport x from \"@declarative-migrations/declmig- validation\";"])
        ),
        Err("TypeScript executable source does not import the public validation SDK".to_string())
    );
}

#[test]
fn rust_longer_crate_name_is_not_an_import() {
    let good = Some("../../.deps/lib-core/validation/rust");
    assert_eq!(
        validate_rust(
            Ok(cargo("declmig-validation-consumer", &[("declmig-validation", good)])),
            sources(&["use declmig_validation_extra::X;"])
        ),
        Err("Rust executable source does not import the public validation crate".to_string())
    );
}

#[test]
fn go_module_line_with_trailing_comment_keeps_its_identity() {
    let text = format!("{GO_MODULE} // the consumer\n");
    assert_eq!(
        validate_go(Ok(text), sources(&[GO_SOURCE])),
        Err("Go validation module must be required at the reviewed local placeholder version".to_string())
    );
}

#[test]
fn go_require_line_with_trailing_comment_counts() {
    let text = format!("{GO_MODULE}\n{GO_REQUIRE} // pinned\n// {GO_REPLACE}\n");
    assert_eq!(
        validate_go(Ok(text), sources(&[GO_SOURCE])),
        Err("Go validation module must resolve to the reviewed local SDK path".to_string())
    );
}

#[test]
fn go_mod_with_trailing_comments_on_every_line_is_accepted() {
    let text = format!("{GO_MODULE} // a\n{GO_REQUIRE} // b\n{GO_REPLACE} // local\n");
    assert_eq!(
        validate_go(Ok(text), sources(&[GO_SOURCE])),
        Ok("module replacement and executable import are exact".to_string())
    );
    let drifted = format!("{GO_MODULE}\n{GO_REQUIRE}\n{GO_REPLACE}-fork // local\n");
    assert_eq!(
        validate_go(Ok(drifted), sources(&[GO_SOURCE])),
        Err("Go validation module must resolve to the reviewed local SDK path".to_string())
    );
}

#[test]
fn rust_use_after_a_quote_char_literal_is_an_import() {
    let good = Some("../../.deps/lib-core/validation/rust");
    assert_eq!(
        validate_rust(
            Ok(cargo("declmig-validation-consumer", &[("declmig-validation", good)])),
            sources(&["const Q:char='\"';use declmig_validation;"])
        ),
        Ok(EXACT.to_string())
    );
}

#[test]
fn typescript_import_after_a_regex_literal_is_an_import() {
    let m = node(CONSUMER, &[(SDK, TS_PATH)], &[]);
    assert_eq!(
        validate_typescript(Ok(m), sources(&["/\"/;import\"@declarative-migrations/declmig-validation\""])),
        Ok(EXACT.to_string())
    );
}
