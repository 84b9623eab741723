use validation_import_check::cli::{completion, parse_args, unknown_argument_message, usage};
use validation_import_check::files::{
    check_inside_root, check_read_target, check_source_inside, check_source_root,
    classify_source_entry, consumer_layout, finish_sources, order_by_name, EntryAction,
};
use validation_import_check::imports::Language;
use validation_import_check::report::Report;
use validation_import_check::table::StringMap;

fn args(values: &[&str]) -> Vec<String> {
    values.iter().map(|v| v.to_string()).collect()
}

#[test]
fn table_keeps_keys_in_order_and_replaces_values() {
    let mut map = StringMap::new();
    map.insert("zeta".to_string(), 1u32);
    map.insert("alpha".to_string(), 2u32);
    map.insert("mid".to_string(), 3u32);
    map.insert("alpha".to_string(), 4u32);
    assert_eq!(map.len(), 3);
    assert_eq!(map.keys(), vec!["alpha".to_string(), "mid".to_string(), "zeta".to_string()]);
    assert_eq!(map.get("alpha"), Some(&4));
    assert_eq!(map.get("zeta"), Some(&1));
    assert_eq!(map.get("beta"), None);
}

#[test]
fn table_orders_by_character_code() {
    let mut map = StringMap::new();
    map.insert("b".to_string(), ());
    map.insert("B".to_string(), ());
    map.insert("ab".to_string(), ());
    map.insert("a".to_string(), ());
    assert_eq!(map.keys(), vec!["B", "a", "ab", "b"]);
}

#[test]
fn arguments_default_to_the_given_root() {
    assert_eq!(parse_args("/repo".to_string(), vec![]), Ok(("/repo".to_string(), None)));
}

#[test]
fn arguments_set_root_and_report() {
    assert_eq!(
        parse_args("/repo".to_string(), args(&["--root", "r", "--report", "out.json", "--root", "s"])),
        Ok(("s".to_string(), Some("out.json".to_string())))
    );
}

#[test]
fn arguments_missing_paths_are_refused() {
    assert_eq!(parse_args("/repo".to_string(), args(&["--root"])), Err("--root requires a path".to_string()));
    assert_eq!(
        parse_args("/repo".to_string(), args(&["--root", "r", "--report"])),
        Err("--report requires a path".to_string())
    );
}

#[test]
fn help_answers_usage() {
    let expected = "usage: declmig-validation-import-check [--root PATH] [--report PATH]";
    assert_eq!(usage(), expected);
    assert_eq!(parse_args("/repo".to_string(), args(&["-h"])), Err(expected.to_string()));
    assert_eq!(parse_args("/repo".to_string(), args(&["--help", "--root"])), Err(expected.to_string()));
}

#[test]
fn unknown_argument_is_quoted() {
    assert_eq!(
        parse_args("/repo".to_string(), args(&["--verbose"])),
        Err("unknown argument \"--verbose\"; usage: declmig-validation-import-check [--root PATH] [--report PATH]".to_string())
    );
    assert_eq!(
        parse_args("/repo".to_string(), args(&["a\"b\n"])),
        Err("unknown argument \"a\\\"b\\n\"; usage: declmig-validation-import-check [--root PATH] [--report PATH]".to_string())
    );
    assert_eq!(
        unknown_argument_message("\"x\""),
        "unknown argument \"x\"; usage: declmig-validation-import-check [--root PATH] [--report PATH]"
    );
}

#[test]
fn manifests_must_be_regular_files_without_links() {
    assert_eq!(check_read_target("a/go.mod", true, true), Err("a/go.mod must not be a symlink".to_string()));
    assert_eq!(check_read_target("a/go.mod", false, false), Err("a/go.mod must be a regular file".to_string()));
    assert_eq!(check_read_target("a/go.mod", false, true), Ok(()));
    assert_eq!(
        check_inside_root("a/go.mod", false),
        Err("a/go.mod resolves outside the repository root".to_string())
    );
    assert_eq!(check_inside_root("a/go.mod", true), Ok(()));
}

#[test]
fn source_roots_must_be_real_directories() {
    assert_eq!(check_source_root("src", true, true), Err("src must be a real directory".to_string()));
    assert_eq!(check_source_root("src", false, false), Err("src must be a real directory".to_string()));
    assert_eq!(check_source_root("src", false, true), Ok(()));
}

#[test]
fn source_entries_are_classified() {
    let ts = consumer_layout(Language::TypeScript);
    assert_eq!(ts.extensions, vec!["ts", "tsx"]);
    assert_eq!(
        classify_source_entry("src/a.ts", true, false, true, "ts", &ts.extensions),
        Err("source path src/a.ts must not be a symlink".to_string())
    );
    assert_eq!(classify_source_entry("src/lib", false, true, false, "", &ts.extensions), Ok(EntryAction::Descend));
    assert_eq!(classify_source_entry("src/fifo", false, false, false, "ts", &ts.extensions), Ok(EntryAction::Skip));
    assert_eq!(classify_source_entry("src/a.js", false, false, true, "js", &ts.extensions), Ok(EntryAction::Skip));
    assert_eq!(classify_source_entry("src/a.tsx", false, false, true, "tsx", &ts.extensions), Ok(EntryAction::Read));
    assert_eq!(
        check_source_inside("src/a.ts", false),
        Err("source path src/a.ts escaped the repository".to_string())
    );
    assert_eq!(
        finish_sources("validation-consumer/rust/src", vec![]),
        Err("validation-consumer/rust/src contains no reviewed source files".to_string())
    );
    assert_eq!(finish_sources("x", vec!["fn f() {}".to_string()]), Ok(vec!["fn f() {}".to_string()]));
}

#[test]
fn consumer_layouts_are_the_reviewed_paths() {
    let go = consumer_layout(Language::Go);
    assert_eq!(go.manifest, "validation-consumer/golang/go.mod");
    assert_eq!(go.source_dir, "validation-consumer/golang");
    assert_eq!(go.extensions, vec!["go"]);
    let gleam = consumer_layout(Language::Gleam);
    assert_eq!(gleam.manifest, "validation-consumer/gleam/gleam.toml");
    assert_eq!(gleam.source_dir, "validation-consumer/gleam/src");
    let rust = consumer_layout(Language::Rust);
    assert_eq!(rust.manifest, "validation-consumer/rust/Cargo.toml");
    assert_eq!(rust.extensions, vec!["rs"]);
    let ts = consumer_layout(Language::TypeScript);
    assert_eq!(ts.manifest, "validation-consumer/typescript/package.json");
    assert_eq!(ts.source_dir, "validation-consumer/typescript/src");
}

fn report(passed: bool, errors: Vec<String>) -> Report {
    Report {
        schema: String::new(),
        repository: String::new(),
        root: String::new(),
        status: String::new(),
        zero_unexplained_findings: passed,
        checks: vec![],
        errors,
    }
}

#[test]
fn completion_of_a_pass_and_of_a_failure() {
    assert_eq!(
        completion(&report(true, vec![])),
        (0, vec!["validated 4 public validation consumer boundaries".to_string()])
    );
    assert_eq!(
        completion(&report(false, vec!["a: b".to_string(), "c: d".to_string()])),
        (1, vec!["validation import audit failed:".to_string(), " - a: b".to_string(), " - c: d".to_string()])
    );
}

#[test]
fn directory_entries_are_visited_by_name() {
    let names: Vec<String> = ["z.ts", "B.ts", "a.ts", "a", "é.ts"].iter().map(|s| s.to_string()).collect();
    assert_eq!(order_by_name(&names), vec![1, 3, 2, 0, 4]);
    assert!(order_by_name(&vec![]).is_empty());
}
