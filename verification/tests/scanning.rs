use validation_import_check::comments::strip_comments;
use validation_import_check::consumers::{go_mod_statements, has_statement};
use validation_import_check::forbidden::reject_forbidden;
use validation_import_check::imports::{go_imports, source_imports, Language, GO_PACKAGE};
use validation_import_check::text::{chars_of, compact, lines_of, str_contains, string_from_chars, trim_chars};

#[test]
fn line_comment_is_blanked_to_the_line_break() {
    assert_eq!(strip_comments("let x = 1; // note\nlet y = 2;"), "let x = 1;        \nlet y = 2;");
}

#[test]
fn block_comment_is_blanked_keeping_line_breaks() {
    assert_eq!(strip_comments("a /* b\nc */ d"), "a     \n     d");
}

#[test]
fn quoted_text_is_kept() {
    let source = "s = \"// not a comment\"; t = '/*'; u = `//x`";
    assert_eq!(strip_comments(source), source);
}

#[test]
fn escaped_quote_does_not_end_quoted_text() {
    let source = "\"a\\\"//b\" // c";
    assert_eq!(strip_comments(source), "\"a\\\"//b\"     ");
}

#[test]
fn unterminated_block_comment_blanks_the_rest() {
    assert_eq!(strip_comments("x /* y"), "x     ");
}

#[test]
fn stripping_twice_is_stripping_once() {
    let source = "a/ /*b*/ '//' // c\n/ x";
    let once = strip_comments(source);
    assert_eq!(once, "a/       '//'     \n/ x");
    assert_eq!(strip_comments(&once), once);
}

#[test]
fn stripping_keeps_length() {
    let source = "é // ü\n/* ß */";
    let stripped = strip_comments(source);
    assert_eq!(stripped.chars().count(), source.chars().count());
    assert_eq!(stripped, "é     \n       ");
}

#[test]
fn compact_removes_unicode_white_space() {
    assert_eq!(compact("a b\tc\n\u{a0}d\u{3000}e"), "abcde");
    assert_eq!(compact("x\u{200b}y"), "x\u{200b}y");
}

#[test]
fn lines_follow_str_lines() {
    let chars = chars_of("a\r\nb\n\nc\r");
    let lines: Vec<String> = lines_of(&chars).iter().map(|l| string_from_chars(l)).collect();
    assert_eq!(lines, vec!["a", "b", "", "c\r"]);
    assert!(lines_of(&chars_of("")).is_empty());
    assert_eq!(lines_of(&chars_of("x\n")).len(), 1);
}

#[test]
fn trim_removes_white_space_at_both_ends() {
    let trimmed = trim_chars(&chars_of("\u{a0} a b \t"));
    assert_eq!(string_from_chars(&trimmed), "a b");
}

#[test]
fn contains_finds_infix() {
    assert!(str_contains("abcabd", "abd"));
    assert!(!str_contains("abcab", "abd"));
    assert!(str_contains("abc", ""));
}

#[test]
fn forbidden_reported_in_value_order_then_package_order() {
    let values = vec!["fine".to_string(), "uses server-core here".to_string(), "migration-executor".to_string()];
    assert_eq!(
        reject_forbidden("Rust manifest", &values),
        Err("Rust manifest exposes forbidden server package server-core".to_string())
    );
    let values = vec!["declmig-server-core".to_string()];
    assert_eq!(
        reject_forbidden("label", &values),
        Err("label exposes forbidden server package declmig-server-core".to_string())
    );
    assert_eq!(reject_forbidden("label", &vec![]), Ok(()));
    assert_eq!(reject_forbidden("label", &vec!["declmig-validation".to_string()]), Ok(()));
}

#[test]
fn go_block_import_is_found() {
    let source = format!("package p\nimport (\n\t\"fmt\"\n\tv \"{GO_PACKAGE}\"\n)\n");
    assert!(go_imports(&source, GO_PACKAGE));
}

#[test]
fn go_single_import_is_found() {
    let source = format!("package p\n  import v \"{GO_PACKAGE}\"  \n");
    assert!(go_imports(&source, GO_PACKAGE));
}

#[test]
fn go_import_in_comment_is_not_found() {
    let source = format!("package p\n// import v \"{GO_PACKAGE}\"\n/* import \"{GO_PACKAGE}\" */\n");
    assert!(!go_imports(&source, GO_PACKAGE));
}

#[test]
fn go_mention_after_closed_block_is_not_an_import() {
    let source = format!("import (\n\t\"fmt\"\n)\nvar x = \"{GO_PACKAGE}\"\n");
    assert!(!go_imports(&source, GO_PACKAGE));
    let tight = format!("import(\n\"{GO_PACKAGE}\"\n)\n");
    assert!(go_imports(&tight, GO_PACKAGE));
}

#[test]
fn typescript_imports_in_every_accepted_form() {
    let pkg = "@declarative-migrations/declmig-validation";
    for source in [
        format!("import {{ a }} from \"{pkg}\";"),
        format!("import {{ a }}\n  from '{pkg}';"),
        format!("import \"{pkg}\";"),
        format!("import '{pkg}';"),
        format!("const a = require( \"{pkg}\" );"),
        format!("const a = require('{pkg}');"),
    ] {
        assert!(source_imports(Language::TypeScript, &source), "{source}");
    }
    assert!(!source_imports(Language::TypeScript, &format!("// import a from \"{pkg}\";")));
    assert!(!source_imports(Language::TypeScript, &format!("import a from \"{pkg}-extra\";")));
}

#[test]
fn rust_imports_by_use_or_extern_crate() {
    assert!(source_imports(Language::Rust, "use declmig_validation::X;"));
    assert!(source_imports(Language::Rust, "extern crate declmig_validation;"));
    assert!(source_imports(Language::Rust, "pub  use\n declmig_validation as v;"));
    assert!(!source_imports(Language::Rust, "// use declmig_validation::X;\nfn main() {}"));
}

#[test]
fn gleam_imports_by_line() {
    assert!(source_imports(Language::Gleam, "  import declmig_validation.{decode}\n"));
    assert!(source_imports(Language::Gleam, "import declmig_validation as v\n"));
    assert!(source_imports(Language::Gleam, "import declmig_validation\n"));
    assert!(!source_imports(Language::Gleam, "import declmig_validation_extra\n"));
    assert!(!source_imports(Language::Gleam, "// import declmig_validation\n"));
}

#[test]
fn go_mod_statements_are_trimmed_lines_that_count() {
    let text = " module x \r\n\n// require z\n  require y v0.0.0\n\t\nreplace y => ../y";
    assert_eq!(go_mod_statements(text), vec!["module x", "require y v0.0.0", "replace y => ../y"]);
    assert!(go_mod_statements("").is_empty());
    let statements = go_mod_statements(text);
    assert!(has_statement(&statements, "replace y => ../y"));
    assert!(!has_statement(&statements, "replace y => ../"));
    assert!(!has_statement(&statements, "require y"));
    let commented = "module x // the module\nrequire y v0.0.0 // pinned\n// replace y => ../y";
    assert_eq!(go_mod_statements(commented), vec!["module x", "require y v0.0.0"]);
}

#[test]
fn typescript_specifier_must_match_exactly() {
    let pkg = "@declarative-migrations/declmig-validation";
    let split = format!("// {pkg}\nimport x from \"@declarative-migrations/declmig- validation\";");
    assert!(!source_imports(Language::TypeScript, &split));
    let in_literal = format!("const s = 'from \"{pkg}\"';");
    assert!(!source_imports(Language::TypeScript, &in_literal));
    let in_template = format!("const s = `import \"{pkg}\"`;");
    assert!(!source_imports(Language::TypeScript, &in_template));
    assert!(!source_imports(Language::TypeScript, &format!("xfrom \"{pkg}\";")));
    assert!(!source_imports(Language::TypeScript, &format!("import a from `{pkg}`;")));
}

#[test]
fn rust_crate_name_must_be_a_whole_word() {
    assert!(!source_imports(Language::Rust, "use declmig_validation_extra::X;"));
    assert!(!source_imports(Language::Rust, "reuse declmig_validation;"));
    assert!(!source_imports(Language::Rust, "let s = \"use declmig_validation\";"));
    assert!(source_imports(Language::Rust, "use declmig_validation;"));
}

#[test]
fn rust_import_after_a_quote_char_literal_is_found() {
    assert!(source_imports(Language::Rust, "const Q:char='\"';use declmig_validation;"));
    assert!(source_imports(Language::Rust, "const B: u8 = b'\"';\nuse declmig_validation::check;"));
    assert!(!source_imports(Language::Rust, "const Q:char='\"';use declmig_validation\";"));
}

#[test]
fn typescript_import_after_a_regex_holding_a_quote_is_found() {
    let pkg = "@declarative-migrations/declmig-validation";
    assert!(source_imports(Language::TypeScript, &format!("/\"/;import\"{pkg}\"")));
    assert!(source_imports(Language::TypeScript, &format!("const r = /'/g;\nimport {{ a }} from '{pkg}';")));
}
