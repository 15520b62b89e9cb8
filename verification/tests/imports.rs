use kyte::imports::{
    append_non_import_lines, expand_import_line, is_import_line, parse_import_path,
    preprocess_source, std_path_parts,
};

#[test]
fn grouped_import_expands() {
    let line = "import std.collections.{Vec, Map, Pool};";
    let expanded = expand_import_line(line);
    assert_eq!(
        expanded,
        vec![
            "import std.collections.Vec;".to_string(),
            "import std.collections.Map;".to_string(),
            "import std.collections.Pool;".to_string(),
        ]
    );
}

#[test]
fn single_import_unchanged() {
    let line = "import std.io;";
    let expanded = expand_import_line(line);
    assert_eq!(expanded, vec!["import std.io;".to_string()]);
}

#[test]
fn non_import_unchanged() {
    let line = "int x = 5;";
    let expanded = expand_import_line(line);
    assert_eq!(expanded, vec!["int x = 5;".to_string()]);
}

#[test]
fn empty_brace_group_produces_no_imports() {
    let line = "import std.{};";
    let expanded = expand_import_line(line);
    assert_eq!(expanded, Vec::<String>::new());
}

#[test]
fn trailing_comma_ignored() {
    let line = "import std.{Vec,};";
    let expanded = expand_import_line(line);
    assert_eq!(expanded, vec!["import std.Vec;".to_string()]);
}

#[test]
fn word_boundary_respected() {
    let line = "importfoo { x };";
    let expanded = expand_import_line(line);
    assert_eq!(expanded, vec!["importfoo { x };".to_string()]);
}

#[test]
fn quoted_path_with_brace_unchanged() {
    let line = r#"import "path{v}/file.ky";"#;
    let expanded = expand_import_line(line);
    assert_eq!(expanded, vec![r#"import "path{v}/file.ky";"#.to_string()]);
}

#[test]
fn group_without_prefix_and_untrimmed_line() {
    assert_eq!(
        expand_import_line("   import {A , B}  "),
        vec!["import A;".to_string(), "import B;".to_string()]
    );
    assert_eq!(
        expand_import_line("import a.b. {X};;"),
        vec!["import a.b.X;".to_string()]
    );
}

#[test]
fn import_path_forms() {
    assert_eq!(parse_import_path("import std.io;"), Some("std.io".to_string()));
    assert_eq!(parse_import_path("  import \"util.ky\" ;  "), Some("util.ky".to_string()));
    assert_eq!(parse_import_path("import std.io"), None);
    assert_eq!(parse_import_path("import ;"), None);
    assert_eq!(parse_import_path("int x = 1;"), None);
    assert_eq!(parse_import_path("import \";"), Some("\"".to_string()));
    assert!(is_import_line("import a;"));
    assert!(!is_import_line("// import a;"));
}

#[test]
fn preprocess_blanks_import_lines() {
    let src = "import a;\nint x = 1;\r\n  import \"b.ky\";\nyield x;";
    assert_eq!(preprocess_source(src), "\nint x = 1;\n\nyield x;\n".to_string());
    assert_eq!(preprocess_source(""), "".to_string());
    assert_eq!(preprocess_source("a\n\n"), "a\n\n".to_string());
    let mut out = "head\n".to_string();
    append_non_import_lines("import z;\nbody", &mut out);
    assert_eq!(out, "head\n\nbody\n".to_string());
}

#[test]
fn preprocess_keeps_line_count() {
    let src = "import a;\n@main(main)\nimport b;\n    yield 1;\n";
    let out = preprocess_source(src);
    assert_eq!(out.lines().count(), src.lines().count());
    for (o, s) in out.lines().zip(src.lines()) {
        assert!(o.is_empty() || o == s);
    }
}

#[test]
fn std_path_resolves() {
    // the parts of the file of a standard-library import, below its root
    assert_eq!(std_path_parts("std.io"), Some(vec!["std".to_string(), "io".to_string()]));
    assert_eq!(
        std_path_parts("std.collections.Vec"),
        Some(vec!["std".to_string(), "collections".to_string(), "Vec".to_string()])
    );
    assert_eq!(std_path_parts("std"), Some(vec!["std".to_string()]));
    let non_std = std_path_parts("mylib.foo");
    assert!(non_std.is_none());
}

#[test]
fn non_std_path_returns_none() {
    let result = std_path_parts("mylib.foo");
    assert!(result.is_none());
    assert!(std_path_parts("stdlib.x").is_none());
}
