use kyte::definition::{import_definition, compute_definition, find_local_var_def};
use kyte::symbols::{Position, Range};

fn rng(line: u32, a: u32, b: u32) -> Range {
    Range { start: Position { line, character: a }, end: Position { line, character: b } }
}

const TEXT: &str = "fn add(int a) {\n    int total = a;\n    for i in 0..3 {\n    }\n}\n@main(main) {\n    @worker(thread) {\n    }\n}\n";

#[test]
fn finds_top_level_items() {
    assert_eq!(compute_definition(TEXT, 0, 4), Some(rng(0, 3, 6)));
    assert_eq!(compute_definition(TEXT, 5, 2), Some(rng(5, 1, 5)));
}

#[test]
fn finds_anchor_children() {
    assert_eq!(compute_definition(TEXT, 6, 7), Some(rng(6, 5, 11)));
}

#[test]
fn falls_back_to_local_variables() {
    assert_eq!(compute_definition(TEXT, 1, 9), Some(rng(1, 8, 13)));
    assert_eq!(compute_definition(TEXT, 2, 8), Some(rng(2, 8, 9)));
}

#[test]
fn nothing_under_the_cursor_or_no_declaration() {
    assert_eq!(compute_definition(TEXT, 1, 1), None);
    assert_eq!(compute_definition("print(zz);\n", 0, 7), None);
}

#[test]
fn local_declarations_by_prefix() {
    let text = "Vault int v = 1;\n  int v2 = 2;\nauto é = 3;\n";
    assert_eq!(find_local_var_def(text, "v2"), Some(rng(1, 6, 8)));
    assert_eq!(find_local_var_def(text, "v"), None);
    assert_eq!(find_local_var_def(text, "é"), Some(rng(2, 5, 7)));
}

#[test]
fn definitions_in_an_imported_file() {
    let lib = "// helpers\nfn helper(int a) -> int {\n    return a;\n}\nstruct Pair {\n    int a;\n}\n@main(main) {\n}\n";
    let r = import_definition(lib, "helper").unwrap();
    assert_eq!((r.start.line, r.start.character, r.end.line, r.end.character), (1, 3, 1, 9));
    let p = import_definition(lib, "Pair").unwrap();
    assert_eq!((p.start.line, p.start.character, p.end.character), (4, 7, 11));
    assert_eq!(import_definition(lib, "main"), None);
    assert_eq!(import_definition(lib, "nothing"), None);
}
