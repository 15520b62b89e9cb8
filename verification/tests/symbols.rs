use kyte::symbols::{compute_document_symbols, line_range, name_range, DocumentSymbol, Position, Range, SymbolKind};

fn rng(line: u32, a: u32, b: u32) -> Range {
    Range { start: Position { line, character: a }, end: Position { line, character: b } }
}

fn lines(v: &[&str]) -> Vec<String> {
    v.iter().map(|s| s.to_string()).collect()
}

#[test]
fn outline_of_a_small_program() {
    let text = "fn add(int a, int b) -> int {\n    return a + b;\n}\nstruct Point {\n    int x;\n}\n@main(main) {\n}\n";
    let syms = compute_document_symbols(text);
    assert_eq!(syms.len(), 3);

    let f = &syms[0];
    assert_eq!(f.name, "add");
    assert_eq!(f.detail.as_deref(), Some("fn(int a, int b) -> int"));
    assert_eq!(f.kind, SymbolKind::Function);
    assert_eq!(f.range, rng(0, 0, 29));
    assert_eq!(f.selection_range, rng(0, 3, 6));
    assert!(f.children.is_none());

    let s = &syms[1];
    assert_eq!(s.name, "Point");
    assert_eq!(s.detail.as_deref(), Some("struct Point"));
    assert_eq!(s.kind, SymbolKind::Struct);
    assert_eq!(s.range, rng(3, 0, 14));
    assert_eq!(s.selection_range, rng(3, 7, 12));
    let fields: &Vec<DocumentSymbol> = s.children.as_ref().unwrap();
    assert_eq!(fields.len(), 1);
    assert_eq!(fields[0].name, "x");
    assert_eq!(fields[0].detail.as_deref(), Some("int"));
    assert_eq!(fields[0].kind, SymbolKind::Field);
    assert_eq!(fields[0].range, rng(3, 0, 14));
    assert_eq!(fields[0].selection_range, rng(3, 0, 14));

    let a = &syms[2];
    assert_eq!(a.name, "main");
    assert_eq!(a.detail.as_deref(), Some("@main(main)"));
    assert_eq!(a.kind, SymbolKind::Event);
    assert_eq!(a.range, rng(6, 0, 13));
    assert_eq!(a.selection_range, rng(6, 1, 5));
}

#[test]
fn import_lines_keep_their_place() {
    let text = "import std.io;\nfn go() {\n}\n";
    let syms = compute_document_symbols(text);
    assert_eq!(syms.len(), 1);
    assert_eq!(syms[0].name, "go");
    assert_eq!(syms[0].detail.as_deref(), Some("fn()"));
    assert_eq!(syms[0].range, rng(1, 0, 9));
    assert_eq!(syms[0].selection_range, rng(1, 3, 5));
}

#[test]
fn ranges_count_bytes_and_fall_back() {
    let ls = lines(&["é x = 1;", "", "abc"]);
    // "é" takes two bytes, so the line takes 9 and `x` starts at byte 3.
    assert_eq!(line_range(&ls, 1), rng(0, 0, 9));
    assert_eq!(name_range(&ls, 1, "x"), rng(0, 3, 4));
    // An empty line still covers one byte; a line past the end covers one.
    assert_eq!(line_range(&ls, 2), rng(1, 0, 1));
    assert_eq!(line_range(&ls, 9), rng(8, 0, 1));
    // Line 0 is read as the first line; a missing name sits at the start.
    assert_eq!(line_range(&ls, 0), rng(0, 0, 9));
    assert_eq!(name_range(&ls, 3, "zz"), rng(2, 0, 2));
    assert_eq!(name_range(&ls, 3, "c"), rng(2, 2, 3));
}
