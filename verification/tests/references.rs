use kyte::references::{compute_references, compute_rename, find_references, TextEdit};
use kyte::symbols::{Position, Range};

fn rng(line: u32, a: u32, b: u32) -> Range {
    Range { start: Position { line, character: a }, end: Position { line, character: b } }
}

const TEXT: &str = "int total = 1;\ntotal += total_x;\nprint(total);\n";

#[test]
fn references_are_whole_words() {
    assert_eq!(compute_references(TEXT, 0, 5), vec![rng(0, 4, 9), rng(1, 0, 5), rng(2, 6, 11)]);
    assert_eq!(compute_references(TEXT, 1, 12), vec![rng(1, 9, 16)]);
    assert_eq!(compute_references(TEXT, 0, 3), vec![]);
}

#[test]
fn reference_positions_count_bytes() {
    assert_eq!(find_references("é total\ntotaltotal total", "total"), vec![rng(0, 3, 8), rng(1, 11, 16)]);
}

#[test]
fn rename_edits_every_reference() {
    let edits = compute_rename(TEXT, 2, 7, "sum").unwrap();
    let want: Vec<TextEdit> = [rng(0, 4, 9), rng(1, 0, 5), rng(2, 6, 11)]
        .iter()
        .map(|r| TextEdit { range: *r, new_text: "sum".to_string() })
        .collect();
    assert_eq!(edits, want);
    assert_eq!(compute_rename(TEXT, 0, 3, "x"), None);
}
