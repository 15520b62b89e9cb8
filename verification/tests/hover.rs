use kyte::hover::{compute_hover, member_hover, symbol_hover};
use kyte::keywords::keyword_hover;

const TEXT: &str = "/// Adds two numbers.\nfn add(int a, int b) -> int {\n    return a + b;\n}\nstruct Point {\n    int x;\n    float y;\n}\n@main(main) {\n    int total = 1;\n    @worker(thread) {\n    }\n}\n";

fn s(x: &str) -> String {
    x.to_string()
}

#[test]
fn hover_on_a_function_shows_signature_and_doc() {
    let h = symbol_hover(TEXT, "add", 0).unwrap();
    assert!(h.starts_with("```kyte\nfn add(int a, int b) -> int\n```\n\n---\n\n"), "{}", h);
    assert!(h.contains("Adds two numbers."), "{}", h);
}

#[test]
fn hover_on_a_struct_lists_its_fields() {
    assert_eq!(symbol_hover(TEXT, "Point", 0), Some(s("```kyte\nstruct Point {\n    x: int;\n    y: float;\n}\n```")));
}

#[test]
fn hover_on_anchors_and_their_children() {
    assert_eq!(symbol_hover(TEXT, "main", 0), Some(s("```kyte\n@main(main)\n```")));
    assert_eq!(symbol_hover(TEXT, "worker", 0), Some(s("```kyte\n@worker(thread)\n```")));
}

#[test]
fn hover_falls_back_to_local_variables() {
    assert_eq!(symbol_hover(TEXT, "total", 9), Some(s("```kyte\nint total\n```\n\n*Local variable*")));
    assert_eq!(symbol_hover(TEXT, "total", 3), None);
    assert_eq!(symbol_hover(TEXT, "nothing", 12), None);
}

#[test]
fn hover_on_a_struct_field_through_a_variable() {
    let text = "struct Point {\n    int x;\n}\n@main(main) {\n    Point p = Point { x: 1 };\n}\n";
    assert_eq!(member_hover(text, "p", "x"), Some(s("```kyte\nPoint.x: int\n```\n\n*Struct field*")));
    assert_eq!(member_hover(text, "p", "y"), None);
    assert_eq!(member_hover(text, "q", "x"), None);
}

#[test]
fn hover_at_a_position_picks_keyword_member_or_declaration() {
    let text = "struct Point {\n    int x;\n}\n@main(main) {\n    Point p = Point { x: 1 };\n    int y = p.x;\n}\n";
    let member = compute_hover(text, 5, 14).unwrap();
    assert_eq!(member.contents, "```kyte\nPoint.x: int\n```\n\n*Struct field*");
    assert_eq!((member.range.start.line, member.range.start.character), (5, 14));
    assert_eq!((member.range.end.line, member.range.end.character), (5, 15));
    let decl = compute_hover(text, 4, 6).unwrap();
    assert_eq!(decl.contents, "```kyte\nstruct Point {\n    x: int;\n}\n```");
    assert_eq!((decl.range.start.character, decl.range.end.character), (4, 9));
    let kw = compute_hover(text, 5, 5).unwrap();
    assert_eq!(Some(kw.contents), keyword_hover("int"));
    assert_eq!((kw.range.start.character, kw.range.end.character), (4, 7));
    assert_eq!(compute_hover(text, 5, 7), None);
    assert_eq!(compute_hover(text, 5, 40), None);
    assert_eq!(compute_hover(text, 42, 0), None);
    assert_eq!(compute_hover(text, 5, 8).unwrap().contents, "```kyte\nint y\n```\n\n*Local variable*");
    assert_eq!(compute_hover(text, 5, 12), None);
}
