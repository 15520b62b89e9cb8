use kyte::code_actions::{compute_code_actions, rename_in_text, CodeAction, Diagnostic};
use kyte::diagnostics::Severity;
use kyte::references::TextEdit;
use kyte::symbols::{Position, Range};

fn rng(l0: u32, a: u32, l1: u32, b: u32) -> Range {
    Range { start: Position { line: l0, character: a }, end: Position { line: l1, character: b } }
}

fn diag(line: u32, code: &str, message: &str) -> Diagnostic {
    Diagnostic { range: rng(line, 4, line, 9), severity: Severity::Error, code: code.to_string(), message: message.to_string() }
}

const TEXT: &str = "@main(main) {\n    print(x);\n    int y = 1;\n}\n";

#[test]
fn quick_fixes_for_each_kind_of_diagnostic() {
    let diags = vec![
        diag(1, "E004", "Undeclared variable 'x'"),
        diag(1, "E013", "Undeclared function 'foo'"),
        diag(2, "W001", "Unused variable 'y'"),
        diag(1, "E002", "Type mismatch"),
        diag(7, "E004", "Undeclared variable 'z'"),
    ];
    let actions = compute_code_actions(TEXT, &diags, rng(0, 0, 3, 0));
    assert_eq!(
        actions,
        vec![
            CodeAction {
                title: "Declare 'int x = 0'".to_string(),
                diagnostic: 0,
                edits: vec![TextEdit { range: rng(1, 0, 1, 0), new_text: "    int x = 0;\n".to_string() }],
                is_preferred: true,
            },
            CodeAction {
                title: "Create function 'foo'".to_string(),
                diagnostic: 1,
                edits: vec![TextEdit {
                    range: rng(0, 0, 0, 0),
                    new_text: "\nfn foo() {\n    // TODO\n}\n".to_string(),
                }],
                is_preferred: false,
            },
            CodeAction {
                title: "Rename to '_y' (suppress warning)".to_string(),
                diagnostic: 2,
                edits: vec![TextEdit { range: rng(2, 8, 2, 9), new_text: "_y".to_string() }],
                is_preferred: false,
            },
        ]
    );
}

#[test]
fn a_stub_goes_before_the_enclosing_block() {
    let text = "fn a() {\n}\nfn b() {\n    foo();\n}\n";
    let actions = compute_code_actions(text, &vec![diag(3, "E013", "Undeclared function 'foo'")], rng(3, 0, 3, 0));
    assert_eq!(actions[0].edits[0].range, rng(2, 0, 2, 0));
}

#[test]
fn renaming_finds_whole_words_only() {
    assert_eq!(
        rename_in_text("a ab a_ a", "a", "b"),
        Some(vec![
            TextEdit { range: rng(0, 0, 0, 1), new_text: "b".to_string() },
            TextEdit { range: rng(0, 8, 0, 9), new_text: "b".to_string() },
        ])
    );
    assert_eq!(rename_in_text("xyz", "a", "b"), None);
}
