use kyte::ast::Span;
use kyte::diagnostics::{CompileError, Severity};
use kyte::publish::{failure_diagnostic, parse_panic_position, publish_diagnostics, to_diagnostic};

fn err(code: &'static str, line: usize, col: usize, source_line: &str) -> CompileError {
    CompileError {
        code,
        severity: Severity::Error,
        message: format!("problem {}", code),
        hint: "fix it".to_string(),
        span: Span { line, col },
        source_line: source_line.to_string(),
    }
}

#[test]
fn positions_named_in_messages() {
    assert_eq!(parse_panic_position("unexpected token at line 12:8 near ';'"), Some((11, 8)));
    assert_eq!(parse_panic_position("line 0:3"), Some((0, 3)));
    assert_eq!(parse_panic_position("at line 12"), None);
    assert_eq!(parse_panic_position("at line :3"), None);
    assert_eq!(parse_panic_position("at line 3:"), None);
    assert_eq!(parse_panic_position("at line 99999999999:1"), None);
    assert_eq!(parse_panic_position("at line 4294967295:4294967295"), Some((4294967294, 4294967295)));
    assert_eq!(parse_panic_position("no place given"), None);
}

#[test]
fn a_compiler_diagnostic_as_sent() {
    let mut e = err("E004", 3, 4, "  y = x;  ");
    e.severity = Severity::Warning;
    let d = to_diagnostic(&e);
    assert_eq!((d.range.start.line, d.range.start.character), (2, 4));
    assert_eq!((d.range.end.line, d.range.end.character), (2, 10));
    assert_eq!(d.severity, Severity::Warning);
    assert_eq!(d.code, "E004");
    assert_eq!(d.message, "problem E004\nhint: fix it");
    let blank = to_diagnostic(&err("E001", 0, 0, "   "));
    assert_eq!((blank.range.start.line, blank.range.end.character), (0, 1));
}

#[test]
fn only_the_document_s_own_lines_are_sent() {
    let errs = vec![
        err("E004", 2, 0, "import line"),
        err("E004", 3, 1, "a"),
        err("E018", 4, 0, "b"),
        err("E005", 5, 2, "cc"),
        err("E004", 6, 0, "d"),
    ];
    let lib = publish_diagnostics("fn f() {\n}\n", &errs, 2, 3);
    let got: Vec<(u32, String)> = lib.iter().map(|d| (d.range.start.line, d.code.clone())).collect();
    assert_eq!(got, vec![(0, "E004".to_string()), (2, "E005".to_string())]);
    let prog = publish_diagnostics("@main(main) {\n}\n", &errs, 2, 3);
    let got: Vec<(u32, String)> = prog.iter().map(|d| (d.range.start.line, d.code.clone())).collect();
    assert_eq!(got, vec![(0, "E004".to_string()), (1, "E018".to_string()), (2, "E005".to_string())]);
    let no_lines = publish_diagnostics("@main(main) {}", &errs, 2, 0);
    assert_eq!(no_lines.len(), 1);
}

#[test]
fn a_failed_reading_is_reported_where_its_message_says() {
    let d = failure_diagnostic("bad token at line 4:2");
    assert_eq!((d.range.start.line, d.range.start.character, d.range.end.character), (3, 2, 3));
    assert_eq!(d.message, "Parse error: bad token at line 4:2");
    assert_eq!(d.severity, Severity::Error);
    let nowhere = failure_diagnostic("stack overflow");
    assert_eq!((nowhere.range.start.line, nowhere.range.start.character, nowhere.range.end.character), (0, 0, 1));
}
