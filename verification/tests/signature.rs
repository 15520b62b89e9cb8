use kyte::signature::compute_signature_help;

const TEXT: &str = "fn add(int a, int b) -> int {\n    return a + b;\n}\nfn noop() {\n}\n@main(main) {\n    int x = add(1, \n    string s = \"\u{e9}\"; add(2\n    noop(\n    foo(1, 2\n    int y = 3;\n}\n";

#[test]
fn signature_of_the_call_at_the_cursor() {
    let h = compute_signature_help(TEXT, 6, 19).unwrap();
    assert_eq!(h.label, "fn add(int a, int b) -> int");
    assert_eq!(h.parameters, vec!["int a".to_string(), "int b".to_string()]);
    assert_eq!(h.active_parameter, 1);
    let first = compute_signature_help(TEXT, 6, 16).unwrap();
    assert_eq!(first.active_parameter, 0);
}

#[test]
fn byte_columns_past_the_end_stop_at_the_line_end() {
    let h = compute_signature_help(TEXT, 7, 200).unwrap();
    assert_eq!(h.label, "fn add(int a, int b) -> int");
    assert_eq!(h.active_parameter, 0);
    let none = compute_signature_help(TEXT, 8, 9).unwrap();
    assert_eq!(none.label, "fn noop()");
    assert!(none.parameters.is_empty());
}

#[test]
fn no_signature_without_a_known_call() {
    assert_eq!(compute_signature_help(TEXT, 9, 12), None);
    assert_eq!(compute_signature_help(TEXT, 10, 8), None);
    assert_eq!(compute_signature_help(TEXT, 6, 14), None);
    assert_eq!(compute_signature_help(TEXT, 40, 0), None);
}
