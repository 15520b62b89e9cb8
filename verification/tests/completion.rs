use kyte::keywords::keyword_snippet_items;
use kyte::completion::{
    compute_completions, dot_completions, extract_decl_completions, extract_decl_completions_labeled, local_var_completions,
    CompletionKind, InsertFormat,
};

const TEXT: &str = "fn add(int a, int b) -> int {\n    return a + b;\n}\nstruct Point {\n    int x;\n    int y;\n}\n@main(main) {\n}\n";

#[test]
fn declarations_offer_calls_and_literals() {
    let items = extract_decl_completions(TEXT);
    assert_eq!(items.len(), 2);
    assert_eq!(items[0].label, "add");
    assert_eq!(items[0].kind, CompletionKind::Function);
    assert_eq!(items[0].detail, "fn(int a, int b) -> int");
    assert_eq!(items[0].insert_text, "add(${1:a}, ${2:b})");
    assert_eq!(items[0].format, InsertFormat::Snippet);
    assert_eq!(items[1].label, "Point");
    assert_eq!(items[1].kind, CompletionKind::Struct);
    assert_eq!(items[1].detail, "struct");
    assert_eq!(items[1].insert_text, "Point { x: ${1:value}, y: ${2:value} }");
}

#[test]
fn completions_from_another_file_say_so() {
    let items = extract_decl_completions_labeled(TEXT, "lib.ky");
    assert_eq!(items[0].detail, "fn(int a, int b) -> int [from lib.ky]");
    assert_eq!(items[1].detail, "struct [from lib.ky]");
    let none = extract_decl_completions_labeled("fn f() {\n}\n", "");
    assert_eq!(none[0].detail, "fn()");
    assert_eq!(none[0].insert_text, "f()");
}

#[test]
fn after_a_dot_the_fields_of_the_variable_s_struct() {
    let text = "struct Point {\n    int x;\n    float y;\n}\n@main(main) {\n    Point p = Point { x: 1, y: 2.0 };\n}\n";
    let items = dot_completions(text, "p").unwrap();
    assert_eq!(items.len(), 2);
    assert_eq!(items[0].label, "x");
    assert_eq!(items[0].kind, CompletionKind::Field);
    assert_eq!(items[0].detail, "int");
    assert_eq!(items[0].insert_text, "x");
    assert_eq!(items[0].format, InsertFormat::PlainText);
    assert_eq!(items[1].label, "y");
    assert_eq!(items[1].detail, "float");
    assert!(dot_completions(text, "zz").is_none());
}

#[test]
fn locals_above_the_cursor_each_once() {
    let text = "fn g(int a, float b) {\n    int x = 1;\n    Vault bool flag = true;\n    for i in 0..3 {\n    int x = 2;\n    string late = \"s\";\n";
    let items = local_var_completions(text, 4);
    let got: Vec<(String, String)> = items.iter().map(|c| (c.label.clone(), c.detail.clone())).collect();
    assert_eq!(
        got,
        vec![
            ("a".to_string(), "int".to_string()),
            ("b".to_string(), "float".to_string()),
            ("x".to_string(), "int".to_string()),
            ("flag".to_string(), "bool".to_string()),
            ("i".to_string(), "int (loop var)".to_string()),
        ]
    );
    assert!(items.iter().all(|c| c.kind == CompletionKind::Variable && c.format == InsertFormat::PlainText));
    assert_eq!(items[3].insert_text, "flag");
    let all = local_var_completions(text, 100);
    assert_eq!(all.len(), 6);
    assert_eq!(all[5].label, "late");
    assert_eq!(all[5].detail, "string");
}

#[test]
fn completion_list_after_a_dot_and_elsewhere() {
    let text = "fn add(int a, int b) -> int {\n    return a + b;\n}\nstruct Point {\n    int x;\n}\n@main(main) {\n    int x = 1;\n    Point p = Point { x: 1 };\n    p.\n    \n}\n";
    let none: Vec<(String, String)> = Vec::new();
    let dot = compute_completions(text, 9, 6, &none);
    assert_eq!(dot.len(), 1);
    assert_eq!(dot[0].label, "x");
    assert_eq!(dot[0].kind, CompletionKind::Field);
    let imported = vec![("lib.ky".to_string(), "fn add(int z) {\n}\nfn helper() {\n}\n".to_string())];
    let all = compute_completions(text, 10, 4, &imported);
    let n = keyword_snippet_items().len();
    assert_eq!(all[0].label, "fn");
    assert_eq!(all[0].kind, CompletionKind::Snippet);
    assert_eq!(all[0].format, InsertFormat::Snippet);
    let rest: Vec<(String, String)> = all[n..].iter().map(|c| (c.label.clone(), c.detail.clone())).collect();
    assert_eq!(
        rest,
        vec![
            ("add".to_string(), "fn(int a, int b) -> int".to_string()),
            ("Point".to_string(), "struct".to_string()),
            ("a".to_string(), "int".to_string()),
            ("b".to_string(), "int".to_string()),
            ("x".to_string(), "int".to_string()),
            ("helper".to_string(), "fn() [from lib.ky]".to_string()),
        ]
    );
}
