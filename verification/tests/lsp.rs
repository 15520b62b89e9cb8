use kyte::ast::{AnchorKind, Ty};
use kyte::cache::{cached_ir_name, cached_obj_name, obj_path_for};
use kyte::keywords::{keyword_hover, keyword_snippet_items, ItemKind};
use kyte::lsp::{
    anchor_kind_str, extract_doc_comment, extract_trailing_ident, extract_undeclared_fn,
    extract_undeclared_var, extract_unused_var, find_insert_line_for_fn, format_with_doc,
    indentation_at, infer_var_type, local_var_hover, ty_str, word_at,
};

fn s(x: &str) -> String {
    x.to_string()
}

#[test]
fn names_in_messages() {
    assert_eq!(extract_undeclared_var("Undeclared variable 'foo'"), Some(s("foo")));
    assert_eq!(extract_undeclared_fn("Undeclared function 'do_it'"), Some(s("do_it")));
    assert_eq!(extract_unused_var("Variable 'x1' is declared but never used"), Some(s("x1")));
    assert_eq!(extract_undeclared_var("no quotes here"), None);
    assert_eq!(extract_undeclared_var("empty '' name"), None);
    assert_eq!(extract_undeclared_var("a 'b-c' d"), Some(s("b")));
    assert_eq!(extract_undeclared_var("open 'abc"), Some(s("abc")));
}

#[test]
fn indentation_of_lines() {
    let text = "fn a\n    \tx = 1;\n";
    assert_eq!(indentation_at(text, 1), "    \t");
    assert_eq!(indentation_at(text, 0), "");
    assert_eq!(indentation_at(text, 5), "");
}

#[test]
fn insert_line_for_a_new_function() {
    let text = "@main(main) {\n  x\n}\nfn helper() {\n  y\n}";
    assert_eq!(find_insert_line_for_fn(text, 4), 3);
    assert_eq!(find_insert_line_for_fn(text, 3), 3);
    assert_eq!(find_insert_line_for_fn(text, 2), 0);
    assert_eq!(find_insert_line_for_fn(text, 40), 3);
}

#[test]
fn trailing_identifiers() {
    assert_eq!(extract_trailing_ident("let x = user"), "user");
    assert_eq!(extract_trailing_ident("foo."), "");
    assert_eq!(extract_trailing_ident("a b_1"), "b_1");
    assert_eq!(extract_trailing_ident(""), "");
}

#[test]
fn signatures_with_documentation() {
    assert_eq!(format_with_doc("sig", ""), "sig");
    assert_eq!(
        format_with_doc("sig", "doc ```kyte\ncode\n```"),
        "sig\n\n---\n\ndoc ```\ncode\n```"
    );
}

#[test]
fn anchor_kinds_and_types() {
    assert_eq!(anchor_kind_str(&AnchorKind::Main), "main");
    assert_eq!(anchor_kind_str(&AnchorKind::Plain), "plain");
    assert_eq!(anchor_kind_str(&AnchorKind::Thread), "thread");
    assert_eq!(anchor_kind_str(&AnchorKind::Event(s("error"))), "event(error)");
    assert_eq!(ty_str(&Ty::Array(Box::new(Ty::String))), "string[]");
}

#[test]
fn words_under_the_cursor() {
    let text = "int x = 1;\nlet count_2 = 1";
    assert_eq!(word_at(text, 1, 6), Some(s("count_2")));
    assert_eq!(word_at(text, 1, 4), Some(s("count_2")));
    assert_eq!(word_at(text, 1, 3), None);
    assert_eq!(word_at(text, 0, 4), Some(s("x")));
    assert_eq!(word_at(text, 2, 0), None);
    assert_eq!(word_at(text, 0, 99), None);
}

#[test]
fn user_types_of_variables() {
    let text = "int x = 1;\n  User u = User {};\nUser v;";
    assert_eq!(infer_var_type(text, "u"), Some(s("User")));
    assert_eq!(infer_var_type(text, "v"), Some(s("User")));
    assert_eq!(infer_var_type(text, "x"), None);
    assert_eq!(infer_var_type(text, "w"), None);
}

#[test]
fn doc_comments_above_an_item() {
    let src = "// not doc\n/// Adds two numbers.\n/// Example:\n///     add(1, 2)\nfn add(int a, int b) -> int {";
    assert_eq!(
        extract_doc_comment(src, 5),
        "Adds two numbers.  \n\nExample:  \n\n```\nadd(1, 2)\n```"
    );
    assert_eq!(extract_doc_comment(src, 1), "");
    assert_eq!(extract_doc_comment(src, 0), "");
    assert_eq!(extract_doc_comment(src, 9), "");
    let fenced = "/// ```\n///   raw\n/// ```\nfn f() {}";
    assert_eq!(extract_doc_comment(fenced, 4), "```\n  raw\n```");
}

#[test]
fn hovers_of_local_variables() {
    let text = "int count = 0;\nVault bool flag = true;\nfor i in 0..3 {";
    assert_eq!(
        local_var_hover(text, "count", 0),
        Some(s("```kyte\nint count\n```\n\n*Local variable*"))
    );
    assert_eq!(
        local_var_hover(text, "flag", 5),
        Some(s("```kyte\nVault bool flag\n```\n\n*Managed-memory variable (auto-freed)*"))
    );
    assert_eq!(local_var_hover(text, "flag", 0), None);
    assert_eq!(
        local_var_hover(text, "i", 2),
        Some(s("```kyte\nfor i in ...\n```\n\n*Loop variable (int)*"))
    );
    assert_eq!(local_var_hover(text, "zz", 2), None);
}

#[test]
fn keyword_hovers() {
    assert_eq!(
        keyword_hover("int"),
        Some(s("**int** \u{2014} 64-bit signed integer\n\n```kyte\nint x = 42;\n```"))
    );
    assert_eq!(keyword_hover("else"), Some(s("**else** \u{2014} alternative branch of `if`")));
    assert_eq!(keyword_hover("foo"), None);
    assert!(keyword_hover("catch").unwrap().contains("**Semantics:**"));
}

#[test]
fn keyword_snippets() {
    let items = keyword_snippet_items();
    assert_eq!(items.len(), 40);
    assert_eq!(items[0].label, "fn");
    assert_eq!(items[0].snippet, "fn ${1:name}(${2:int param}) -> ${3:int} {\n\t$0\n}");
    assert_eq!(items[0].kind, ItemKind::Snippet);
    let print = items.iter().find(|k| k.label == "print").unwrap();
    assert_eq!(print.kind, ItemKind::Function);
    assert_eq!(print.detail, "Print to stdout");
    assert_eq!(items[39].label, "const");
}

#[test]
fn cache_file_names() {
    assert_eq!(cached_obj_name(255), "00000000000000ff.o");
    assert_eq!(cached_ir_name(u64::MAX), "ffffffffffffffff.ll");
    assert_eq!(cached_obj_name(0x0123_4567_89ab_cdef), "0123456789abcdef.o");
    assert_eq!(obj_path_for("main.ky"), "main.o");
    assert_eq!(obj_path_for("a.ky/b.ky"), "a.o/b.o");
    assert_eq!(obj_path_for("main.txt"), "output.o");
    assert_eq!(obj_path_for("ky"), "output.o");
}
