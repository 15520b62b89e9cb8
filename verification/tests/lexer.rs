use kyte::ast::Token;
use kyte::lexer::Lexer;

fn toks(src: &str) -> Vec<(Token, usize, usize)> {
    Lexer::new(src).tokenize()
}

#[test]
fn tokenizes_a_small_program() {
    let t = toks("@app(main)\n    yield add(1, 2);");
    assert_eq!(
        t,
        vec![
            (Token::At, 1, 0),
            (Token::Ident("app".to_string()), 1, 1),
            (Token::LParen, 1, 4),
            (Token::Main, 1, 5),
            (Token::RParen, 1, 9),
            (Token::Yield, 2, 4),
            (Token::Ident("add".to_string()), 2, 10),
            (Token::LParen, 2, 13),
            (Token::IntLit(1), 2, 14),
            (Token::Comma, 2, 15),
            (Token::IntLit(2), 2, 17),
            (Token::RParen, 2, 18),
            (Token::Semicolon, 2, 19),
            (Token::EOF, 2, 20),
        ]
    );
}

#[test]
fn operators_take_the_longest_match() {
    let t: Vec<Token> = toks("+= -> -= - == = != ! <= < >= > && || .. . / /= * *= % %=")
        .into_iter()
        .map(|x| x.0)
        .collect();
    assert_eq!(
        t,
        vec![
            Token::PlusEq, Token::Arrow, Token::MinusEq, Token::Minus, Token::EqEq, Token::Eq,
            Token::Neq, Token::Not, Token::Le, Token::Lt, Token::Ge, Token::Gt, Token::And,
            Token::Or, Token::DotDot, Token::Dot, Token::Slash, Token::SlashEq, Token::Star,
            Token::StarEq, Token::Percent, Token::PercentEq, Token::EOF,
        ]
    );
}

#[test]
fn comments_and_whitespace_are_skipped() {
    let t = toks("// all of this\n  x // and this\n");
    assert_eq!(t, vec![(Token::Ident("x".to_string()), 2, 2), (Token::EOF, 3, 0)]);
}

#[test]
fn numbers_and_ranges() {
    let t: Vec<Token> = toks("0..10 3.14 7. 42").into_iter().map(|x| x.0).collect();
    assert_eq!(
        t,
        vec![
            Token::IntLit(0),
            Token::DotDot,
            Token::IntLit(10),
            Token::FloatLit("3.14".to_string()),
            Token::FloatLit("7.".to_string()),
            Token::IntLit(42),
            Token::EOF,
        ]
    );
}

#[test]
fn integer_overflow_is_reported() {
    let mut lx = Lexer::new("9223372036854775807 9223372036854775808");
    let t = lx.tokenize();
    assert_eq!(t[0].0, Token::IntLit(9223372036854775807));
    assert_eq!(t[1].0, Token::IntLit(0));
    assert_eq!(
        lx.errors,
        vec!["Invalid integer literal '9223372036854775808' (overflow or bad format) at line 1:39"
            .to_string()]
    );
}

#[test]
fn string_escapes() {
    let t = toks(r#""a\nb\t\"q\" \x41\u{1F600}\u00e9 \z \x""#);
    assert_eq!(
        t[0].0,
        Token::StringLit("a\nb\t\"q\" A\u{1F600}\u{e9} \\z ?".to_string())
    );
}

#[test]
fn bad_escapes_are_reported() {
    let mut lx = Lexer::new("\"\\x\" \"\\u{d800}\" \"\\u\"");
    let t = lx.tokenize();
    assert_eq!(t[0].0, Token::StringLit("?".to_string()));
    assert_eq!(t[1].0, Token::StringLit("\u{FFFD}".to_string()));
    assert_eq!(t[2].0, Token::StringLit("\u{FFFD}".to_string()));
    assert_eq!(
        lx.errors,
        vec![
            "Invalid hex escape '\\x' at line 1:3".to_string(),
            "Invalid unicode codepoint '\\ud800' at line 1:14".to_string(),
            "Invalid unicode escape '\\u' at line 1:19".to_string(),
        ]
    );
}

#[test]
fn unterminated_string_runs_to_the_end() {
    let t = toks("\"abc");
    assert_eq!(t, vec![(Token::StringLit("abc".to_string()), 1, 0), (Token::EOF, 1, 4)]);
    let t = toks("\"abc\\");
    assert_eq!(t[0].0, Token::StringLit("abc\\".to_string()));
}

#[test]
fn unexpected_characters_are_reported_and_skipped() {
    let mut lx = Lexer::new("a & b | c $");
    let t: Vec<Token> = lx.tokenize().into_iter().map(|x| x.0).collect();
    assert_eq!(
        t,
        vec![
            Token::Ident("a".to_string()),
            Token::Ident("b".to_string()),
            Token::Ident("c".to_string()),
            Token::EOF,
        ]
    );
    assert_eq!(
        lx.errors,
        vec![
            "Unexpected character '&' at line 1:2 \u{2014} did you mean '&&'?".to_string(),
            "Unexpected character '|' at line 1:6 \u{2014} did you mean '||'?".to_string(),
            "Unexpected character '$' at line 1:10".to_string(),
        ]
    );
}

#[test]
fn keywords_and_identifiers() {
    let t: Vec<Token> = toks("fn Vault Kill Exit int u64 enum _x x1 café")
        .into_iter()
        .map(|x| x.0)
        .collect();
    assert_eq!(
        t,
        vec![
            Token::Function,
            Token::Vault,
            Token::Kill,
            Token::Exit,
            Token::Int,
            Token::TyU64,
            Token::Ident("enum".to_string()),
            Token::Ident("_x".to_string()),
            Token::Ident("x1".to_string()),
            Token::Ident("café".to_string()),
            Token::EOF,
        ]
    );
}

#[test]
fn second_tokenize_gives_only_eof() {
    let mut lx = Lexer::new("x");
    let _ = lx.tokenize();
    assert_eq!(lx.tokenize(), vec![(Token::EOF, 1, 1)]);
}

#[test]
fn vault_is_a_keyword_in_either_case() {
    let t = toks("vault int buffer = 1024;");
    assert_eq!(t[0].0, Token::Vault);
    assert_eq!(t[1].0, Token::Int);
    assert_eq!(toks("Vault int b = 1;")[0].0, Token::Vault);
    assert_eq!(toks("vaults")[0].0, Token::Ident("vaults".to_string()));
}

#[test]
fn kill_and_exit_in_either_case() {
    assert_eq!(toks("exit;")[0].0, Token::Exit);
    assert_eq!(toks("Exit;")[0].0, Token::Exit);
    assert_eq!(toks("kill;")[0].0, Token::Kill);
    assert_eq!(toks("Kill;")[0].0, Token::Kill);
    assert_eq!(toks("exits")[0].0, Token::Ident("exits".to_string()));
}
