use gcl::scanner::{LexError, Scanner};
use gcl::token::{type_for_id, Token, TokenType};

fn tokens(text: &str) -> Vec<TokenType> {
    let mut s = Scanner::new(text);
    let mut out = Vec::new();
    loop {
        let t = s.scan().expect("no lexical error");
        let done = t.typ == TokenType::EOF;
        out.push(t.typ);
        if done {
            return out;
        }
    }
}

#[test]
fn eof_repeats_after_end() {
    let mut s = Scanner::new("x");
    assert_eq!(s.scan().unwrap().typ, TokenType::ID("x".to_string()));
    for _ in 0..3 {
        assert_eq!(s.scan().unwrap(), Token { typ: TokenType::EOF, line: 1 });
    }
}

#[test]
fn eof_repeats_after_unterminated_comment() {
    let mut s = Scanner::new("# no newline");
    assert_eq!(s.scan().unwrap(), Token { typ: TokenType::EOF, line: 1 });
    assert_eq!(s.scan().unwrap(), Token { typ: TokenType::EOF, line: 1 });
}

#[test]
fn comment_yields_no_tokens_and_one_line() {
    let mut s = Scanner::new("# count\nx");
    assert_eq!(s.scan().unwrap(), Token { typ: TokenType::ID("x".to_string()), line: 2 });
    assert_eq!(s.scan().unwrap(), Token { typ: TokenType::EOF, line: 2 });
}

#[test]
fn newlines_advance_line() {
    let mut s = Scanner::new("a\n\n b");
    assert_eq!(s.scan().unwrap().line, 1);
    assert_eq!(s.scan().unwrap(), Token { typ: TokenType::ID("b".to_string()), line: 3 });
}

#[test]
fn lookahead_character_is_scanned_next() {
    assert_eq!(tokens("-x"), vec![TokenType::MINUS, TokenType::ID("x".to_string()), TokenType::EOF]);
    assert_eq!(tokens("<1"), vec![TokenType::LT, TokenType::NUM("1".to_string()), TokenType::EOF]);
    assert_eq!(tokens(">("), vec![TokenType::GT, TokenType::LPAREN, TokenType::EOF]);
    assert_eq!(tokens("\\y"), vec![TokenType::DIVIDE, TokenType::ID("y".to_string()), TokenType::EOF]);
    assert_eq!(tokens(">"), vec![TokenType::GT, TokenType::EOF]);
}

#[test]
fn two_character_operators() {
    assert_eq!(
        tokens(":= -> <= >= \\= []"),
        vec![
            TokenType::ASSIGN,
            TokenType::ARROW,
            TokenType::GE,
            TokenType::LE,
            TokenType::NE,
            TokenType::BOX,
            TokenType::EOF
        ]
    );
}

#[test]
fn single_symbols_and_unsupported() {
    assert_eq!(
        tokens("( ) = + * @ ^ ?"),
        vec![
            TokenType::LPAREN,
            TokenType::RPAREN,
            TokenType::EQ,
            TokenType::PLUS,
            TokenType::TIMES,
            TokenType::SQRT,
            TokenType::SQUARE,
            TokenType::UNSUP('?'),
            TokenType::EOF
        ]
    );
}

#[test]
fn words_numbers_and_keywords() {
    assert_eq!(
        tokens("var abc rav 123 fa"),
        vec![
            TokenType::VAR,
            TokenType::ID("abc".to_string()),
            TokenType::RAV,
            TokenType::NUM("123".to_string()),
            TokenType::FA,
            TokenType::EOF
        ]
    );
    assert_eq!(tokens("ab12"), vec![TokenType::ID("ab".to_string()), TokenType::NUM("12".to_string()), TokenType::EOF]);
}

#[test]
fn colon_without_equals_is_an_error() {
    let mut s = Scanner::new(":x");
    assert_eq!(s.scan(), Err(LexError { line: 1, expected: '=', found: Some('x') }));
    let mut s = Scanner::new("[");
    assert_eq!(s.scan(), Err(LexError { line: 1, expected: ']', found: None }));
}

#[test]
fn keyword_table() {
    assert_eq!(type_for_id("print".to_string()), TokenType::PRINT);
    assert_eq!(type_for_id("else".to_string()), TokenType::ELSE);
    assert_eq!(type_for_id("st".to_string()), TokenType::ST);
    assert_eq!(type_for_id("prints".to_string()), TokenType::ID("prints".to_string()));
}
