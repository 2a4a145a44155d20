//! Tokens: what the scanner makes of a text.

use letpl::scanner::{Scanner, Token, TokenTag};

fn tags(src: &str) -> Vec<TokenTag> {
    let mut scanner = Scanner::new(src);
    let mut tags = Vec::new();
    loop {
        let token = scanner.next_token().expect("a token");
        let done = token.tag == TokenTag::Eof;
        tags.push(token.tag);
        if done {
            return tags;
        }
    }
}

#[test]
fn empty_text_is_the_end() {
    assert_eq!(tags(""), vec![TokenTag::Eof]);
    assert_eq!(tags("  \t\r\n "), vec![TokenTag::Eof]);
    assert_eq!(tags("# only a comment"), vec![TokenTag::Eof]);
}

#[test]
fn the_end_repeats() {
    let mut scanner = Scanner::new("x");
    assert_eq!(scanner.next_token(), Ok(Token::new(TokenTag::Identifier(String::from("x")), 1)));
    assert_eq!(scanner.next_token(), Ok(Token::new(TokenTag::Eof, 1)));
    assert_eq!(scanner.next_token(), Ok(Token::new(TokenTag::Eof, 1)));
}

#[test]
fn keywords_are_recognised() {
    assert_eq!(
        tags("assert bool else false if in int let letrec proc then true zero?"),
        vec![
            TokenTag::Assert,
            TokenTag::Bool,
            TokenTag::Else,
            TokenTag::False,
            TokenTag::If,
            TokenTag::In,
            TokenTag::Int,
            TokenTag::Let,
            TokenTag::LetRec,
            TokenTag::Proc,
            TokenTag::Then,
            TokenTag::True,
            TokenTag::IsZero,
            TokenTag::Eof,
        ]
    );
}

#[test]
fn words_that_only_begin_like_keywords_are_identifiers() {
    assert_eq!(
        tags("lets iff zero _x x1 is? Let"),
        vec![
            TokenTag::Identifier(String::from("lets")),
            TokenTag::Identifier(String::from("iff")),
            TokenTag::Identifier(String::from("zero")),
            TokenTag::Identifier(String::from("_x")),
            TokenTag::Identifier(String::from("x1")),
            TokenTag::Identifier(String::from("is?")),
            TokenTag::Identifier(String::from("Let")),
            TokenTag::Eof,
        ]
    );
}

#[test]
fn symbols_are_recognised() {
    assert_eq!(
        tags("( ) : , - = -> -(->"),
        vec![
            TokenTag::LeftParen,
            TokenTag::RightParen,
            TokenTag::Colon,
            TokenTag::Comma,
            TokenTag::MinusSign,
            TokenTag::Equal,
            TokenTag::Arrow,
            TokenTag::MinusSign,
            TokenTag::LeftParen,
            TokenTag::Arrow,
            TokenTag::Eof,
        ]
    );
}

#[test]
fn numbers_are_read_in_decimal() {
    assert_eq!(
        tags("0 7 0042 9223372036854775807"),
        vec![
            TokenTag::Number(0),
            TokenTag::Number(7),
            TokenTag::Number(42),
            TokenTag::Number(9223372036854775807),
            TokenTag::Eof,
        ]
    );
}

#[test]
fn a_number_ends_where_its_digits_end() {
    assert_eq!(
        tags("12ab"),
        vec![TokenTag::Number(12), TokenTag::Identifier(String::from("ab")), TokenTag::Eof]
    );
}

#[test]
fn a_number_that_does_not_fit_is_an_error() {
    let mut scanner = Scanner::new("9223372036854775808");
    assert_eq!(
        scanner.next_token(),
        Err(String::from("'9223372036854775808' cannot be converted to a number"))
    );
}

#[test]
fn an_unknown_character_is_an_error() {
    let mut scanner = Scanner::new("x + y");
    assert!(scanner.next_token().is_ok());
    assert_eq!(scanner.next_token(), Err(String::from("unexpected character '+'")));
    let mut scanner = Scanner::new(">");
    assert_eq!(scanner.next_token(), Err(String::from("unexpected character '>'")));
}

#[test]
fn tokens_carry_the_line_on_which_they_start() {
    let mut scanner = Scanner::new("a\nb # c d\n\n  e");
    assert_eq!(scanner.next_token(), Ok(Token::new(TokenTag::Identifier(String::from("a")), 1)));
    assert_eq!(scanner.next_token(), Ok(Token::new(TokenTag::Identifier(String::from("b")), 2)));
    assert_eq!(scanner.next_token(), Ok(Token::new(TokenTag::Identifier(String::from("e")), 4)));
    assert_eq!(scanner.next_token(), Ok(Token::new(TokenTag::Eof, 4)));
}

#[test]
fn a_comment_ends_with_its_line() {
    assert_eq!(
        tags("1 # 2 # 3\n4"),
        vec![TokenTag::Number(1), TokenTag::Number(4), TokenTag::Eof]
    );
}

#[test]
fn tags_have_names() {
    assert_eq!(TokenTag::Arrow.to_string(), "->");
    assert_eq!(TokenTag::Eof.to_string(), "EOF");
    assert_eq!(TokenTag::IsZero.to_string(), "zero?");
    assert_eq!(TokenTag::Number(5).to_string(), "number");
    assert_eq!(TokenTag::Identifier(String::from("x")).to_string(), "identifier(x)");
    assert_eq!(TokenTag::True.to_string(), "true");
}

#[test]
fn tags_are_equal_by_content() {
    assert!(TokenTag::Number(1) == TokenTag::Number(1));
    assert!(TokenTag::Number(1) != TokenTag::Number(2));
    assert!(TokenTag::Identifier(String::from("a")) == TokenTag::Identifier(String::from("a")));
    assert!(TokenTag::Identifier(String::from("a")) != TokenTag::Identifier(String::from("b")));
    assert!(TokenTag::If != TokenTag::In);
}
