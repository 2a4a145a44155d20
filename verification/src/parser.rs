//! A recursive descent parser.
//!
//! `parsed` says which expression a source text is; `parse` computes it.
//! The parser reads the text token by token, and looks at one token at a
//! time.

use vstd::prelude::*;
use vstd::string::StringExecFns;
use crate::ast::{Expr, ExprView, Param, ParamView, Program};
use crate::scanner::{
    digits_len, is_alpha_char, is_digit_char, scan, scan_error_message, skipped, tag_text,
    word_len, Cursor, ScanError, Scanner, TagView, Token, TokenTag, TokenView,
};
use crate::types::{Type, TypeView};

verus! {

/// The state of a parse: the token that the parser looks at, and the place
/// in the text after that token.
pub struct ParserView {
    pub current: TokenView,
    pub cursor: Cursor,
}

/// Why a text is no program.
pub enum SyntaxError {
    /// The text does not consist of tokens.
    Scan(ScanError),
    /// One token was needed and another was found.
    Expected { expected: TagView, found: TagView },
    /// An identifier was needed and another token was found.
    ExpectedIdentifier { found: TagView },
    /// No expression or type begins with this token.
    Unexpected { found: TagView },
}

/// The message of a syntax error.
pub open spec fn syntax_error_message(error: SyntaxError) -> Seq<char> {
    match error {
        SyntaxError::Scan(error) => scan_error_message(error),
        SyntaxError::Expected { expected, found } => "expected `"@ + tag_text(expected)
            + "` but got `"@ + tag_text(found) + "`"@,
        SyntaxError::ExpectedIdentifier { found } => "expected identifier but found "@
            + tag_text(found),
        SyntaxError::Unexpected { found } => "unexpected token `"@ + tag_text(found) + "`"@,
    }
}

impl ParserView {
    /// How much is left to parse: the characters after the current token,
    /// and the current token unless it is the end of the text.
    pub open spec fn left(self) -> nat {
        if self.current.tag is Eof {
            self.cursor.rest.len()
        } else {
            self.cursor.rest.len() + 1
        }
    }

    /// The state after the next token is read.
    pub open spec fn advanced(self) -> Result<ParserView, SyntaxError> {
        match scan(self.cursor) {
            Ok((token, cursor)) => Ok(ParserView { current: token, cursor }),
            Err(error) => Err(SyntaxError::Scan(error)),
        }
    }

    /// The state after the current token, which has to be `tag`.
    pub open spec fn expect(self, tag: TagView) -> Result<ParserView, SyntaxError> {
        if self.current.tag == tag {
            self.advanced()
        } else {
            Err(SyntaxError::Expected { expected: tag, found: self.current.tag })
        }
    }

    /// The current token, which has to be an identifier, and the state
    /// after it.
    pub open spec fn identifier(self) -> Result<(Seq<char>, ParserView), SyntaxError> {
        match self.current.tag {
            TagView::Identifier(name) => match self.advanced() {
                Ok(next) => Ok((name, next)),
                Err(error) => Err(error),
            },
            found => Err(SyntaxError::ExpectedIdentifier { found }),
        }
    }
}

/// The result of a parse that has not gone back in the text. No parse does:
/// see `lemma_parse_moves_on`.
pub open spec fn onward<T>(from: ParserView, result: Result<(T, ParserView), SyntaxError>) -> Result<
    (T, ParserView),
    SyntaxError,
> {
    match result {
        Ok((_, after)) => if after.left() <= from.left() {
            result
        } else {
            Err(SyntaxError::Unexpected { found: from.current.tag })
        },
        Err(_) => result,
    }
}

/// Skipping whitespace and comments does not go back in the text.
pub proof fn lemma_skipped_moves_on(cursor: Cursor, in_comment: bool)
    ensures
        skipped(cursor, in_comment).rest.len() <= cursor.rest.len(),
    decreases cursor.rest.len(),
{
    if cursor.rest.len() > 0 {
        lemma_skipped_moves_on(cursor.advanced(), true);
        lemma_skipped_moves_on(cursor.advanced(), false);
    }
}

/// A word that begins with a word character has at least that character,
/// and no more characters than the text.
pub proof fn lemma_word_len(text: Seq<char>)
    ensures
        word_len(text) <= text.len(),
        text.len() > 0 && is_alpha_char(text[0]) ==> word_len(text) >= 1,
    decreases text.len(),
{
    if text.len() > 0 {
        lemma_word_len(text.drop_first());
    }
}

/// A number that begins with a digit has at least that digit, and no more
/// digits than the text has characters.
pub proof fn lemma_digits_len(text: Seq<char>)
    ensures
        digits_len(text) <= text.len(),
        text.len() > 0 && is_digit_char(text[0]) ==> digits_len(text) >= 1,
    decreases text.len(),
{
    if text.len() > 0 {
        lemma_digits_len(text.drop_first());
    }
}

/// Reading a token does not go back in the text, and goes on in it unless
/// the token is the end of the text.
pub proof fn lemma_scan_moves_on(cursor: Cursor)
    ensures
        scan(cursor) matches Ok((token, after)) ==> after.rest.len() <= cursor.rest.len() && (
        !(token.tag is Eof) ==> after.rest.len() < cursor.rest.len()),
{
    let start = skipped(cursor, false);
    lemma_skipped_moves_on(cursor, false);
    lemma_word_len(start.rest);
    lemma_digits_len(start.rest);
}

/// Going past a token that is not the end of the text leaves less to parse.
pub proof fn lemma_advanced_moves_on(p: ParserView)
    ensures
        p.advanced() matches Ok(next) ==> next.left() <= p.left() && (!(p.current.tag is Eof)
            ==> next.left() < p.left()),
{
    lemma_scan_moves_on(p.cursor);
}

/// The type that the text begins with: `int`, `bool` or `(T1 -> T2)`.
pub open spec fn parsed_type(p: ParserView) -> Result<(TypeView, ParserView), SyntaxError>
    decreases p.left(),
{
    match p.current.tag {
        TagView::Int => match p.advanced() {
            Err(error) => Err(error),
            Ok(next) => Ok((TypeView::Int, next)),
        },
        TagView::Bool => match p.advanced() {
            Err(error) => Err(error),
            Ok(next) => Ok((TypeView::Bool, next)),
        },
        TagView::LeftParen => match p.advanced() {
            Err(error) => Err(error),
            Ok(s1) => {
                proof {
                    lemma_advanced_moves_on(p);
                }
                match onward(s1, parsed_type(s1)) {
                    Err(error) => Err(error),
                    Ok((t_param, s2)) => match s2.expect(TagView::Arrow) {
                        Err(error) => Err(error),
                        Ok(s3) => {
                            proof {
                                lemma_advanced_moves_on(s2);
                            }
                            match parsed_type(s3) {
                                Err(error) => Err(error),
                                Ok((t_result, s4)) => match s4.expect(TagView::RightParen) {
                                    Err(error) => Err(error),
                                    Ok(s5) => Ok(
                                        (
                                            TypeView::Proc(
                                                Box::new(t_param),
                                                Box::new(t_result),
                                            ),
                                            s5,
                                        ),
                                    ),
                                },
                            }
                        },
                    },
                }
            },
        },
        found => Err(SyntaxError::Unexpected { found }),
    }
}

/// The parameter that the text begins with: a name, a colon and a type.
pub open spec fn parsed_param(p: ParserView) -> Result<(ParamView, ParserView), SyntaxError> {
    match p.identifier() {
        Err(error) => Err(error),
        Ok((name, s1)) => match s1.expect(TagView::Colon) {
            Err(error) => Err(error),
            Ok(s2) => match parsed_type(s2) {
                Err(error) => Err(error),
                Ok((t, s3)) => Ok((ParamView { name, t }, s3)),
            },
        },
    }
}

/// The expression that the text begins with.
///
/// An expression is a number, `true`, `false`, a name, or one of
/// `-(e1, e2)`, `-(e)`, `zero?(e)`, `assert e1 then e2`,
/// `if e1 then e2 else e3`, `let x = e1 in e2`,
/// `letrec T f(x: T) e1 in e2`, `proc (x: T) e` and `(e1 e2)`.
pub open spec fn parsed_expr(p: ParserView) -> Result<(ExprView, ParserView), SyntaxError>
    decreases p.left(),
{
    match p.current.tag {
        TagView::Number(x) => match p.advanced() {
            Err(error) => Err(error),
            Ok(next) => Ok((ExprView::LiteralInt(x), next)),
        },
        TagView::True => match p.advanced() {
            Err(error) => Err(error),
            Ok(next) => Ok((ExprView::LiteralBool(true), next)),
        },
        TagView::False => match p.advanced() {
            Err(error) => Err(error),
            Ok(next) => Ok((ExprView::LiteralBool(false), next)),
        },
        TagView::Identifier(name) => match p.advanced() {
            Err(error) => Err(error),
            Ok(next) => Ok((ExprView::Name(name), next)),
        },
        // -(e) or -(e1, e2)
        TagView::MinusSign => match p.advanced() {
            Err(error) => Err(error),
            Ok(s1) => match s1.expect(TagView::LeftParen) {
                Err(error) => Err(error),
                Ok(s2) => {
                    proof {
                        lemma_advanced_moves_on(p);
                        lemma_advanced_moves_on(s1);
                    }
                    match onward(s2, parsed_expr(s2)) {
                        Err(error) => Err(error),
                        Ok((left, s3)) => if s3.current.tag == TagView::RightParen {
                            match s3.advanced() {
                                Err(error) => Err(error),
                                Ok(s4) => Ok((ExprView::Negate(Box::new(left)), s4)),
                            }
                        } else {
                            match s3.expect(TagView::Comma) {
                                Err(error) => Err(error),
                                Ok(s4) => {
                                    proof {
                                        lemma_advanced_moves_on(s3);
                                    }
                                    match parsed_expr(s4) {
                                        Err(error) => Err(error),
                                        Ok((right, s5)) => match s5.expect(TagView::RightParen) {
                                            Err(error) => Err(error),
                                            Ok(s6) => Ok(
                                                (
                                                    ExprView::Subtract {
                                                        left: Box::new(left),
                                                        right: Box::new(right),
                                                    },
                                                    s6,
                                                ),
                                            ),
                                        },
                                    }
                                },
                            }
                        },
                    }
                },
            },
        },
        // zero?(e)
        TagView::IsZero => match p.advanced() {
            Err(error) => Err(error),
            Ok(s1) => match s1.expect(TagView::LeftParen) {
                Err(error) => Err(error),
                Ok(s2) => {
                    proof {
                        lemma_advanced_moves_on(p);
                        lemma_advanced_moves_on(s1);
                    }
                    match parsed_expr(s2) {
                        Err(error) => Err(error),
                        Ok((inner, s3)) => match s3.expect(TagView::RightParen) {
                            Err(error) => Err(error),
                            Ok(s4) => Ok((ExprView::IsZero(Box::new(inner)), s4)),
                        },
                    }
                },
            },
        },
        // assert e1 then e2, with the line of `assert`
        TagView::Assert => match p.advanced() {
            Err(error) => Err(error),
            Ok(s1) => {
                proof {
                    lemma_advanced_moves_on(p);
                }
                match onward(s1, parsed_expr(s1)) {
                    Err(error) => Err(error),
                    Ok((test, s2)) => match s2.expect(TagView::Then) {
                        Err(error) => Err(error),
                        Ok(s3) => {
                            proof {
                                lemma_advanced_moves_on(s2);
                            }
                            match parsed_expr(s3) {
                                Err(error) => Err(error),
                                Ok((body, s4)) => Ok(
                                    (
                                        ExprView::Assert {
                                            line: p.current.line as usize,
                                            test: Box::new(test),
                                            body: Box::new(body),
                                        },
                                        s4,
                                    ),
                                ),
                            }
                        },
                    },
                }
            },
        },
        // if e1 then e2 else e3
        TagView::If => match p.advanced() {
            Err(error) => Err(error),
            Ok(s1) => {
                proof {
                    lemma_advanced_moves_on(p);
                }
                match onward(s1, parsed_expr(s1)) {
                    Err(error) => Err(error),
                    Ok((test, s2)) => match s2.expect(TagView::Then) {
                        Err(error) => Err(error),
                        Ok(s3) => {
                            proof {
                                lemma_advanced_moves_on(s2);
                            }
                            match onward(s3, parsed_expr(s3)) {
                                Err(error) => Err(error),
                                Ok((consequent, s4)) => match s4.expect(TagView::Else) {
                                    Err(error) => Err(error),
                                    Ok(s5) => {
                                        proof {
                                            lemma_advanced_moves_on(s4);
                                        }
                                        match parsed_expr(s5) {
                                            Err(error) => Err(error),
                                            Ok((alternate, s6)) => Ok(
                                                (
                                                    ExprView::If {
                                                        test: Box::new(test),
                                                        consequent: Box::new(consequent),
                                                        alternate: Box::new(alternate),
                                                    },
                                                    s6,
                                                ),
                                            ),
                                        }
                                    },
                                },
                            }
                        },
                    },
                }
            },
        },
        // let x = e1 in e2
        TagView::Let => match p.advanced() {
            Err(error) => Err(error),
            Ok(s1) => match s1.identifier() {
                Err(error) => Err(error),
                Ok((name, s2)) => match s2.expect(TagView::Equal) {
                    Err(error) => Err(error),
                    Ok(s3) => {
                        proof {
                            lemma_advanced_moves_on(p);
                            lemma_advanced_moves_on(s1);
                            lemma_advanced_moves_on(s2);
                        }
                        match onward(s3, parsed_expr(s3)) {
                            Err(error) => Err(error),
                            Ok((expr, s4)) => match s4.expect(TagView::In) {
                                Err(error) => Err(error),
                                Ok(s5) => {
                                    proof {
                                        lemma_advanced_moves_on(s4);
                                    }
                                    match parsed_expr(s5) {
                                        Err(error) => Err(error),
                                        Ok((body, s6)) => Ok(
                                            (
                                                ExprView::Let {
                                                    name,
                                                    expr: Box::new(expr),
                                                    body: Box::new(body),
                                                },
                                                s6,
                                            ),
                                        ),
                                    }
                                },
                            },
                        }
                    },
                },
            },
        },
        // letrec T f(x: T) e1 in e2
        TagView::LetRec => match p.advanced() {
            Err(error) => Err(error),
            Ok(s1) => match onward(s1, parsed_type(s1)) {
                Err(error) => Err(error),
                Ok((t_result, s2)) => match s2.identifier() {
                    Err(error) => Err(error),
                    Ok((name, s3)) => match s3.expect(TagView::LeftParen) {
                        Err(error) => Err(error),
                        Ok(s4) => match onward(s4, parsed_param(s4)) {
                            Err(error) => Err(error),
                            Ok((param, s5)) => match s5.expect(TagView::RightParen) {
                                Err(error) => Err(error),
                                Ok(s6) => {
                                    proof {
                                        lemma_advanced_moves_on(p);
                                        lemma_advanced_moves_on(s2);
                                        lemma_advanced_moves_on(s3);
                                        lemma_advanced_moves_on(s5);
                                    }
                                    match onward(s6, parsed_expr(s6)) {
                                        Err(error) => Err(error),
                                        Ok((proc_body, s7)) => match s7.expect(TagView::In) {
                                            Err(error) => Err(error),
                                            Ok(s8) => {
                                                proof {
                                                    lemma_advanced_moves_on(s7);
                                                }
                                                match parsed_expr(s8) {
                                                    Err(error) => Err(error),
                                                    Ok((let_body, s9)) => Ok(
                                                        (
                                                            ExprView::LetRec {
                                                                t_result,
                                                                name,
                                                                param,
                                                                proc_body: Box::new(proc_body),
                                                                let_body: Box::new(let_body),
                                                            },
                                                            s9,
                                                        ),
                                                    ),
                                                }
                                            },
                                        },
                                    }
                                },
                            },
                        },
                    },
                },
            },
        },
        // proc (x: T) e
        TagView::Proc => match p.advanced() {
            Err(error) => Err(error),
            Ok(s1) => match s1.expect(TagView::LeftParen) {
                Err(error) => Err(error),
                Ok(s2) => match onward(s2, parsed_param(s2)) {
                    Err(error) => Err(error),
                    Ok((param, s3)) => match s3.expect(TagView::RightParen) {
                        Err(error) => Err(error),
                        Ok(s4) => {
                            proof {
                                lemma_advanced_moves_on(p);
                                lemma_advanced_moves_on(s1);
                                lemma_advanced_moves_on(s3);
                            }
                            match parsed_expr(s4) {
                                Err(error) => Err(error),
                                Ok((body, s5)) => Ok(
                                    (ExprView::Proc { param, body: Box::new(body) }, s5),
                                ),
                            }
                        },
                    },
                },
            },
        },
        // (e1 e2)
        TagView::LeftParen => match p.advanced() {
            Err(error) => Err(error),
            Ok(s1) => {
                proof {
                    lemma_advanced_moves_on(p);
                }
                match onward(s1, parsed_expr(s1)) {
                    Err(error) => Err(error),
                    Ok((proc, s2)) => match onward(s2, parsed_expr(s2)) {
                        Err(error) => Err(error),
                        Ok((arg, s3)) => match s3.expect(TagView::RightParen) {
                            Err(error) => Err(error),
                            Ok(s4) => Ok(
                                (ExprView::Call { proc: Box::new(proc), arg: Box::new(arg) }, s4),
                            ),
                        },
                    },
                }
            },
        },
        found => Err(SyntaxError::Unexpected { found }),
    }
}

/// Going past an expected token leaves no more to parse.
proof fn lemma_expect_moves_on(p: ParserView, tag: TagView)
    ensures
        p.expect(tag) matches Ok(next) ==> next.left() <= p.left(),
{
    lemma_advanced_moves_on(p);
}

/// Going past an identifier leaves no more to parse.
proof fn lemma_identifier_moves_on(p: ParserView)
    ensures
        p.identifier() matches Ok((_, next)) ==> next.left() <= p.left(),
{
    lemma_advanced_moves_on(p);
}

/// Parsing a type does not go back in the text.
pub proof fn lemma_type_moves_on(p: ParserView)
    ensures
        parsed_type(p) matches Ok((_, after)) ==> after.left() <= p.left(),
    decreases p.left(),
{
    lemma_advanced_moves_on(p);
    if p.current.tag is LeftParen {
        if let Ok(s1) = p.advanced() {
            lemma_type_moves_on(s1);
            if let Ok((_, s2)) = onward(s1, parsed_type(s1)) {
                lemma_advanced_moves_on(s2);
                if let Ok(s3) = s2.expect(TagView::Arrow) {
                    lemma_type_moves_on(s3);
                    if let Ok((_, s4)) = parsed_type(s3) {
                        lemma_expect_moves_on(s4, TagView::RightParen);
                    }
                }
            }
        }
    }
}

/// Parsing a parameter does not go back in the text.
pub proof fn lemma_param_moves_on(p: ParserView)
    ensures
        parsed_param(p) matches Ok((_, after)) ==> after.left() <= p.left(),
{
    lemma_identifier_moves_on(p);
    if let Ok((_, s1)) = p.identifier() {
        lemma_expect_moves_on(s1, TagView::Colon);
        if let Ok(s2) = s1.expect(TagView::Colon) {
            lemma_type_moves_on(s2);
        }
    }
}

/// After the expression at `p` and the token `tag`, the weight of the
/// expression and what is left make no more than was left at `p`. A step of
/// `lemma_parse_moves_on`.
proof fn lemma_then(p: ParserView, tag: TagView)
    requires
        parsed_expr(p) matches Ok((expr, after)) ==> expr.weight() + after.left() <= p.left(),
    ensures
        onward(p, parsed_expr(p)) == parsed_expr(p),
        parsed_expr(p) matches Ok((expr, after)) ==> (after.expect(tag) matches Ok(next)
            ==> expr.weight() + next.left() <= p.left() && (!(tag is Eof) ==> expr.weight()
            + next.left() < p.left())),
{
    if let Ok((_, after)) = parsed_expr(p) {
        lemma_advanced_moves_on(after);
    }
}

/// No parse goes back in the text, and an expression weighs no more than
/// the text that it is parsed from: after an expression is parsed, its
/// weight and what is left to parse make no more than was left before.
pub proof fn lemma_parse_moves_on(p: ParserView)
    ensures
        parsed_expr(p) matches Ok((expr, after)) ==> expr.weight() + after.left() <= p.left(),
        onward(p, parsed_expr(p)) == parsed_expr(p),
    decreases p.left(),
{
    lemma_advanced_moves_on(p);
    if let Ok(s1) = p.advanced() {
        lemma_advanced_moves_on(s1);
        match p.current.tag {
            TagView::MinusSign => {
                if let Ok(s2) = s1.expect(TagView::LeftParen) {
                    lemma_parse_moves_on(s2);
                    if let Ok((_, s3)) = parsed_expr(s2) {
                        lemma_advanced_moves_on(s3);
                        if let Ok(s4) = s3.expect(TagView::Comma) {
                            lemma_parse_moves_on(s4);
                            lemma_then(s4, TagView::RightParen);
                        }
                    }
                }
            },
            TagView::IsZero => {
                if let Ok(s2) = s1.expect(TagView::LeftParen) {
                    lemma_parse_moves_on(s2);
                    lemma_then(s2, TagView::RightParen);
                }
            },
            TagView::Assert => {
                lemma_parse_moves_on(s1);
                lemma_then(s1, TagView::Then);
                if let Ok((_, s2)) = parsed_expr(s1) {
                    if let Ok(s3) = s2.expect(TagView::Then) {
                        lemma_parse_moves_on(s3);
                    }
                }
            },
            TagView::If => {
                lemma_parse_moves_on(s1);
                lemma_then(s1, TagView::Then);
                if let Ok((_, s2)) = parsed_expr(s1) {
                    if let Ok(s3) = s2.expect(TagView::Then) {
                        lemma_parse_moves_on(s3);
                        lemma_then(s3, TagView::Else);
                        if let Ok((_, s4)) = parsed_expr(s3) {
                            if let Ok(s5) = s4.expect(TagView::Else) {
                                lemma_parse_moves_on(s5);
                            }
                        }
                    }
                }
            },
            TagView::Let => {
                lemma_identifier_moves_on(s1);
                if let Ok((_, s2)) = s1.identifier() {
                    lemma_advanced_moves_on(s2);
                    if let Ok(s3) = s2.expect(TagView::Equal) {
                        lemma_parse_moves_on(s3);
                        lemma_then(s3, TagView::In);
                        if let Ok((_, s4)) = parsed_expr(s3) {
                            if let Ok(s5) = s4.expect(TagView::In) {
                                lemma_parse_moves_on(s5);
                            }
                        }
                    }
                }
            },
            TagView::LetRec => {
                lemma_type_moves_on(s1);
                if let Ok((_, s2)) = parsed_type(s1) {
                    lemma_identifier_moves_on(s2);
                    if let Ok((_, s3)) = s2.identifier() {
                        lemma_advanced_moves_on(s3);
                        if let Ok(s4) = s3.expect(TagView::LeftParen) {
                            lemma_param_moves_on(s4);
                            if let Ok((_, s5)) = parsed_param(s4) {
                                lemma_advanced_moves_on(s5);
                                if let Ok(s6) = s5.expect(TagView::RightParen) {
                                    lemma_parse_moves_on(s6);
                                    lemma_then(s6, TagView::In);
                                    if let Ok((_, s7)) = parsed_expr(s6) {
                                        if let Ok(s8) = s7.expect(TagView::In) {
                                            lemma_parse_moves_on(s8);
                                        }
                                    }
                                }
                            }
                        }
                    }
                }
            },
            TagView::Proc => {
                if let Ok(s2) = s1.expect(TagView::LeftParen) {
                    lemma_param_moves_on(s2);
                    if let Ok((_, s3)) = parsed_param(s2) {
                        lemma_advanced_moves_on(s3);
                        if let Ok(s4) = s3.expect(TagView::RightParen) {
                            lemma_parse_moves_on(s4);
                        }
                    }
                }
            },
            TagView::LeftParen => {
                lemma_parse_moves_on(s1);
                if let Ok((_, s2)) = parsed_expr(s1) {
                    lemma_parse_moves_on(s2);
                    lemma_then(s2, TagView::RightParen);
                }
            },
            _ => {},
        }
    }
}

/// A program weighs no more than its text has characters.
pub proof fn lemma_parsed_weight(src: Seq<char>)
    ensures
        parsed(src) matches Ok(expr) ==> expr.weight() <= src.len(),
{
    let start = Cursor { rest: src, line: 1 };
    lemma_scan_moves_on(start);
    if let Ok((token, cursor)) = scan(start) {
        lemma_parse_moves_on(ParserView { current: token, cursor });
    }
}

/// The program that a source text is: one expression, and nothing after it.
pub open spec fn parsed(src: Seq<char>) -> Result<ExprView, SyntaxError> {
    match scan(Cursor { rest: src, line: 1 }) {
        Err(error) => Err(SyntaxError::Scan(error)),
        Ok((token, cursor)) => match parsed_expr(ParserView { current: token, cursor }) {
            Err(error) => Err(error),
            Ok((expr, after)) => match after.expect(TagView::Eof) {
                Err(error) => Err(error),
                Ok(_) => Ok(expr),
            },
        },
    }
}

type ExprResult = Result<Box<Expr>, String>;

/// Parses a given source text, giving an AST representing the program.
pub fn parse(src: &str) -> (result: Result<Program, String>)
    requires
        src@.len() < usize::MAX,
    ensures
        match parsed(src@) {
            Ok(expr) => result matches Ok(program) && program@ == expr && expr.weight()
                <= src@.len(),
            Err(error) => result matches Err(message) && message@ == syntax_error_message(error),
        },
{
    proof {
        lemma_parsed_weight(src@);
    }
    let mut parser = Parser::new(src)?;
    parser.program()
}

struct Parser {
    scanner: Scanner,
    current: Token,
}

/// What a parse of the state `before` has to give: the result, and the
/// state in which it leaves the parser.
spec fn delivers<T: View>(
    expected: Result<(T::V, ParserView), SyntaxError>,
    result: Result<T, String>,
    before: ParserView,
    after: ParserView,
) -> bool {
    match expected {
        Ok((value, next)) => result matches Ok(found) && found@ == value && after == next
            && next.left() <= before.left(),
        Err(error) => result matches Err(message) && message@ == syntax_error_message(error),
    }
}

/// What going past a token has to give.
spec fn moves(
    expected: Result<ParserView, SyntaxError>,
    result: Result<(), String>,
    after: ParserView,
) -> bool {
    match expected {
        Ok(next) => result is Ok && after == next,
        Err(error) => result matches Err(message) && message@ == syntax_error_message(error),
    }
}

impl Parser {
    spec fn wf(&self) -> bool {
        self.scanner.wf()
    }

    spec fn view(&self) -> ParserView {
        ParserView { current: self.current@, cursor: self.scanner@ }
    }

    fn new(src: &str) -> (result: Result<Parser, String>)
        requires
            src@.len() < usize::MAX,
        ensures
            match scan(Cursor { rest: src@, line: 1 }) {
                Ok((token, cursor)) => result matches Ok(parser) && parser.wf() && parser.view()
                    == (ParserView { current: token, cursor }),
                Err(error) => result matches Err(message) && message@ == scan_error_message(
                    error,
                ),
            },
    {
        let mut scanner = Scanner::new(src);
        let current = scanner.next_token()?;
        Ok(Parser { scanner, current })
    }

    fn advance(&mut self) -> (result: Result<(), String>)
        requires
            old(self).wf(),
        ensures
            final(self).wf(),
            moves(old(self).view().advanced(), result, final(self).view()),
            result is Ok ==> final(self).view().left() <= old(self).view().left() && (!(
            old(self).view().current.tag is Eof) ==> final(self).view().left() < old(self).view().left()),
    {
        proof {
            lemma_advanced_moves_on(self.view());
        }
        self.current = self.scanner.next_token()?;
        Ok(())
    }

    fn expect(&mut self, expected: TokenTag) -> (result: Result<(), String>)
        requires
            old(self).wf(),
        ensures
            final(self).wf(),
            moves(old(self).view().expect(expected@), result, final(self).view()),
            result is Ok ==> final(self).view().left() <= old(self).view().left() && (!(
            expected@ is Eof) ==> final(self).view().left() < old(self).view().left()),
    {
        if self.current.tag == expected {
            self.advance()?;
            Ok(())
        } else {
            let mut message = String::from_str("expected `");
            message.append(expected.to_string().as_str());
            message.append("` but got `");
            message.append(self.current.tag.to_string().as_str());
            message.append("`");
            Err(message)
        }
    }

    fn expect_identifer(&mut self) -> (result: Result<String, String>)
        requires
            old(self).wf(),
        ensures
            final(self).wf(),
            match old(self).view().identifier() {
                Ok((name, next)) => result matches Ok(found) && found@ == name && final(self).view() == next && next.left() < old(self).view().left(),
                Err(error) => result matches Err(message) && message@ == syntax_error_message(
                    error,
                ),
            },
    {
        if let TokenTag::Identifier(name) = &self.current.tag {
            let name = name.clone();
            self.advance()?;
            Ok(name)
        } else {
            let mut msg = String::from_str("expected identifier but found ");
            msg.append(self.current.tag.to_string().as_str());
            Err(msg)
        }
    }

    /// Goes past the current token if it is `token_tag`, and says whether it
    /// was.
    fn is_match(&mut self, token_tag: TokenTag) -> (result: Result<bool, String>)
        requires
            old(self).wf(),
        ensures
            final(self).wf(),
            old(self).view().current.tag != token_tag@ ==> result == Ok::<bool, String>(false)
                && final(self).view() == old(self).view(),
            old(self).view().current.tag == token_tag@ ==> match old(self).view().advanced() {
                Ok(next) => result == Ok::<bool, String>(true) && final(self).view() == next
                    && next.left() <= old(self).view().left(),
                Err(error) => result matches Err(message) && message@ == syntax_error_message(
                    error,
                ),
            },
    {
        let is_match = self.current.tag == token_tag;
        if is_match {
            self.advance()?;
        }
        Ok(is_match)
    }

    fn program(&mut self) -> (result: Result<Program, String>)
        requires
            old(self).wf(),
        ensures
            match parsed_expr(old(self).view()) {
                Err(error) => result matches Err(message) && message@ == syntax_error_message(
                    error,
                ),
                Ok((expr, after)) => match after.expect(TagView::Eof) {
                    Err(error) => result matches Err(message) && message@
                        == syntax_error_message(error),
                    Ok(_) => result matches Ok(program) && program@ == expr,
                },
            },
    {
        let expr = self.expr()?;
        self.expect(TokenTag::Eof)?;
        Ok(Program { expr })
    }

    fn unexpected<T>(&self) -> (result: Result<T, String>)
        ensures
            result matches Err(message) && message@ == syntax_error_message(
                SyntaxError::Unexpected { found: self.view().current.tag },
            ),
    {
        let mut message = String::from_str("unexpected token `");
        message.append(self.current.tag.to_string().as_str());
        message.append("`");
        Err(message)
    }

    fn expr(&mut self) -> (result: ExprResult)
        requires
            old(self).wf(),
        ensures
            final(self).wf(),
            delivers::<Box<Expr>>(
                parsed_expr(old(self).view()),
                result,
                old(self).view(),
                final(self).view(),
            ),
        decreases old(self).view().left(), 1nat,
    {
        match &self.current.tag {
            TokenTag::Number(x) => {
                let x = *x;
                self.advance()?;
                Ok(Box::new(Expr::LiteralInt(x)))
            },
            TokenTag::True => {
                self.advance()?;
                Ok(Box::new(Expr::LiteralBool(true)))
            },
            TokenTag::False => {
                self.advance()?;
                Ok(Box::new(Expr::LiteralBool(false)))
            },
            TokenTag::MinusSign => self.diff(),
            TokenTag::IsZero => self.is_zero(),
            TokenTag::Assert => self.assert_expr(),
            TokenTag::If => self.if_expr(),
            TokenTag::Identifier(name) => {
                let name = name.clone();
                self.advance()?;
                Ok(Box::new(Expr::Name(name)))
            },
            TokenTag::Let => self.let_expr(),
            TokenTag::LetRec => self.let_rec_expr(),
            TokenTag::Proc => self.proc_expr(),
            TokenTag::LeftParen => self.call_expr(),
            _ => self.unexpected(),
        }
    }

    fn diff(&mut self) -> (result: ExprResult)
        requires
            old(self).wf(),
            old(self).view().current.tag is MinusSign,
        ensures
            final(self).wf(),
            delivers::<Box<Expr>>(
                parsed_expr(old(self).view()),
                result,
                old(self).view(),
                final(self).view(),
            ),
        decreases old(self).view().left(), 0nat,
    {
        self.advance()?;
        self.expect(TokenTag::LeftParen)?;
        let left = self.expr()?;
        if self.is_match(TokenTag::RightParen)? {
            Ok(Box::new(Expr::Negate(left)))
        } else {
            self.expect(TokenTag::Comma)?;
            let right = self.expr()?;
            self.expect(TokenTag::RightParen)?;
            Ok(Box::new(Expr::Subtract { left, right }))
        }
    }

    fn is_zero(&mut self) -> (result: ExprResult)
        requires
            old(self).wf(),
            old(self).view().current.tag is IsZero,
        ensures
            final(self).wf(),
            delivers::<Box<Expr>>(
                parsed_expr(old(self).view()),
                result,
                old(self).view(),
                final(self).view(),
            ),
        decreases old(self).view().left(), 0nat,
    {
        self.advance()?;
        self.expect(TokenTag::LeftParen)?;
        let expr = self.expr()?;
        self.expect(TokenTag::RightParen)?;

        Ok(Box::new(Expr::IsZero(expr)))
    }

    fn assert_expr(&mut self) -> (result: ExprResult)
        requires
            old(self).wf(),
            old(self).view().current.tag is Assert,
        ensures
            final(self).wf(),
            delivers::<Box<Expr>>(
                parsed_expr(old(self).view()),
                result,
                old(self).view(),
                final(self).view(),
            ),
        decreases old(self).view().left(), 0nat,
    {
        let line = self.current.line;
        self.advance()?;
        let test = self.expr()?;
        self.expect(TokenTag::Then)?;
        let body = self.expr()?;

        Ok(Box::new(Expr::Assert { line, test, body }))
    }

    fn if_expr(&mut self) -> (result: ExprResult)
        requires
            old(self).wf(),
            old(self).view().current.tag is If,
        ensures
            final(self).wf(),
            delivers::<Box<Expr>>(
                parsed_expr(old(self).view()),
                result,
                old(self).view(),
                final(self).view(),
            ),
        decreases old(self).view().left(), 0nat,
    {
        self.advance()?;
        let test = self.expr()?;
        self.expect(TokenTag::Then)?;
        let consequent = self.expr()?;
        self.expect(TokenTag::Else)?;
        let alternate = self.expr()?;

        Ok(Box::new(Expr::If { test, consequent, alternate }))
    }

    fn let_expr(&mut self) -> (result: ExprResult)
        requires
            old(self).wf(),
            old(self).view().current.tag is Let,
        ensures
            final(self).wf(),
            delivers::<Box<Expr>>(
                parsed_expr(old(self).view()),
                result,
                old(self).view(),
                final(self).view(),
            ),
        decreases old(self).view().left(), 0nat,
    {
        self.advance()?;
        let name = self.expect_identifer()?;
        self.expect(TokenTag::Equal)?;
        let expr = self.expr()?;
        self.expect(TokenTag::In)?;
        let body = self.expr()?;

        Ok(Box::new(Expr::Let { name, expr, body }))
    }

    fn let_rec_expr(&mut self) -> (result: ExprResult)
        requires
            old(self).wf(),
            old(self).view().current.tag is LetRec,
        ensures
            final(self).wf(),
            delivers::<Box<Expr>>(
                parsed_expr(old(self).view()),
                result,
                old(self).view(),
                final(self).view(),
            ),
        decreases old(self).view().left(), 0nat,
    {
        self.advance()?;
        let t_result = self.parse_type()?;
        let name = self.expect_identifer()?;
        self.expect(TokenTag::LeftParen)?;
        let param = self.param()?;
        self.expect(TokenTag::RightParen)?;
        let proc_body = self.expr()?;
        self.expect(TokenTag::In)?;
        let let_body = self.expr()?;

        Ok(Box::new(Expr::LetRec { t_result, name, param, proc_body, let_body }))
    }

    fn proc_expr(&mut self) -> (result: ExprResult)
        requires
            old(self).wf(),
            old(self).view().current.tag is Proc,
        ensures
            final(self).wf(),
            delivers::<Box<Expr>>(
                parsed_expr(old(self).view()),
                result,
                old(self).view(),
                final(self).view(),
            ),
        decreases old(self).view().left(), 0nat,
    {
        self.advance()?;
        self.expect(TokenTag::LeftParen)?;
        let param = self.param()?;
        self.expect(TokenTag::RightParen)?;
        let body = self.expr()?;

        Ok(Box::new(Expr::Proc { param, body }))
    }

    fn call_expr(&mut self) -> (result: ExprResult)
        requires
            old(self).wf(),
            old(self).view().current.tag is LeftParen,
        ensures
            final(self).wf(),
            delivers::<Box<Expr>>(
                parsed_expr(old(self).view()),
                result,
                old(self).view(),
                final(self).view(),
            ),
        decreases old(self).view().left(), 0nat,
    {
        self.advance()?;
        let proc = self.expr()?;
        let arg = self.expr()?;
        self.expect(TokenTag::RightParen)?;

        Ok(Box::new(Expr::Call { proc, arg }))
    }

    fn param(&mut self) -> (result: Result<Param, String>)
        requires
            old(self).wf(),
        ensures
            final(self).wf(),
            delivers::<Param>(
                parsed_param(old(self).view()),
                result,
                old(self).view(),
                final(self).view(),
            ),
    {
        let name = self.expect_identifer()?;
        self.expect(TokenTag::Colon)?;
        let t = self.parse_type()?;
        Ok(Param::new(name, t))
    }

    fn parse_type(&mut self) -> (result: Result<Type, String>)
        requires
            old(self).wf(),
        ensures
            final(self).wf(),
            delivers::<Type>(
                parsed_type(old(self).view()),
                result,
                old(self).view(),
                final(self).view(),
            ),
        decreases old(self).view().left(),
    {
        match self.current.tag {
            TokenTag::Int => {
                self.advance()?;
                Ok(Type::new_int())
            },
            TokenTag::Bool => {
                self.advance()?;
                Ok(Type::new_bool())
            },
            TokenTag::LeftParen => {
                self.advance()?;
                let var_type = self.parse_type()?;
                self.expect(TokenTag::Arrow)?;
                let result_type = self.parse_type()?;
                self.expect(TokenTag::RightParen)?;
                Ok(Type::new_proc(var_type, result_type))
            },
            _ => self.unexpected(),
        }
    }
}

} // verus!
