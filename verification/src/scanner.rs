//! Lexical analysis.
//!
//! `scan` says which token a text begins with, and where the next one
//! starts; a `Scanner` produces the tokens one by one.

use vstd::prelude::*;
use vstd::std_specs::cmp::PartialEqSpecImpl;
use vstd::string::StringExecFns;

verus! {

/// Represents a token's type in a source text.
#[derive(Debug)]
pub enum TokenTag {
    Arrow,
    Assert,
    Bool,
    Colon,
    Comma,
    Else,
    Eof,
    Equal,
    False,
    Identifier(String),
    If,
    In,
    Int,
    LeftParen,
    Let,
    LetRec,
    Proc,
    MinusSign,
    Number(i64),
    RightParen,
    Then,
    True,
    IsZero,
}

/// A token's type as a mathematical object.
pub enum TagView {
    Arrow,
    Assert,
    Bool,
    Colon,
    Comma,
    Else,
    Eof,
    Equal,
    False,
    Identifier(Seq<char>),
    If,
    In,
    Int,
    LeftParen,
    Let,
    LetRec,
    Proc,
    MinusSign,
    Number(i64),
    RightParen,
    Then,
    True,
    IsZero,
}

impl View for TokenTag {
    type V = TagView;

    open spec fn view(&self) -> TagView {
        match self {
            TokenTag::Arrow => TagView::Arrow,
            TokenTag::Assert => TagView::Assert,
            TokenTag::Bool => TagView::Bool,
            TokenTag::Colon => TagView::Colon,
            TokenTag::Comma => TagView::Comma,
            TokenTag::Else => TagView::Else,
            TokenTag::Eof => TagView::Eof,
            TokenTag::Equal => TagView::Equal,
            TokenTag::False => TagView::False,
            TokenTag::Identifier(id) => TagView::Identifier(id@),
            TokenTag::If => TagView::If,
            TokenTag::In => TagView::In,
            TokenTag::Int => TagView::Int,
            TokenTag::LeftParen => TagView::LeftParen,
            TokenTag::Let => TagView::Let,
            TokenTag::LetRec => TagView::LetRec,
            TokenTag::Proc => TagView::Proc,
            TokenTag::MinusSign => TagView::MinusSign,
            TokenTag::Number(x) => TagView::Number(*x),
            TokenTag::RightParen => TagView::RightParen,
            TokenTag::Then => TagView::Then,
            TokenTag::True => TagView::True,
            TokenTag::IsZero => TagView::IsZero,
        }
    }
}

/// How a token's type is named in messages.
pub open spec fn tag_text(tag: TagView) -> Seq<char> {
    match tag {
        TagView::Arrow => "->"@,
        TagView::Assert => "assert"@,
        TagView::Bool => "bool"@,
        TagView::Colon => ":"@,
        TagView::Comma => ","@,
        TagView::Else => "else"@,
        TagView::Eof => "EOF"@,
        TagView::Equal => "="@,
        TagView::False => "false"@,
        TagView::Identifier(id) => "identifier("@ + id + ")"@,
        TagView::If => "if"@,
        TagView::In => "in"@,
        TagView::Int => "int"@,
        TagView::LeftParen => "("@,
        TagView::Let => "let"@,
        TagView::LetRec => "letrec"@,
        TagView::Proc => "proc"@,
        TagView::MinusSign => "-"@,
        TagView::Number(_) => "number"@,
        TagView::RightParen => ")"@,
        TagView::Then => "then"@,
        TagView::True => "true"@,
        TagView::IsZero => "zero?"@,
    }
}

impl TokenTag {
    /// The name of the token's type in messages.
    pub fn to_string(&self) -> (text: String)
        ensures
            text@ == tag_text(self@),
    {
        let token_str = match self {
            TokenTag::Arrow => "->",
            TokenTag::Assert => "assert",
            TokenTag::Bool => "bool",
            TokenTag::Colon => ":",
            TokenTag::Comma => ",",
            TokenTag::Else => "else",
            TokenTag::Eof => "EOF",
            TokenTag::Equal => "=",
            TokenTag::False => "false",
            TokenTag::Identifier(id) => {
                let mut text = String::from_str("identifier(");
                text.append(id.as_str());
                text.append(")");
                return text;
            },
            TokenTag::If => "if",
            TokenTag::In => "in",
            TokenTag::Int => "int",
            TokenTag::LeftParen => "(",
            TokenTag::Let => "let",
            TokenTag::LetRec => "letrec",
            TokenTag::Proc => "proc",
            TokenTag::MinusSign => "-",
            TokenTag::Number(_) => "number",
            TokenTag::RightParen => ")",
            TokenTag::Then => "then",
            TokenTag::True => "true",
            TokenTag::IsZero => "zero?",
        };
        String::from_str(token_str)
    }

    /// Whether two tags are the same type of token with the same content.
    fn same(&self, other: &Self) -> (b: bool)
        ensures
            b == (self@ == other@),
    {
        match (self, other) {
            (TokenTag::Arrow, TokenTag::Arrow) => true,
            (TokenTag::Assert, TokenTag::Assert) => true,
            (TokenTag::Bool, TokenTag::Bool) => true,
            (TokenTag::Colon, TokenTag::Colon) => true,
            (TokenTag::Comma, TokenTag::Comma) => true,
            (TokenTag::Else, TokenTag::Else) => true,
            (TokenTag::Eof, TokenTag::Eof) => true,
            (TokenTag::Equal, TokenTag::Equal) => true,
            (TokenTag::False, TokenTag::False) => true,
            (TokenTag::Identifier(a), TokenTag::Identifier(b)) => *a == *b,
            (TokenTag::If, TokenTag::If) => true,
            (TokenTag::In, TokenTag::In) => true,
            (TokenTag::Int, TokenTag::Int) => true,
            (TokenTag::LeftParen, TokenTag::LeftParen) => true,
            (TokenTag::Let, TokenTag::Let) => true,
            (TokenTag::LetRec, TokenTag::LetRec) => true,
            (TokenTag::Proc, TokenTag::Proc) => true,
            (TokenTag::MinusSign, TokenTag::MinusSign) => true,
            (TokenTag::Number(a), TokenTag::Number(b)) => *a == *b,
            (TokenTag::RightParen, TokenTag::RightParen) => true,
            (TokenTag::Then, TokenTag::Then) => true,
            (TokenTag::True, TokenTag::True) => true,
            (TokenTag::IsZero, TokenTag::IsZero) => true,
            _ => false,
        }
    }
}

impl PartialEq for TokenTag {
    fn eq(&self, other: &Self) -> (b: bool) {
        self.same(other)
    }
}

/// Two tags are equal when they are the same type of token with the same
/// content.
impl PartialEqSpecImpl for TokenTag {
    open spec fn obeys_eq_spec() -> bool {
        true
    }

    open spec fn eq_spec(&self, other: &Self) -> bool {
        self@ == other@
    }
}

/// A token from a source text.
#[derive(Debug, PartialEq)]
pub struct Token {
    /// The token's type.
    pub tag: TokenTag,
    /// The line in the source text on which the token starts.
    pub line: usize,
}

/// A token as a mathematical object.
pub struct TokenView {
    pub tag: TagView,
    pub line: nat,
}

impl View for Token {
    type V = TokenView;

    open spec fn view(&self) -> TokenView {
        TokenView { tag: self.tag@, line: self.line as nat }
    }
}

impl Token {
    /// A token constructor function.
    pub fn new(tag: TokenTag, line: usize) -> (token: Self)
        ensures
            token.tag == tag,
            token.line == line,
    {
        Self { tag, line }
    }
}

pub open spec fn is_alpha_char(c: char) -> bool {
    ('a' <= c && c <= 'z') || ('A' <= c && c <= 'Z') || c == '_'
}

pub open spec fn is_digit_char(c: char) -> bool {
    '0' <= c && c <= '9'
}

pub open spec fn is_whitespace_char(c: char) -> bool {
    c == ' ' || c == '\t' || c == '\r' || c == '\n'
}

/// Whether a character can stand in an identifier after its first one.
pub open spec fn is_word_char(c: char) -> bool {
    is_alpha_char(c) || is_digit_char(c) || c == '?'
}

fn is_alpha(c: char) -> (b: bool)
    ensures
        b == is_alpha_char(c),
{
    ('a' <= c && c <= 'z') || ('A' <= c && c <= 'Z') || c == '_'
}

fn is_digit(c: char) -> (b: bool)
    ensures
        b == is_digit_char(c),
{
    '0' <= c && c <= '9'
}

fn is_whitespace(c: char) -> (b: bool)
    ensures
        b == is_whitespace_char(c),
{
    c == ' ' || c == '\t' || c == '\r' || c == '\n'
}


/// A place in a source text: what is left of the text, and the line on
/// which that begins.
pub struct Cursor {
    pub rest: Seq<char>,
    pub line: nat,
}

impl Cursor {
    /// The place one character on. A line ends with its newline character.
    pub open spec fn advanced(self) -> Cursor {
        Cursor {
            rest: self.rest.drop_first(),
            line: if self.rest[0] == '\n' {
                self.line + 1
            } else {
                self.line
            },
        }
    }

    /// The place `n` characters on in the same line.
    pub open spec fn along(self, n: nat) -> Cursor {
        Cursor { rest: self.rest.skip(n as int), line: self.line }
    }
}

/// The place of the first character at or after `cursor` that is neither
/// whitespace nor part of a comment. A comment begins with `#` and ends with
/// the line.
pub open spec fn skipped(cursor: Cursor, in_comment: bool) -> Cursor
    decreases cursor.rest.len(),
{
    if cursor.rest.len() == 0 {
        cursor
    } else {
        let c = cursor.rest[0];
        if c == '#' {
            skipped(cursor.advanced(), true)
        } else if c == '\n' && in_comment {
            skipped(cursor.advanced(), false)
        } else if is_whitespace_char(c) || in_comment {
            skipped(cursor.advanced(), in_comment)
        } else {
            cursor
        }
    }
}

/// The number of characters at the start of `text` that can stand in an
/// identifier.
pub open spec fn word_len(text: Seq<char>) -> nat
    decreases text.len(),
{
    if text.len() > 0 && is_word_char(text[0]) {
        1 + word_len(text.drop_first())
    } else {
        0
    }
}

/// The number of digits at the start of `text`.
pub open spec fn digits_len(text: Seq<char>) -> nat
    decreases text.len(),
{
    if text.len() > 0 && is_digit_char(text[0]) {
        1 + digits_len(text.drop_first())
    } else {
        0
    }
}

/// The token that a word is: a keyword, or else an identifier.
pub open spec fn word_tag(word: Seq<char>) -> TagView {
    if word == "assert"@ {
        TagView::Assert
    } else if word == "bool"@ {
        TagView::Bool
    } else if word == "else"@ {
        TagView::Else
    } else if word == "false"@ {
        TagView::False
    } else if word == "if"@ {
        TagView::If
    } else if word == "in"@ {
        TagView::In
    } else if word == "int"@ {
        TagView::Int
    } else if word == "let"@ {
        TagView::Let
    } else if word == "letrec"@ {
        TagView::LetRec
    } else if word == "proc"@ {
        TagView::Proc
    } else if word == "then"@ {
        TagView::Then
    } else if word == "true"@ {
        TagView::True
    } else if word == "zero?"@ {
        TagView::IsZero
    } else {
        TagView::Identifier(word)
    }
}

/// The number that a digit stands for.
pub open spec fn digit_value(c: char) -> int {
    c as int - '0' as int
}

/// The number that a sequence of digits stands for in decimal.
pub open spec fn digits_value(digits: Seq<char>) -> int
    decreases digits.len(),
{
    if digits.len() == 0 {
        0
    } else {
        digits_value(digits.drop_last()) * 10 + digit_value(digits.last())
    }
}

/// Why a text does not begin with a token.
pub enum ScanError {
    /// The number does not fit an `i64`.
    NumberTooLarge { digits: Seq<char> },
    /// No token begins with this character.
    UnexpectedCharacter { found: char },
}

/// The message of a scan error.
pub open spec fn scan_error_message(error: ScanError) -> Seq<char> {
    match error {
        ScanError::NumberTooLarge { digits } => "'"@ + digits
            + "' cannot be converted to a number"@,
        ScanError::UnexpectedCharacter { found } => "unexpected character '"@ + seq![found]
            + "'"@,
    }
}

/// The token that begins with the symbol `c`, and how many characters it
/// takes; `next` is the character after `c`, if there is one.
pub open spec fn symbol_tag(c: char, next: Option<char>) -> Option<(TagView, nat)> {
    if c == '(' {
        Some((TagView::LeftParen, 1))
    } else if c == ')' {
        Some((TagView::RightParen, 1))
    } else if c == ':' {
        Some((TagView::Colon, 1))
    } else if c == ',' {
        Some((TagView::Comma, 1))
    } else if c == '=' {
        Some((TagView::Equal, 1))
    } else if c == '-' {
        if next == Some('>') {
            Some((TagView::Arrow, 2))
        } else {
            Some((TagView::MinusSign, 1))
        }
    } else {
        None
    }
}

/// The first token at or after `cursor`, and the place after it.
///
/// Whitespace and comments before the token are skipped. At the end of the
/// text the token is `Eof`. A word is a letter or `_` and the letters,
/// digits, `_` and `?` that follow it; a number is a run of digits.
pub open spec fn scan(cursor: Cursor) -> Result<(TokenView, Cursor), ScanError> {
    let start = skipped(cursor, false);
    if start.rest.len() == 0 {
        Ok((TokenView { tag: TagView::Eof, line: start.line }, start))
    } else {
        let c = start.rest[0];
        if is_alpha_char(c) {
            let n = word_len(start.rest);
            Ok(
                (
                    TokenView { tag: word_tag(start.rest.take(n as int)), line: start.line },
                    start.along(n),
                ),
            )
        } else if is_digit_char(c) {
            let n = digits_len(start.rest);
            let digits = start.rest.take(n as int);
            if digits_value(digits) <= i64::MAX {
                Ok(
                    (
                        TokenView {
                            tag: TagView::Number(digits_value(digits) as i64),
                            line: start.line,
                        },
                        start.along(n),
                    ),
                )
            } else {
                Err(ScanError::NumberTooLarge { digits })
            }
        } else {
            let next = if start.rest.len() > 1 {
                Some(start.rest[1])
            } else {
                None
            };
            match symbol_tag(c, next) {
                Some((tag, n)) => Ok((TokenView { tag, line: start.line }, start.along(n))),
                None => Err(ScanError::UnexpectedCharacter { found: c }),
            }
        }
    }
}

/// The characters of a text.
fn characters(src: &str) -> (chars: Vec<char>)
    ensures
        chars@ == src@,
{
    let mut chars: Vec<char> = Vec::new();
    for c in it: src.chars()
        invariant
            chars@ == it.seq().take(it.index() as int),
            it.seq() == src@,
    {
        chars.push(c);
    }
    chars
}

/// Appends a character to a string.
///
/// Wraps `String::push`, which appends the given character to the end of
/// the string.
#[verifier::external_body]
fn push_char(text: &mut String, c: char)
    ensures
        final(text)@ == old(text)@.push(c),
{
    text.push(c)
}

/// Represents an object which converts a source text into a stream of tokens.
pub struct Scanner {
    chars: Vec<char>,
    position: usize,
    current: Option<char>,
    line: usize,
}

impl View for Scanner {
    type V = Cursor;

    closed spec fn view(&self) -> Cursor {
        Cursor { rest: self.chars@.skip(self.position as int), line: self.line as nat }
    }
}

impl Scanner {
    /// What holds of every scanner: it looks at a character of its text or
    /// at the end, and it has counted the lines up to there.
    pub closed spec fn wf(&self) -> bool {
        &&& self.position <= self.chars@.len()
        &&& self.chars@.len() < usize::MAX
        &&& self.current == if self.position < self.chars@.len() {
            Some(self.chars@[self.position as int])
        } else {
            None::<char>
        }
        &&& 1 <= self.line <= self.position + 1
    }

    /// Creates a scanner object which is ready to produce tokens from a given
    /// source text.
    pub fn new(src: &str) -> (scanner: Scanner)
        requires
            src@.len() < usize::MAX,
        ensures
            scanner.wf(),
            scanner@ == (Cursor { rest: src@, line: 1 }),
    {
        let chars = characters(src);
        let current = if chars.len() > 0 {
            Some(chars[0])
        } else {
            None
        };
        let scanner = Scanner { chars, position: 0, current, line: 1 };
        assert(scanner@.rest =~= src@);
        scanner
    }

    fn advance(&mut self)
        requires
            old(self).wf(),
        ensures
            final(self).wf(),
            final(self).chars == old(self).chars,
            old(self)@.rest.len() > 0 ==> final(self)@ == old(self)@.advanced()
                && final(self).position == old(self).position + 1,
            old(self)@.rest.len() == 0 ==> final(self)@ == old(self)@,
    {
        if let Some('\n') = self.current {
            self.line += 1;
        }
        if self.position < self.chars.len() {
            self.position += 1;
        }
        self.current = if self.position < self.chars.len() {
            Some(self.chars[self.position])
        } else {
            None
        };
        proof {
            if old(self)@.rest.len() > 0 {
                assert(self@.rest =~= old(self)@.rest.drop_first());
            }
        }
    }

    fn skip_whitespace_comments(&mut self)
        requires
            old(self).wf(),
        ensures
            final(self).wf(),
            final(self)@ == skipped(old(self)@, false),
    {
        let mut in_comment = false;
        while self.current.is_some()
            invariant
                self.wf(),
                skipped(old(self)@, false) == skipped(self@, in_comment),
            ensures
                skipped(self@, in_comment) == self@,
            decreases self@.rest.len(),
        {
            let c = self.current.unwrap();
            if c == '#' {
                in_comment = true;
                self.advance();
            } else if c == '\n' && in_comment {
                in_comment = false;
                self.advance();
            } else if is_whitespace(c) || in_comment {
                self.advance();
            } else {
                break;
            }
        }
    }

    /// Attempt to get the next token in the source text.
    pub fn next_token(&mut self) -> (result: Result<Token, String>)
        requires
            old(self).wf(),
        ensures
            final(self).wf(),
            match scan(old(self)@) {
                Ok((token, cursor)) => result matches Ok(found) && found@ == token
                    && final(self)@ == cursor,
                Err(error) => result matches Err(message) && message@ == scan_error_message(
                    error,
                ),
            },
    {
        self.skip_whitespace_comments();

        if self.current.is_none() {
            Ok(Token::new(TokenTag::Eof, self.line))
        } else if is_alpha(self.current.unwrap()) {
            self.identifier()
        } else if is_digit(self.current.unwrap()) {
            self.number_literal()
        } else {
            self.symbol()
        }
    }

    /// Whether the characters from `from` up to `to` are those of `word`.
    fn is_word(&self, from: usize, to: usize, word: &str) -> (b: bool)
        requires
            from <= to <= self.chars@.len(),
        ensures
            b == (self.chars@.subrange(from as int, to as int) == word@),
    {
        let n = word.unicode_len();
        if to - from != n {
            return false;
        }
        let mut i: usize = 0;
        while i < n
            invariant
                i <= n,
                n == word@.len(),
                n == to - from,
                from <= to <= self.chars@.len(),
                self.chars@.subrange(from as int, from + i) == word@.take(i as int),
            decreases n - i,
        {
            if self.chars[from + i] != word.get_char(i) {
                assert(self.chars@.subrange(from as int, to as int)[i as int] != word@[i as int]);
                return false;
            }
            assert(self.chars@.subrange(from as int, from + i + 1) =~= word@.take(i + 1));
            i += 1;
        }
        assert(word@.take(n as int) =~= word@);
        true
    }

    fn identifier(&mut self) -> (result: Result<Token, String>)
        requires
            old(self).wf(),
            old(self)@.rest.len() > 0,
            is_alpha_char(old(self)@.rest[0]),
        ensures
            final(self).wf(),
            result matches Ok(found) && found@ == (TokenView {
                tag: word_tag(old(self)@.rest.take(word_len(old(self)@.rest) as int)),
                line: old(self)@.line,
            }) && final(self)@ == old(self)@.along(word_len(old(self)@.rest)),
    {
        let line = self.line;
        let from = self.position;
        let ghost text = self@.rest;

        let mut s = String::new();
        while self.current.is_some() && is_word_char_exec(self.current.unwrap())
            invariant
                self.wf(),
                self.chars == old(self).chars,
                from <= self.position,
                self.line == line,
                self@.rest == text.skip(self.position - from),
                s@ == text.take(self.position - from),
                self.position - from <= text.len(),
                word_len(text) == (self.position - from) + word_len(self@.rest),
            decreases self@.rest.len(),
        {
            proof {
                let k = self.position - from;
                assert(text.skip(k).drop_first() =~= text.skip(k + 1));
                assert(text.take(k).push(text[k]) =~= text.take(k + 1));
                assert(text.skip(k)[0] == text[k]);
            }
            self.collect(&mut s);
        }
        let to = self.position;
        proof {
            assert(text =~= self.chars@.skip(from as int));
            assert(self.chars@.subrange(from as int, to as int) =~= text.take(to - from));
        }

        let tag = if self.is_word(from, to, "assert") {
            TokenTag::Assert
        } else if self.is_word(from, to, "bool") {
            TokenTag::Bool
        } else if self.is_word(from, to, "else") {
            TokenTag::Else
        } else if self.is_word(from, to, "false") {
            TokenTag::False
        } else if self.is_word(from, to, "if") {
            TokenTag::If
        } else if self.is_word(from, to, "in") {
            TokenTag::In
        } else if self.is_word(from, to, "int") {
            TokenTag::Int
        } else if self.is_word(from, to, "let") {
            TokenTag::Let
        } else if self.is_word(from, to, "letrec") {
            TokenTag::LetRec
        } else if self.is_word(from, to, "proc") {
            TokenTag::Proc
        } else if self.is_word(from, to, "then") {
            TokenTag::Then
        } else if self.is_word(from, to, "true") {
            TokenTag::True
        } else if self.is_word(from, to, "zero?") {
            TokenTag::IsZero
        } else {
            TokenTag::Identifier(s)
        };

        return Ok(Token::new(tag, line));
    }

    fn number_literal(&mut self) -> (result: Result<Token, String>)
        requires
            old(self).wf(),
            old(self)@.rest.len() > 0,
            is_digit_char(old(self)@.rest[0]),
        ensures
            final(self).wf(),
            ({
                let digits = old(self)@.rest.take(digits_len(old(self)@.rest) as int);
                if digits_value(digits) <= i64::MAX {
                    result matches Ok(found) && found@ == (TokenView {
                        tag: TagView::Number(digits_value(digits) as i64),
                        line: old(self)@.line,
                    }) && final(self)@ == old(self)@.along(digits_len(old(self)@.rest))
                } else {
                    result matches Err(message) && message@ == scan_error_message(
                        ScanError::NumberTooLarge { digits },
                    )
                }
            }),
    {
        let line = self.line;
        let ghost from = self.position;
        let ghost text = self@.rest;

        let mut s = String::new();
        // The number so far, as long as it fits.
        let mut value: Option<i64> = Some(0);
        assert(text.take(0) =~= Seq::<char>::empty());

        while self.current.is_some() && is_digit(self.current.unwrap())
            invariant
                self.wf(),
                from <= self.position,
                self.line == line,
                self@.rest == text.skip(self.position - from),
                s@ == text.take(self.position - from),
                self.position - from <= text.len(),
                digits_len(text) == (self.position - from) + digits_len(self@.rest),
                forall|i: int| 0 <= i < s@.len() ==> is_digit_char(#[trigger] s@[i]),
                0 <= digits_value(s@),
                match value {
                    Some(x) => x == digits_value(s@),
                    None => digits_value(s@) > i64::MAX,
                },
            decreases self@.rest.len(),
        {
            let c = self.current.unwrap();
            proof {
                let k = self.position - from;
                assert(text.skip(k).drop_first() =~= text.skip(k + 1));
                assert(text.take(k).push(text[k]) =~= text.take(k + 1));
                assert(text.skip(k)[0] == text[k]);
                assert(s@.push(c).drop_last() =~= s@);
            }
            let digit: i64 = (c as u32 - '0' as u32) as i64;
            value = match value {
                Some(x) => match x.checked_mul(10) {
                    Some(tens) => tens.checked_add(digit),
                    None => None,
                },
                None => None,
            };
            self.collect(&mut s);
        }

        match value {
            Some(x) => Ok(Token::new(TokenTag::Number(x), line)),
            None => {
                let mut message = String::from_str("'");
                message.append(s.as_str());
                message.append("' cannot be converted to a number");
                Err(message)
            },
        }
    }

    fn symbol(&mut self) -> (result: Result<Token, String>)
        requires
            old(self).wf(),
            old(self)@.rest.len() > 0,
        ensures
            final(self).wf(),
            ({
                let text = old(self)@.rest;
                let next = if text.len() > 1 {
                    Some(text[1])
                } else {
                    None
                };
                match symbol_tag(text[0], next) {
                    Some((tag, n)) => result matches Ok(found) && found@ == (TokenView {
                        tag,
                        line: old(self)@.line,
                    }) && final(self)@ == old(self)@.along(n),
                    None => result matches Err(message) && message@ == scan_error_message(
                        ScanError::UnexpectedCharacter { found: text[0] },
                    ),
                }
            }),
    {
        let line = self.line;
        let ghost text = self@.rest;

        // Handle operators.
        let c = self.current.unwrap();
        let tag = if c == '(' {
            TokenTag::LeftParen
        } else if c == ')' {
            TokenTag::RightParen
        } else if c == ':' {
            TokenTag::Colon
        } else if c == ',' {
            TokenTag::Comma
        } else if c == '-' {
            TokenTag::MinusSign
        } else if c == '=' {
            TokenTag::Equal
        } else {
            let mut message = String::from_str("unexpected character '");
            push_char(&mut message, c);
            message.append("'");
            return Err(message);
        };

        // Advance past the last character in the operator.
        self.advance();
        assert(self@.rest =~= text.skip(1));

        // Check for two character operators.
        let arrow = match self.current {
            Some(next) => c == '-' && next == '>',
            None => false,
        };
        let tag = if arrow {
            self.advance();
            assert(self@.rest =~= text.skip(2));
            TokenTag::Arrow
        } else {
            tag
        };

        Ok(Token::new(tag, line))
    }

    /// Moves the current character to the end of `s`.
    fn collect(&mut self, s: &mut String)
        requires
            old(self).wf(),
            old(self)@.rest.len() > 0,
            old(self)@.rest[0] != '\n',
        ensures
            final(self).wf(),
            final(self).chars == old(self).chars,
            final(self).position == old(self).position + 1,
            final(self).line == old(self).line,
            final(self)@.rest == old(self)@.rest.drop_first(),
            final(s)@ == old(s)@.push(old(self)@.rest[0]),
    {
        push_char(s, self.current.unwrap());
        self.advance();
    }
}

fn is_word_char_exec(c: char) -> (b: bool)
    ensures
        b == is_word_char(c),
{
    is_alpha(c) || is_digit(c) || c == '?'
}

} // verus!
