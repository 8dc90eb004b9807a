//! Tokens: the lexical units that the scanner hands out.

use crate::charclass::CharClass;
use crate::keyword::{keyword_kind, kind_for};
use vstd::prelude::*;

verus! {

/// What a token is, without the text it was read from.
#[allow(non_camel_case_types)]
#[derive(Clone, Copy, Debug, PartialEq, Eq, Structural)]
pub enum TokenKind {
    ILLEGAL,
    EOF,
    IDENT,
    INT,
    ASSIGN,
    PLUS,
    MINUS,
    ASTERISK,
    SLASH,
    BANG,
    LT,
    GT,
    EQ,
    NOT_EQ,
    COMMA,
    SEMICOLON,
    LPAREN,
    RPAREN,
    LBRACE,
    RBRACE,
    FUNCTION,
    LET,
}

/// The mathematical value of a token: its kind and the text it carries.
///
/// `literal` is empty for every kind whose spelling is fixed.
pub struct TokenView {
    pub kind: TokenKind,
    pub literal: Seq<char>,
}

/// One lexical unit. Identifiers, integers and illegal characters carry the
/// source text they were read from; every other token is its kind alone.
#[allow(non_camel_case_types)]
#[derive(Debug, Eq)]
pub enum Token {
    ILLEGAL(String),
    EOF,
    IDENT(String),
    INT(String),
    ASSIGN,
    PLUS,
    MINUS,
    ASTERISK,
    SLASH,
    BANG,
    LT,
    GT,
    EQ,
    NOT_EQ,
    COMMA,
    SEMICOLON,
    LPAREN,
    RPAREN,
    LBRACE,
    RBRACE,
    FUNCTION,
    LET,
}

impl TokenKind {
    /// Whether tokens of this kind carry their source text.
    pub open spec fn has_literal(self) -> bool {
        self == TokenKind::ILLEGAL || self == TokenKind::IDENT || self == TokenKind::INT
    }
}

impl TokenView {
    /// The token of kind `kind` that carries no text.
    pub open spec fn fixed(kind: TokenKind) -> TokenView {
        TokenView { kind, literal: Seq::empty() }
    }
}

/// The kind of the operator or delimiter that is the single character `c`.
pub open spec fn symbol_kind(c: char) -> Option<TokenKind> {
    if c == '=' {
        Some(TokenKind::ASSIGN)
    } else if c == '+' {
        Some(TokenKind::PLUS)
    } else if c == '-' {
        Some(TokenKind::MINUS)
    } else if c == '*' {
        Some(TokenKind::ASTERISK)
    } else if c == '/' {
        Some(TokenKind::SLASH)
    } else if c == '!' {
        Some(TokenKind::BANG)
    } else if c == '<' {
        Some(TokenKind::LT)
    } else if c == '>' {
        Some(TokenKind::GT)
    } else if c == ',' {
        Some(TokenKind::COMMA)
    } else if c == ';' {
        Some(TokenKind::SEMICOLON)
    } else if c == '(' {
        Some(TokenKind::LPAREN)
    } else if c == ')' {
        Some(TokenKind::RPAREN)
    } else if c == '{' {
        Some(TokenKind::LBRACE)
    } else if c == '}' {
        Some(TokenKind::RBRACE)
    } else {
        None
    }
}

/// The kind of the operator or delimiter spelled `spelling`: one of the
/// single characters above, `==` or `!=`.
pub open spec fn operator_kind(spelling: Seq<char>) -> Option<TokenKind> {
    if spelling.len() == 1 {
        symbol_kind(spelling[0])
    } else if spelling =~= seq!['=', '='] {
        Some(TokenKind::EQ)
    } else if spelling =~= seq!['!', '='] {
        Some(TokenKind::NOT_EQ)
    } else {
        None
    }
}

/// Whether `spelling` has the shape of an identifier: a letter or an
/// underscore, then letters, digits and underscores.
pub open spec fn is_identifier(spelling: Seq<char>) -> bool {
    &&& spelling.len() > 0
    &&& CharClass::Letter.contains(spelling[0])
    &&& CharClass::Word.contains_all(spelling)
}

/// Whether `spelling` has the shape of an integer literal: one digit or more.
pub open spec fn is_integer(spelling: Seq<char>) -> bool {
    &&& spelling.len() > 0
    &&& CharClass::Digit.contains_all(spelling)
}

/// The token that `spelling` is when it is taken as a whole.
///
/// A spelling shaped like an identifier is the keyword it spells, or else an
/// identifier; a run of digits is an integer; an operator or delimiter is
/// itself; anything else is illegal and keeps its text.
pub open spec fn token_for(spelling: Seq<char>) -> TokenView {
    if is_identifier(spelling) {
        match keyword_kind(spelling) {
            Some(kind) => TokenView::fixed(kind),
            None => TokenView { kind: TokenKind::IDENT, literal: spelling },
        }
    } else if is_integer(spelling) {
        TokenView { kind: TokenKind::INT, literal: spelling }
    } else {
        match operator_kind(spelling) {
            Some(kind) => TokenView::fixed(kind),
            None => TokenView { kind: TokenKind::ILLEGAL, literal: spelling },
        }
    }
}

/// Whether `spelling` is the text of one token: an identifier or keyword, an
/// integer, an operator or delimiter, or one other character that is not
/// whitespace.
pub open spec fn is_lexeme(spelling: Seq<char>) -> bool {
    ||| is_identifier(spelling)
    ||| is_integer(spelling)
    ||| operator_kind(spelling) is Some
    ||| spelling.len() == 1 && !CharClass::Whitespace.contains(spelling[0])
}

/// Keywords come before identifiers: `let` is the keyword `LET` and `func`
/// the keyword `FUNCTION`, and every other spelling shaped like an identifier
/// is an identifier that carries the whole spelling.
pub proof fn lemma_identifier_token(spelling: Seq<char>)
    ensures
        token_for(seq!['l', 'e', 't']) == TokenView::fixed(TokenKind::LET),
        token_for(seq!['f', 'u', 'n', 'c']) == TokenView::fixed(TokenKind::FUNCTION),
        ({
            let is_let = spelling =~= seq!['l', 'e', 't'];
            let is_func = spelling =~= seq!['f', 'u', 'n', 'c'];
            is_identifier(spelling) && !is_let && !is_func ==> token_for(spelling) == (TokenView {
                kind: TokenKind::IDENT,
                literal: spelling,
            })
        }),
{
}

/// The kind of the operator or delimiter that is the single character `c`.
pub fn symbol_for(c: char) -> (kind: Option<TokenKind>)
    ensures
        kind == symbol_kind(c),
{
    match c {
        '=' => Some(TokenKind::ASSIGN),
        '+' => Some(TokenKind::PLUS),
        '-' => Some(TokenKind::MINUS),
        '*' => Some(TokenKind::ASTERISK),
        '/' => Some(TokenKind::SLASH),
        '!' => Some(TokenKind::BANG),
        '<' => Some(TokenKind::LT),
        '>' => Some(TokenKind::GT),
        ',' => Some(TokenKind::COMMA),
        ';' => Some(TokenKind::SEMICOLON),
        '(' => Some(TokenKind::LPAREN),
        ')' => Some(TokenKind::RPAREN),
        '{' => Some(TokenKind::LBRACE),
        '}' => Some(TokenKind::RBRACE),
        _ => None,
    }
}

/// Whether every character of `s` belongs to `class`.
fn consists_of(s: &str, class: CharClass) -> (r: bool)
    ensures
        r == class.contains_all(s@),
{
    for c in it: s.chars()
        invariant
            it.seq() == s@,
            class.contains_all(s@.take(it.index() as int)),
    {
        if !class.has(c) {
            return false;
        }
    }
    assert(s@.take(s@.len() as int) == s@);
    true
}

/// The kind of the operator or delimiter spelled `s`, if it is one.
fn operator_for(s: &str) -> (kind: Option<TokenKind>)
    ensures
        kind == operator_kind(s@),
{
    let mut rest = s.chars();
    let first = rest.next();
    let second = rest.next();
    let third = rest.next();
    match (first, second, third) {
        (Some(c), None, _) => symbol_for(c),
        (Some('='), Some('='), None) => {
            assert(s@ == seq!['=', '=']);
            Some(TokenKind::EQ)
        },
        (Some('!'), Some('='), None) => {
            assert(s@ == seq!['!', '=']);
            Some(TokenKind::NOT_EQ)
        },
        _ => None,
    }
}

impl Token {
    /// The kind of this token.
    pub open spec fn spec_kind(&self) -> TokenKind {
        match self {
            Token::ILLEGAL(_) => TokenKind::ILLEGAL,
            Token::EOF => TokenKind::EOF,
            Token::IDENT(_) => TokenKind::IDENT,
            Token::INT(_) => TokenKind::INT,
            Token::ASSIGN => TokenKind::ASSIGN,
            Token::PLUS => TokenKind::PLUS,
            Token::MINUS => TokenKind::MINUS,
            Token::ASTERISK => TokenKind::ASTERISK,
            Token::SLASH => TokenKind::SLASH,
            Token::BANG => TokenKind::BANG,
            Token::LT => TokenKind::LT,
            Token::GT => TokenKind::GT,
            Token::EQ => TokenKind::EQ,
            Token::NOT_EQ => TokenKind::NOT_EQ,
            Token::COMMA => TokenKind::COMMA,
            Token::SEMICOLON => TokenKind::SEMICOLON,
            Token::LPAREN => TokenKind::LPAREN,
            Token::RPAREN => TokenKind::RPAREN,
            Token::LBRACE => TokenKind::LBRACE,
            Token::RBRACE => TokenKind::RBRACE,
            Token::FUNCTION => TokenKind::FUNCTION,
            Token::LET => TokenKind::LET,
        }
    }

    /// The kind of this token.
    #[verifier::when_used_as_spec(spec_kind)]
    pub fn kind(&self) -> (k: TokenKind)
        ensures
            k == self@.kind,
    {
        match self {
            Token::ILLEGAL(_) => TokenKind::ILLEGAL,
            Token::EOF => TokenKind::EOF,
            Token::IDENT(_) => TokenKind::IDENT,
            Token::INT(_) => TokenKind::INT,
            Token::ASSIGN => TokenKind::ASSIGN,
            Token::PLUS => TokenKind::PLUS,
            Token::MINUS => TokenKind::MINUS,
            Token::ASTERISK => TokenKind::ASTERISK,
            Token::SLASH => TokenKind::SLASH,
            Token::BANG => TokenKind::BANG,
            Token::LT => TokenKind::LT,
            Token::GT => TokenKind::GT,
            Token::EQ => TokenKind::EQ,
            Token::NOT_EQ => TokenKind::NOT_EQ,
            Token::COMMA => TokenKind::COMMA,
            Token::SEMICOLON => TokenKind::SEMICOLON,
            Token::LPAREN => TokenKind::LPAREN,
            Token::RPAREN => TokenKind::RPAREN,
            Token::LBRACE => TokenKind::LBRACE,
            Token::RBRACE => TokenKind::RBRACE,
            Token::FUNCTION => TokenKind::FUNCTION,
            Token::LET => TokenKind::LET,
        }
    }

    /// The text this token carries; empty where the kind says it all.
    pub open spec fn spec_literal(&self) -> Seq<char> {
        match self {
            Token::ILLEGAL(s) => s@,
            Token::IDENT(s) => s@,
            Token::INT(s) => s@,
            _ => Seq::empty(),
        }
    }

    /// The text this token carries; empty where the kind says it all.
    pub fn literal(&self) -> (text: &str)
        ensures
            text@ == self@.literal,
    {
        match self {
            Token::ILLEGAL(s) => s.as_str(),
            Token::IDENT(s) => s.as_str(),
            Token::INT(s) => s.as_str(),
            _ => {
                proof {
                    reveal_strlit("");
                }
                ""
            },
        }
    }

    /// The token of kind `kind`. It carries `literal` where tokens of that
    /// kind carry text, and nothing where they do not.
    pub fn new(kind: TokenKind, literal: String) -> (token: Token)
        ensures
            token@.kind == kind,
            token@.literal == if kind.has_literal() {
                literal@
            } else {
                Seq::empty()
            },
    {
        match kind {
            TokenKind::ILLEGAL => Token::ILLEGAL(literal),
            TokenKind::EOF => Token::EOF,
            TokenKind::IDENT => Token::IDENT(literal),
            TokenKind::INT => Token::INT(literal),
            TokenKind::ASSIGN => Token::ASSIGN,
            TokenKind::PLUS => Token::PLUS,
            TokenKind::MINUS => Token::MINUS,
            TokenKind::ASTERISK => Token::ASTERISK,
            TokenKind::SLASH => Token::SLASH,
            TokenKind::BANG => Token::BANG,
            TokenKind::LT => Token::LT,
            TokenKind::GT => Token::GT,
            TokenKind::EQ => Token::EQ,
            TokenKind::NOT_EQ => Token::NOT_EQ,
            TokenKind::COMMA => Token::COMMA,
            TokenKind::SEMICOLON => Token::SEMICOLON,
            TokenKind::LPAREN => Token::LPAREN,
            TokenKind::RPAREN => Token::RPAREN,
            TokenKind::LBRACE => Token::LBRACE,
            TokenKind::RBRACE => Token::RBRACE,
            TokenKind::FUNCTION => Token::FUNCTION,
            TokenKind::LET => Token::LET,
        }
    }

    /// The token that `spelling` is when it is taken as a whole: the keyword
    /// or identifier, integer, operator or delimiter that it spells, and an
    /// illegal token that keeps the text where it spells none.
    pub fn tokenize(spelling: &str) -> (token: Token)
        ensures
            token@ == token_for(spelling@),
    {
        let first = spelling.chars().next();
        let begins_with_letter = match first {
            Some(c) => CharClass::Letter.has(c),
            None => false,
        };
        if begins_with_letter && consists_of(spelling, CharClass::Word) {
            match kind_for(spelling) {
                Some(kind) => Token::new(kind, String::new()),
                None => Token::IDENT(spelling.to_owned()),
            }
        } else if first.is_some() && consists_of(spelling, CharClass::Digit) {
            Token::INT(spelling.to_owned())
        } else {
            match operator_for(spelling) {
                Some(kind) => Token::new(kind, String::new()),
                None => Token::ILLEGAL(spelling.to_owned()),
            }
        }
    }
}

impl View for Token {
    type V = TokenView;

    open spec fn view(&self) -> TokenView {
        TokenView { kind: self.spec_kind(), literal: self.spec_literal() }
    }
}

impl Clone for Token {
    fn clone(&self) -> (r: Token)
        ensures
            r == *self,
    {
        match self {
            Token::ILLEGAL(s) => Token::ILLEGAL(s.clone()),
            Token::IDENT(s) => Token::IDENT(s.clone()),
            Token::INT(s) => Token::INT(s.clone()),
            Token::EOF => Token::EOF,
            Token::ASSIGN => Token::ASSIGN,
            Token::PLUS => Token::PLUS,
            Token::MINUS => Token::MINUS,
            Token::ASTERISK => Token::ASTERISK,
            Token::SLASH => Token::SLASH,
            Token::BANG => Token::BANG,
            Token::LT => Token::LT,
            Token::GT => Token::GT,
            Token::EQ => Token::EQ,
            Token::NOT_EQ => Token::NOT_EQ,
            Token::COMMA => Token::COMMA,
            Token::SEMICOLON => Token::SEMICOLON,
            Token::LPAREN => Token::LPAREN,
            Token::RPAREN => Token::RPAREN,
            Token::LBRACE => Token::LBRACE,
            Token::RBRACE => Token::RBRACE,
            Token::FUNCTION => Token::FUNCTION,
            Token::LET => Token::LET,
        }
    }
}

impl PartialEq for Token {
    /// Two tokens are equal when their kinds and their literals are.
    fn eq(&self, other: &Token) -> (r: bool) {
        match (self, other) {
            (Token::ILLEGAL(a), Token::ILLEGAL(b)) => *a == *b,
            (Token::IDENT(a), Token::IDENT(b)) => *a == *b,
            (Token::INT(a), Token::INT(b)) => *a == *b,
            (Token::ILLEGAL(_), _) | (Token::IDENT(_), _) | (Token::INT(_), _) => false,
            (a, b) => a.kind() == b.kind(),
        }
    }
}

impl vstd::std_specs::cmp::PartialEqSpecImpl for Token {
    open spec fn obeys_eq_spec() -> bool {
        true
    }

    open spec fn eq_spec(&self, other: &Token) -> bool {
        self@ == other@
    }
}

} // verus!
