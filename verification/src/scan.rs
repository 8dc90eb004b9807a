//! What one scanning step does, as mathematics: where the next lexeme lies
//! in the source text, which token it is, and where scanning goes on.

use crate::charclass::{lemma_run_end, lemma_run_end_unique, run_end, CharClass};
use crate::keyword::keyword_kind;
use crate::token::{
    is_identifier, is_integer, is_lexeme, symbol_kind, token_for, TokenKind, TokenView,
};
use vstd::prelude::*;

verus! {

/// Where the next lexeme at or after `pos` begins: the first index from
/// `pos` on that holds no whitespace, or the length of `s`.
pub open spec fn lexeme_start(s: Seq<char>, pos: int) -> int {
    run_end(s, pos, CharClass::Whitespace)
}

/// Where the lexeme that begins at `start` ends.
///
/// An identifier or keyword runs as far as letters, digits and underscores
/// go, an integer as far as digits go; `==` and `!=` take two characters and
/// every other lexeme takes one.
pub open spec fn lexeme_end(s: Seq<char>, start: int) -> int
    recommends
        0 <= start < s.len(),
{
    if CharClass::Letter.contains(s[start]) {
        run_end(s, start, CharClass::Word)
    } else if CharClass::Digit.contains(s[start]) {
        run_end(s, start, CharClass::Digit)
    } else if (s[start] == '=' || s[start] == '!') && start + 1 < s.len() && s[start + 1] == '=' {
        start + 2
    } else {
        start + 1
    }
}

/// The token that a scanner at `pos` hands out next: end of input where only
/// whitespace is left, and else the token that the next lexeme spells.
pub open spec fn token_at(s: Seq<char>, pos: int) -> TokenView {
    let start = lexeme_start(s, pos);
    if start >= s.len() {
        TokenView::fixed(TokenKind::EOF)
    } else {
        token_for(s.subrange(start, lexeme_end(s, start)))
    }
}

/// Where a scanner that was at `pos` stands once it has handed out its next
/// token: behind the lexeme, or at the end of the text.
pub open spec fn position_after(s: Seq<char>, pos: int) -> int {
    let start = lexeme_start(s, pos);
    if start >= s.len() {
        start
    } else {
        lexeme_end(s, start)
    }
}

/// A lexeme is not empty and ends inside the text.
pub proof fn lemma_lexeme_end(s: Seq<char>, start: int)
    requires
        0 <= start < s.len(),
    ensures
        start < lexeme_end(s, start) <= s.len(),
{
    if CharClass::Letter.contains(s[start]) {
        lemma_run_end(s, start + 1, CharClass::Word);
    } else if CharClass::Digit.contains(s[start]) {
        lemma_run_end(s, start + 1, CharClass::Digit);
    }
}

/// The token that a lexeme spells, by the character the lexeme begins with.
pub proof fn lemma_lexeme_token(s: Seq<char>, start: int)
    requires
        0 <= start < s.len(),
    ensures
        token_for(s.subrange(start, lexeme_end(s, start))) == ({
            let first = s[start];
            let lexeme = s.subrange(start, lexeme_end(s, start));
            if CharClass::Letter.contains(first) {
                match keyword_kind(lexeme) {
                    Some(kind) => TokenView::fixed(kind),
                    None => TokenView { kind: TokenKind::IDENT, literal: lexeme },
                }
            } else if CharClass::Digit.contains(first) {
                TokenView { kind: TokenKind::INT, literal: lexeme }
            } else if lexeme_end(s, start) == start + 2 {
                TokenView::fixed(
                    if first == '=' {
                        TokenKind::EQ
                    } else {
                        TokenKind::NOT_EQ
                    },
                )
            } else {
                match symbol_kind(first) {
                    Some(kind) => TokenView::fixed(kind),
                    None => TokenView { kind: TokenKind::ILLEGAL, literal: seq![first] },
                }
            }
        }),
{
    let end = lexeme_end(s, start);
    let lexeme = s.subrange(start, end);
    lemma_lexeme_end(s, start);
    if CharClass::Letter.contains(s[start]) {
        lemma_run_end(s, start, CharClass::Word);
    } else if CharClass::Digit.contains(s[start]) {
        lemma_run_end(s, start, CharClass::Digit);
    } else if end == start + 2 {
        assert(lexeme == seq![s[start], '=']);
    } else {
        assert(lexeme == seq![s[start]]);
    }
}

/// Keywords come before identifiers in the scanner too. Where the next
/// lexeme begins with a letter or an underscore, it is the longest run of
/// letters, digits and underscores from there; the token is `LET` where that
/// run is `let`, `FUNCTION` where it is `func`, and else an identifier that
/// carries the run.
pub proof fn lemma_word_token(s: Seq<char>, pos: int)
    requires
        0 <= pos <= s.len(),
        lexeme_start(s, pos) < s.len(),
        CharClass::Letter.contains(s[lexeme_start(s, pos)]),
    ensures
        position_after(s, pos) == run_end(s, lexeme_start(s, pos), CharClass::Word),
        token_at(s, pos) == ({
            let word = s.subrange(lexeme_start(s, pos), position_after(s, pos));
            if word =~= seq!['l', 'e', 't'] {
                TokenView::fixed(TokenKind::LET)
            } else if word =~= seq!['f', 'u', 'n', 'c'] {
                TokenView::fixed(TokenKind::FUNCTION)
            } else {
                TokenView { kind: TokenKind::IDENT, literal: word }
            }
        }),
{
    let start = lexeme_start(s, pos);
    lemma_run_end(s, pos, CharClass::Whitespace);
    lemma_lexeme_token(s, start);
}

/// One character of lookahead decides between `=` and `==`, and between `!`
/// and `!=`. Where `=` follows at once, the two characters are one token,
/// `EQ` or `NOT_EQ`; where it does not, the first character alone is
/// `ASSIGN` or `BANG`.
pub proof fn lemma_lookahead(s: Seq<char>, pos: int)
    requires
        0 <= pos <= s.len(),
        lexeme_start(s, pos) < s.len(),
        s[lexeme_start(s, pos)] == '=' || s[lexeme_start(s, pos)] == '!',
    ensures
        ({
            let start = lexeme_start(s, pos);
            let paired = start + 1 < s.len() && s[start + 1] == '=';
            &&& position_after(s, pos) == if paired {
                start + 2
            } else {
                start + 1
            }
            &&& token_at(s, pos).literal == Seq::<char>::empty()
            &&& token_at(s, pos).kind == if s[start] == '=' {
                if paired {
                    TokenKind::EQ
                } else {
                    TokenKind::ASSIGN
                }
            } else {
                if paired {
                    TokenKind::NOT_EQ
                } else {
                    TokenKind::BANG
                }
            }
        }),
{
    lemma_run_end(s, pos, CharClass::Whitespace);
    lemma_lexeme_token(s, lexeme_start(s, pos));
}

/// The scanner and the classification of whole spellings agree: a text that
/// is one lexeme is scanned as the token that the lexeme is, and the scanner
/// is then at the end of the text.
pub proof fn lemma_single_lexeme(text: Seq<char>)
    requires
        is_lexeme(text),
    ensures
        token_at(text, 0) == token_for(text),
        position_after(text, 0) == text.len(),
{
    assert(text.subrange(0, text.len() as int) == text);
    if is_identifier(text) {
        lemma_run_end_unique(text, 0, text.len() as int, CharClass::Word);
    } else if is_integer(text) {
        lemma_run_end_unique(text, 0, text.len() as int, CharClass::Digit);
    }
}

/// One step of scanning: the scanner never moves backwards or past the end,
/// skips nothing but whitespace, moves forwards unless it is at the end, and
/// is at the end once it has reported the end of input.
pub proof fn lemma_step(s: Seq<char>, pos: int)
    requires
        0 <= pos <= s.len(),
    ensures
        pos <= lexeme_start(s, pos) <= position_after(s, pos) <= s.len(),
        CharClass::Whitespace.contains_all(s.subrange(pos, lexeme_start(s, pos))),
        token_at(s, pos).kind == TokenKind::EOF <==> lexeme_start(s, pos) == s.len(),
        token_at(s, pos).kind == TokenKind::EOF ==> position_after(s, pos) == s.len(),
        token_at(s, pos).kind != TokenKind::EOF ==> pos < position_after(s, pos),
        pos < s.len() ==> pos < position_after(s, pos),
{
    lemma_run_end(s, pos, CharClass::Whitespace);
    let start = lexeme_start(s, pos);
    if start < s.len() {
        lemma_lexeme_end(s, start);
        lemma_lexeme_token(s, start);
    }
}

/// The text of a token: a token that carries text carries the text of its
/// lexeme, unchanged and not empty, and every other token carries none. An
/// identifier is shaped like one and is no reserved word, an integer is
/// digits throughout, and an illegal token is one character.
pub proof fn lemma_literal(s: Seq<char>, pos: int)
    requires
        0 <= pos <= s.len(),
    ensures
        ({
            let token = token_at(s, pos);
            let lexeme = s.subrange(lexeme_start(s, pos), position_after(s, pos));
            &&& token.kind.has_literal() ==> token.literal == lexeme && lexeme.len() > 0
            &&& !token.kind.has_literal() ==> token.literal == Seq::<char>::empty()
            &&& token.kind == TokenKind::IDENT ==> is_identifier(lexeme) && keyword_kind(lexeme)
                is None
            &&& token.kind == TokenKind::INT ==> is_integer(lexeme)
            &&& token.kind == TokenKind::ILLEGAL ==> lexeme.len() == 1
        }),
{
    lemma_run_end(s, pos, CharClass::Whitespace);
    let start = lexeme_start(s, pos);
    if start < s.len() {
        lemma_lexeme_end(s, start);
        lemma_lexeme_token(s, start);
        lemma_run_end(s, start, CharClass::Word);
        lemma_run_end(s, start, CharClass::Digit);
    }
}

} // verus!
