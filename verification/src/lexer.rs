//! The scanner: it owns the source text and a cursor into it, and hands out
//! one token per call.

use crate::charclass::{lemma_run_end_unique, run_end, CharClass};
use crate::keyword::kind_for;
use crate::scan::{
    lemma_lexeme_token, lemma_literal, lemma_step, lexeme_start, position_after, token_at,
};
use crate::token::{is_identifier, is_integer, symbol_for, Token, TokenKind, TokenView};
use vstd::prelude::*;

verus! {

/// Assumed of `String::push` in the standard library, and not proved here:
/// the call appends `ch` to the end of the string and leaves the characters
/// before it as they were.
pub assume_specification[ String::push ](s: &mut String, ch: char)
    ensures
        final(s)@ == old(s)@.push(ch),
;

/// The character that stands for "no character": what the cursor holds once
/// it has reached the end of the text. It belongs to no character class, so
/// that no run goes on past the end.
const SENTINEL: char = '\0';

/// Where the scanner stands in its text.
struct Cursor {
    /// Index of the character under examination.
    position: usize,
    /// Index of the character to read next.
    read_position: usize,
    /// The character under examination, or the sentinel past the end.
    current_char: char,
}

/// A scanner over one source text.
pub struct Lexer {
    input: Vec<char>,
    cursor: Cursor,
}

/// The mathematical value of a scanner: its text, and how far it has come.
pub struct LexerView {
    pub input: Seq<char>,
    pub position: nat,
}

impl LexerView {
    /// Whether the scanner stands inside its text or at its end, and the
    /// text is one that fits in memory. A scanner is made so, and stays so.
    pub open spec fn valid(self) -> bool {
        self.position <= self.input.len() <= usize::MAX
    }

    /// The token that the scanner hands out next.
    pub open spec fn token(self) -> TokenView {
        token_at(self.input, self.position as int)
    }

    /// Where the text of the next token begins.
    pub open spec fn token_start(self) -> int {
        lexeme_start(self.input, self.position as int)
    }

    /// The scanner once it has handed out its next token.
    pub open spec fn advance(self) -> LexerView {
        LexerView {
            input: self.input,
            position: position_after(self.input, self.position as int) as nat,
        }
    }
}

impl View for Lexer {
    type V = LexerView;

    closed spec fn view(&self) -> LexerView {
        LexerView { input: self.input@, position: self.cursor.position as nat }
    }
}

impl Lexer {
    /// The cursor is inside the text or at its end. Inside, it reads one
    /// character ahead and holds the character it is at; at the end, it
    /// reads no further and holds the sentinel.
    #[verifier::type_invariant]
    spec fn well_formed(&self) -> bool {
        let len = self.input@.len();
        let position = self.cursor.position as int;
        &&& position <= len
        &&& self.cursor.read_position == if position < len {
            position + 1
        } else {
            position
        }
        &&& self.cursor.current_char == if position < len {
            self.input@[position]
        } else {
            SENTINEL
        }
    }

    /// A scanner at the beginning of `input`.
    pub fn new(input: &str) -> (lexer: Lexer)
        ensures
            lexer@.input == input@,
            lexer@.position == 0,
            lexer@.valid(),
    {
        let mut text: Vec<char> = Vec::new();
        for c in chars: input.chars()
            invariant
                text@ == chars.seq().take(chars.index() as int),
        {
            text.push(c);
        }
        let cursor = if text.len() > 0 {
            Cursor { position: 0, read_position: 1, current_char: text[0] }
        } else {
            Cursor { position: 0, read_position: 0, current_char: SENTINEL }
        };
        Lexer { input: text, cursor }
    }

    /// Moves the cursor on by one character; at the end it stays.
    fn read_char(&mut self)
        ensures
            final(self)@.input == old(self)@.input,
            final(self)@.position == if old(self)@.position < old(self)@.input.len() {
                old(self)@.position + 1
            } else {
                old(self)@.position
            },
    {
        proof {
            use_type_invariant(&*self);
        }
        let position = self.cursor.read_position;
        self.cursor = if position < self.input.len() {
            Cursor { position, read_position: position + 1, current_char: self.input[position] }
        } else {
            Cursor { position, read_position: position, current_char: SENTINEL }
        };
    }

    /// The character behind the one under examination, or the sentinel where
    /// there is none.
    fn peek_char(&self) -> (c: char)
        ensures
            c == if self@.position + 1 < self@.input.len() {
                self@.input[self@.position as int + 1]
            } else {
                SENTINEL
            },
    {
        proof {
            use_type_invariant(self);
        }
        if self.cursor.read_position < self.input.len() {
            self.input[self.cursor.read_position]
        } else {
            SENTINEL
        }
    }

    /// Moves the cursor to the end of the run of `class` characters that it
    /// stands at, and returns the text of the run.
    fn read_run(&mut self, class: CharClass) -> (text: String)
        requires
            !class.contains(SENTINEL),
        ensures
            final(self)@.input == old(self)@.input,
            final(self)@.position == run_end(
                old(self)@.input,
                old(self)@.position as int,
                class,
            ),
            text@ == old(self)@.input.subrange(
                old(self)@.position as int,
                final(self)@.position as int,
            ),
    {
        let ghost input = self@.input;
        let ghost start = self@.position as int;
        let mut text = String::new();
        proof {
            use_type_invariant(&*self);
        }
        while class.has(self.cursor.current_char)
            invariant
                self@.input == input,
                0 <= start <= self@.position <= input.len(),
                self.cursor.current_char == if self@.position < input.len() {
                    input[self@.position as int]
                } else {
                    SENTINEL
                },
                text@ == input.subrange(start, self@.position as int),
                class.contains_all(text@),
                !class.contains(SENTINEL),
            decreases input.len() - self@.position,
        {
            text.push(self.cursor.current_char);
            self.read_char();
            proof {
                use_type_invariant(&*self);
            }
        }
        proof {
            lemma_run_end_unique(input, start, self@.position as int, class);
        }
        text
    }

    /// Moves the cursor over the whitespace that it stands at.
    fn skip_whitespace(&mut self)
        ensures
            final(self)@.input == old(self)@.input,
            final(self)@.position == old(self)@.token_start(),
    {
        let ghost input = self@.input;
        let ghost start = self@.position as int;
        proof {
            use_type_invariant(&*self);
        }
        while CharClass::Whitespace.has(self.cursor.current_char)
            invariant
                self@.input == input,
                0 <= start <= self@.position <= input.len(),
                self.cursor.current_char == if self@.position < input.len() {
                    input[self@.position as int]
                } else {
                    SENTINEL
                },
                CharClass::Whitespace.contains_all(input.subrange(start, self@.position as int)),
            decreases input.len() - self@.position,
        {
            let ghost before = self@.position as int;
            self.read_char();
            proof {
                use_type_invariant(&*self);
                assert(input.subrange(start, before + 1) == input.subrange(start, before).push(
                    input[before],
                ));
            }
        }
        proof {
            lemma_run_end_unique(input, start, self@.position as int, CharClass::Whitespace);
        }
    }

    /// Hands out the next token and moves behind it.
    ///
    /// Whitespace before the token is skipped. At the end of the text the
    /// token is the end of input, now and on every later call. A token that
    /// carries text carries the text it was read from, unchanged. A
    /// character that begins no token is handed out as an illegal token of
    /// its own, the NUL character too: only the end of the text ends the
    /// scan.
    pub fn next_token(&mut self) -> (token: Token)
        ensures
            token@ == old(self)@.token(),
            final(self)@ == old(self)@.advance(),
            old(self)@.valid() && final(self)@.valid(),
            old(self)@.position <= final(self)@.position,
            token@.kind != TokenKind::EOF ==> old(self)@.position < final(self)@.position,
            old(self)@.position < old(self)@.input.len() ==> old(self)@.position
                < final(self)@.position,
            token@.kind == TokenKind::EOF ==> final(self)@.position == old(self)@.input.len(),
            token@.kind.has_literal() ==> token@.literal.len() > 0,
            token@.kind.has_literal() ==> token@.literal == old(self)@.input.subrange(
                old(self)@.token_start(),
                final(self)@.position as int,
            ),
            !token@.kind.has_literal() ==> token@.literal == Seq::<char>::empty(),
            token@.kind == TokenKind::IDENT ==> is_identifier(token@.literal),
            token@.kind == TokenKind::INT ==> is_integer(token@.literal),
            token@.kind == TokenKind::ILLEGAL ==> token@.literal.len() == 1,
    {
        let ghost input = self@.input;
        proof {
            use_type_invariant(&*self);
            lemma_step(input, self@.position as int);
            lemma_literal(input, self@.position as int);
        }
        self.skip_whitespace();
        proof {
            use_type_invariant(&*self);
        }
        if self.cursor.position >= self.input.len() {
            return Token::EOF;
        }
        let ghost start = self@.position as int;
        proof {
            lemma_lexeme_token(input, start);
        }
        let first = self.cursor.current_char;
        if CharClass::Letter.has(first) {
            let word = self.read_run(CharClass::Word);
            match kind_for(word.as_str()) {
                Some(kind) => Token::new(kind, String::new()),
                None => Token::IDENT(word),
            }
        } else if CharClass::Digit.has(first) {
            Token::INT(self.read_run(CharClass::Digit))
        } else if (first == '=' || first == '!') && self.peek_char() == '=' {
            self.read_char();
            self.read_char();
            if first == '=' {
                Token::EQ
            } else {
                Token::NOT_EQ
            }
        } else {
            self.read_char();
            match symbol_for(first) {
                Some(kind) => Token::new(kind, String::new()),
                None => {
                    let mut text = String::new();
                    text.push(first);
                    Token::ILLEGAL(text)
                },
            }
        }
    }
}

} // verus!
