//! The token stream of a whole text: what call after call of the scanner
//! yields, and that it comes to an end.

use crate::lexer::LexerView;
use crate::scan::lemma_step;
use crate::token::{TokenKind, TokenView};
use vstd::prelude::*;

verus! {

impl LexerView {
    /// The scanner once it has handed out `calls` tokens.
    pub open spec fn after(self, calls: nat) -> LexerView
        decreases calls,
    {
        if calls == 0 {
            self
        } else {
            self.after((calls - 1) as nat).advance()
        }
    }

    /// How many tokens the scanner hands out before the end of input.
    pub open spec fn tokens_left(self) -> nat
        decreases self.input.len() - self.position,
    {
        if self.valid() && self.token().kind != TokenKind::EOF {
            proof {
                lemma_step(self.input, self.position as int);
            }
            1 + self.advance().tokens_left()
        } else {
            0
        }
    }
}

/// Handing out one token and then `calls` more is handing out `calls + 1`.
pub proof fn lemma_after_first(v: LexerView, calls: nat)
    ensures
        v.advance().after(calls) == v.after(calls + 1),
    decreases calls,
{
    if calls > 0 {
        lemma_after_first(v, (calls - 1) as nat);
    } else {
        assert(v.after(1) == v.after(0).advance());
    }
}

/// Scanning keeps the text, keeps the scanner inside it, and never moves
/// backwards.
pub proof fn lemma_after_valid(v: LexerView, calls: nat)
    requires
        v.valid(),
    ensures
        v.after(calls).valid(),
        v.after(calls).input == v.input,
        v.position <= v.after(calls).position,
    decreases calls,
{
    if calls > 0 {
        let before = v.after((calls - 1) as nat);
        lemma_after_valid(v, (calls - 1) as nat);
        lemma_step(before.input, before.position as int);
    }
}

/// Once the scanner has reported the end of input, it reports it on every
/// later call, with no text, and stays where the first report left it.
pub proof fn lemma_end_of_input_repeats(v: LexerView, calls: nat)
    requires
        v.token().kind == TokenKind::EOF,
    ensures
        v.after(calls).token() == TokenView::fixed(TokenKind::EOF),
        calls >= 1 ==> v.after(calls) == v.advance(),
    decreases calls,
{
    lemma_end_is_fixed(v);
    if calls > 0 {
        lemma_end_of_input_repeats(v, (calls - 1) as nat);
        lemma_end_is_fixed(v.after((calls - 1) as nat));
    }
}

/// A scanner that reports the end of input reports it with no text, and
/// reports it again after that call, from the same place.
proof fn lemma_end_is_fixed(v: LexerView)
    requires
        v.token().kind == TokenKind::EOF,
    ensures
        v.token() == TokenView::fixed(TokenKind::EOF),
        v.advance().token() == TokenView::fixed(TokenKind::EOF),
        v.advance().advance() == v.advance(),
{
    if v.valid() {
        lemma_step(v.input, v.position as int);
    }
}

/// Scanning comes to an end: from a text of `n` characters left, the end of
/// input is reported after `n` tokens at most. Every call before that one
/// hands out a token that is not the end of input and moves the scanner
/// forwards.
pub proof fn lemma_scanning_ends(v: LexerView)
    requires
        v.valid(),
    ensures
        v.tokens_left() <= v.input.len() - v.position,
        v.after(v.tokens_left()).token().kind == TokenKind::EOF,
        forall|calls: nat|
            calls < v.tokens_left() ==> (#[trigger] v.after(calls)).token().kind
                != TokenKind::EOF && v.after(calls).position < v.after(calls + 1).position,
    decreases v.input.len() - v.position,
{
    if v.token().kind != TokenKind::EOF {
        lemma_step(v.input, v.position as int);
        let next = v.advance();
        lemma_scanning_ends(next);
        lemma_after_first(v, next.tokens_left());
        assert forall|calls: nat| calls < v.tokens_left() implies (#[trigger] v.after(
            calls,
        )).token().kind != TokenKind::EOF && v.after(calls).position < v.after(
            calls + 1,
        ).position by {
            if calls > 0 {
                lemma_after_first(v, (calls - 1) as nat);
            }
        }
    }
}

} // verus!
