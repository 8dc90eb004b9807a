//! The reserved words of the language.

use crate::token::TokenKind;
use vstd::prelude::*;
use vstd::std_specs::iter::IteratorSpec;

verus! {

/// The reserved words, each with the kind of its token. A new reserved word
/// is a new entry here, and a new line in `keyword_kind`.
pub const KEYWORDS: [(&'static str, TokenKind); 2] = [
    ("let", TokenKind::LET),
    ("func", TokenKind::FUNCTION),
];

/// The kind of the reserved word spelled `spelling`, if it is one: `let` and
/// `func` are reserved, in lower case only, and no other spelling is.
pub open spec fn keyword_kind(spelling: Seq<char>) -> Option<TokenKind> {
    if spelling =~= seq!['l', 'e', 't'] {
        Some(TokenKind::LET)
    } else if spelling =~= seq!['f', 'u', 'n', 'c'] {
        Some(TokenKind::FUNCTION)
    } else {
        None
    }
}

/// The kind that the first entry of the table spelled `spelling` gives, of
/// the entries from `from` on.
spec fn table_kind(spelling: Seq<char>, from: int) -> Option<TokenKind>
    decreases KEYWORDS@.len() - from,
{
    if 0 <= from < KEYWORDS@.len() {
        if KEYWORDS@[from].0@ == spelling {
            Some(KEYWORDS@[from].1)
        } else {
            table_kind(spelling, from + 1)
        }
    } else {
        None
    }
}

/// The table holds the reserved words, each with its kind, and nothing else.
proof fn lemma_table_kind(spelling: Seq<char>)
    ensures
        table_kind(spelling, 0) == keyword_kind(spelling),
{
    reveal_strlit("let");
    reveal_strlit("func");
    reveal_with_fuel(table_kind, 3);
    assert("let"@ == seq!['l', 'e', 't']);
    assert("func"@ == seq!['f', 'u', 'n', 'c']);
}

/// Whether two strings hold the same characters.
fn same_spelling(a: &str, b: &str) -> (r: bool)
    ensures
        r == (a@ == b@),
{
    let mut rest_a = a.chars();
    let mut rest_b = b.chars();
    let ghost mut n: int = 0;
    loop
        invariant
            0 <= n <= a@.len(),
            n <= b@.len(),
            rest_a.remaining() == a@.skip(n),
            rest_b.remaining() == b@.skip(n),
            a@.take(n) == b@.take(n),
        decreases a@.len() - n,
    {
        match (rest_a.next(), rest_b.next()) {
            (None, None) => {
                assert(a@ == a@.take(n));
                assert(b@ == b@.take(n));
                return true;
            },
            (Some(x), Some(y)) => {
                if x != y {
                    return false;
                }
            },
            _ => {
                return false;
            },
        }
        proof {
            n = n + 1;
        }
    }
}

/// Looks `spelling` up among the reserved words: the kind of the word's
/// token where it is one, nothing where it is not. The match is exact and
/// case-sensitive.
pub fn kind_for(spelling: &str) -> (kind: Option<TokenKind>)
    ensures
        kind == keyword_kind(spelling@),
{
    proof {
        lemma_table_kind(spelling@);
    }
    let mut i: usize = 0;
    while i < KEYWORDS.len()
        invariant
            i <= KEYWORDS@.len(),
            table_kind(spelling@, i as int) == keyword_kind(spelling@),
        decreases KEYWORDS@.len() - i,
    {
        if same_spelling(KEYWORDS[i].0, spelling) {
            return Some(KEYWORDS[i].1);
        }
        i += 1;
    }
    None
}

} // verus!
