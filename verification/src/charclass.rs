//! The character classes that decide where a token begins and ends.

use vstd::prelude::*;

verus! {

/// A class of source characters.
#[derive(Clone, Copy, Debug, PartialEq, Eq, Structural)]
pub enum CharClass {
    /// Space, tab, line feed and carriage return: skipped between tokens.
    Whitespace,
    /// An ASCII letter or the underscore: may begin an identifier.
    Letter,
    /// An ASCII decimal digit.
    Digit,
    /// A letter or a digit: may continue an identifier.
    Word,
}

impl CharClass {
    /// Whether `c` belongs to this class.
    pub open spec fn contains(self, c: char) -> bool {
        match self {
            CharClass::Whitespace => c == ' ' || c == '\t' || c == '\n' || c == '\r',
            CharClass::Letter => ('a' <= c && c <= 'z') || ('A' <= c && c <= 'Z') || c == '_',
            CharClass::Digit => '0' <= c && c <= '9',
            CharClass::Word => {
                ('a' <= c && c <= 'z') || ('A' <= c && c <= 'Z') || c == '_' || ('0' <= c && c
                    <= '9')
            },
        }
    }

    /// Whether every character of `s` belongs to this class.
    pub open spec fn contains_all(self, s: Seq<char>) -> bool {
        forall|i: int| 0 <= i < s.len() ==> self.contains(#[trigger] s[i])
    }

    /// Tests whether `c` belongs to this class.
    pub fn has(self, c: char) -> (r: bool)
        ensures
            r == self.contains(c),
    {
        match self {
            CharClass::Whitespace => c == ' ' || c == '\t' || c == '\n' || c == '\r',
            CharClass::Letter => (c >= 'a' && c <= 'z') || (c >= 'A' && c <= 'Z') || c == '_',
            CharClass::Digit => c >= '0' && c <= '9',
            CharClass::Word => {
                (c >= 'a' && c <= 'z') || (c >= 'A' && c <= 'Z') || c == '_' || (c >= '0' && c
                    <= '9')
            },
        }
    }
}

/// Where the longest run of `class` characters that begins at `from` ends:
/// the first index at or after `from` that holds no character of the class,
/// or the length of `s` where there is none.
///
/// The definition goes character by character. A proof about a given text
/// unfolds it with `reveal_with_fuel`, as often as the run is long and once
/// more, or names the end and calls `lemma_run_end_unique`.
pub open spec fn run_end(s: Seq<char>, from: int, class: CharClass) -> int
    decreases s.len() - from,
{
    if 0 <= from < s.len() && class.contains(s[from]) {
        run_end(s, from + 1, class)
    } else {
        from
    }
}

/// A run ends inside the text, holds only characters of its class, and
/// cannot be extended.
pub proof fn lemma_run_end(s: Seq<char>, from: int, class: CharClass)
    requires
        0 <= from <= s.len(),
    ensures
        from <= run_end(s, from, class) <= s.len(),
        class.contains_all(s.subrange(from, run_end(s, from, class))),
        run_end(s, from, class) < s.len() ==> !class.contains(s[run_end(s, from, class)]),
    decreases s.len() - from,
{
    let end = run_end(s, from, class);
    if from < s.len() && class.contains(s[from]) {
        lemma_run_end(s, from + 1, class);
        assert forall|i: int| 0 <= i < end - from implies class.contains(
            #[trigger] s.subrange(from, end)[i],
        ) by {
            if i > 0 {
                assert(s.subrange(from + 1, end)[i - 1] == s[from + i]);
            }
        }
    }
}

/// The end of a run is the only index of which all of this holds.
pub proof fn lemma_run_end_unique(s: Seq<char>, from: int, end: int, class: CharClass)
    requires
        0 <= from <= end <= s.len(),
        class.contains_all(s.subrange(from, end)),
        end < s.len() ==> !class.contains(s[end]),
    ensures
        run_end(s, from, class) == end,
    decreases end - from,
{
    if from < end {
        assert(s.subrange(from, end)[0] == s[from]);
        assert forall|i: int| 0 <= i < end - (from + 1) implies class.contains(
            #[trigger] s.subrange(from + 1, end)[i],
        ) by {
            assert(s.subrange(from, end)[i + 1] == s[from + 1 + i]);
        }
        lemma_run_end_unique(s, from + 1, end, class);
    }
}

} // verus!
