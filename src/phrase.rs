//! The outside services that the session draws on: the random phrase source
//! and std's notion of whitespace.
use vstd::prelude::*;

verus! {

/// The characters with the Unicode `White_Space` property.
pub open spec fn white_space(c: char) -> bool {
    ||| '\u{9}' <= c <= '\u{d}'
    ||| c == ' '
    ||| c == '\u{85}'
    ||| c == '\u{a0}'
    ||| c == '\u{1680}'
    ||| '\u{2000}' <= c <= '\u{200a}'
    ||| c == '\u{2028}'
    ||| c == '\u{2029}'
    ||| c == '\u{202f}'
    ||| c == '\u{205f}'
    ||| c == '\u{3000}'
}

/// The number of spaces in `s`.
pub open spec fn count_spaces(s: Seq<char>) -> nat
    decreases s.len(),
{
    if s.len() == 0 {
        0
    } else {
        count_spaces(s.drop_last()) + if s.last() == ' ' {
            1nat
        } else {
            0nat
        }
    }
}

/// `s` is `n` non-empty words, none holding whitespace, joined by single
/// spaces: empty exactly when `n` is zero, no space at either end, no two
/// spaces in a row, no whitespace but the space, and one space fewer than
/// words.
pub open spec fn is_phrase(s: Seq<char>, n: nat) -> bool {
    &&& (n == 0 <==> s.len() == 0)
    &&& s.len() > 0 ==> s[0] != ' ' && s.last() != ' '
    &&& forall|i: int| 0 <= i < s.len() - 1 && #[trigger] s[i] == ' ' ==> s[i + 1] != ' '
    &&& forall|i: int| 0 <= i < s.len() && white_space(#[trigger] s[i]) ==> s[i] == ' '
    &&& n > 0 ==> count_spaces(s) + 1 == n
}

/// Relies on `rand_word::new`: `words` words drawn at random from a fixed
/// list of non-empty words without whitespace, joined by single spaces,
/// returned here as its characters. Which words come is left to chance.
#[verifier::external_body]
pub(crate) fn random_phrase(words: usize) -> (r: Vec<char>)
    ensures
        is_phrase(r@, words as nat),
{
    rand_word::new(words).chars().collect()
}

/// Relies on `char::is_whitespace`: whether the character has the Unicode
/// `White_Space` property.
#[verifier::external_body]
pub(crate) fn is_whitespace(c: char) -> (r: bool)
    ensures
        r == white_space(c),
{
    c.is_whitespace()
}

} // verus!
