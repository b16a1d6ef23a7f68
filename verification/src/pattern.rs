//! The shape of a classification code.
//!
//! A code is one letter naming an anatomical group, a digit from 0 to 2, a
//! digit from 1 to 9, and then optionally one upper-case letter, optionally
//! followed by a second one, optionally followed by exactly two digits. A
//! text is code-shaped when it begins with a code; what follows the code is
//! not looked at, and no case folding is done here.

use vstd::prelude::*;

verus! {

/// The letters that name an anatomical group.
pub open spec fn is_group_letter(c: char) -> bool {
    c == 'A' || c == 'B' || c == 'C' || c == 'D' || c == 'G' || c == 'H' || c == 'J' || c == 'L'
        || c == 'M' || c == 'N' || c == 'P' || c == 'R' || c == 'S' || c == 'V'
}

/// An upper-case ASCII letter.
pub open spec fn is_upper_letter(c: char) -> bool {
    'A' <= c && c <= 'Z'
}

/// An ASCII digit.
pub open spec fn is_digit(c: char) -> bool {
    '0' <= c && c <= '9'
}

/// Whether `s` begins with the three characters that every code begins
/// with: a group letter, a digit from 0 to 2, a digit from 1 to 9.
pub open spec fn has_code_head(s: Seq<char>) -> bool {
    &&& s.len() >= 3
    &&& is_group_letter(s[0])
    &&& '0' <= s[1] && s[1] <= '2'
    &&& '1' <= s[2] && s[2] <= '9'
}

/// Whether the whole of `s` is a classification code.
pub open spec fn is_code(s: Seq<char>) -> bool {
    &&& has_code_head(s)
    &&& (s.len() == 3 || (is_upper_letter(s[3]) && (s.len() == 4 || (is_upper_letter(s[4]) && (
    s.len() == 5 || (s.len() == 7 && is_digit(s[5]) && is_digit(s[6])))))))
}

/// Whether `s` begins with a classification code.
pub open spec fn code_shaped(s: Seq<char>) -> bool {
    exists|n: int| 0 <= n <= s.len() && #[trigger] is_code(s.take(n))
}

/// Tells whether a character names an anatomical group.
pub fn group_letter(c: char) -> (r: bool)
    ensures
        r == is_group_letter(c),
{
    c == 'A' || c == 'B' || c == 'C' || c == 'D' || c == 'G' || c == 'H' || c == 'J' || c == 'L'
        || c == 'M' || c == 'N' || c == 'P' || c == 'R' || c == 'S' || c == 'V'
}

/// Whether a text is code-shaped is decided by its first three characters:
/// the optional parts of a code may all be missing, and what follows a code
/// does not count.
pub proof fn law_head_decides(s: Seq<char>)
    ensures
        code_shaped(s) == has_code_head(s),
{
    if has_code_head(s) {
        assert(is_code(s.take(3)));
    } else {
        assert forall|n: int| 0 <= n <= s.len() implies !#[trigger] is_code(s.take(n)) by {
            if n >= 3 {
                assert(s.take(n)[0] == s[0]);
                assert(s.take(n)[1] == s[1]);
                assert(s.take(n)[2] == s[2]);
            }
        }
    }
}

/// A code followed by anything is code-shaped.
pub proof fn law_code_then_anything(code: Seq<char>, rest: Seq<char>)
    requires
        is_code(code),
    ensures
        code_shaped(code + rest),
{
    assert((code + rest).take(code.len() as int) =~= code);
}

/// Tells whether the characters begin with a classification code.
pub fn code_shaped_chars(v: &Vec<char>) -> (r: bool)
    ensures
        r == code_shaped(v@),
{
    proof {
        law_head_decides(v@);
    }
    v.len() >= 3 && group_letter(v[0]) && '0' <= v[1] && v[1] <= '2' && '1' <= v[2] && v[2] <= '9'
}

/// Tells whether a string begins with a classification code. The caller
/// folds the string to upper case first where case is not to count.
pub fn is_code_shaped(text: &str) -> (r: bool)
    ensures
        r == code_shaped(text@),
{
    code_shaped_chars(&crate::text::chars_of(text))
}

} // verus!
