use vstd::prelude::*;

verus! {

/// The ASCII lower-case form of a character; other characters are unchanged.
pub open spec fn ascii_lower(c: char) -> char {
    if 'A' <= c && c <= 'Z' {
        ((c as u32) + 32) as char
    } else {
        c
    }
}

/// Equality of two texts when ASCII letters are compared without case.
pub open spec fn eq_ignoring_ascii_case(left: Seq<char>, right: Seq<char>) -> bool {
    left.len() == right.len() && forall|i: int|
        0 <= i < left.len() ==> ascii_lower(#[trigger] left[i]) == ascii_lower(right[i])
}

/// The Unicode `White_Space` characters.
pub open spec fn is_unicode_whitespace(c: char) -> bool {
    ||| '\u{9}' <= c && c <= '\u{d}'
    ||| c == ' '
    ||| c == '\u{85}'
    ||| c == '\u{a0}'
    ||| c == '\u{1680}'
    ||| '\u{2000}' <= c && c <= '\u{200a}'
    ||| c == '\u{2028}'
    ||| c == '\u{2029}'
    ||| c == '\u{202f}'
    ||| c == '\u{205f}'
    ||| c == '\u{3000}'
}

/// A text with no white space at either end: trimming leaves it unchanged.
pub open spec fn is_trimmed(text: Seq<char>) -> bool {
    text.len() == 0 || (!is_unicode_whitespace(text[0]) && !is_unicode_whitespace(
        text[text.len() - 1],
    ))
}

pub fn char_ascii_lower(c: char) -> (r: char)
    ensures
        r == ascii_lower(c),
{
    if 'A' <= c && c <= 'Z' {
        let code: u8 = (c as u8) + 32;
        code as char
    } else {
        c
    }
}

pub fn char_is_whitespace(c: char) -> (r: bool)
    ensures
        r == is_unicode_whitespace(c),
{
    ('\u{9}' <= c && c <= '\u{d}') || c == ' ' || c == '\u{85}' || c == '\u{a0}' || c == '\u{1680}'
        || ('\u{2000}' <= c && c <= '\u{200a}') || c == '\u{2028}' || c == '\u{2029}' || c
        == '\u{202f}' || c == '\u{205f}' || c == '\u{3000}'
}

/// Compares two texts, ASCII letters without case.
pub fn text_eq_ignore_ascii_case(left: &str, right: &str) -> (r: bool)
    ensures
        r == eq_ignoring_ascii_case(left@, right@),
{
    let n = left.unicode_len();
    if n != right.unicode_len() {
        return false;
    }
    let mut i: usize = 0;
    while i < n
        invariant
            n == left@.len(),
            n == right@.len(),
            i <= n,
            forall|j: int| 0 <= j < i ==> ascii_lower(#[trigger] left@[j]) == ascii_lower(right@[j]),
        decreases n - i,
    {
        if char_ascii_lower(left.get_char(i)) != char_ascii_lower(right.get_char(i)) {
            return false;
        }
        i = i + 1;
    }
    true
}

/// Whether a text has no white space at either end.
pub fn text_is_trimmed(text: &str) -> (r: bool)
    ensures
        r == is_trimmed(text@),
{
    let n = text.unicode_len();
    if n == 0 {
        return true;
    }
    !char_is_whitespace(text.get_char(0)) && !char_is_whitespace(text.get_char(n - 1))
}

} // verus!
