use vstd::prelude::*;

use crate::configuration::LocalePreference;
use crate::path::utf8_text;
use vstd::utf8::{decode_utf8, valid_utf8};
use crate::text::{ascii_lower, char_ascii_lower, eq_ignoring_ascii_case, text_eq_ignore_ascii_case};

verus! {

/// The ASCII upper-case form of a character; other characters are unchanged.
pub open spec fn ascii_upper(c: char) -> char {
    if 'a' <= c && c <= 'z' {
        ((c as u32) - 32) as char
    } else {
        c
    }
}

fn char_ascii_upper(c: char) -> (r: char)
    ensures
        r == ascii_upper(c),
{
    if 'a' <= c && c <= 'z' {
        let code: u8 = (c as u8) - 32;
        code as char
    } else {
        c
    }
}

pub open spec fn is_ascii_alphabetic(c: char) -> bool {
    ('a' <= c && c <= 'z') || ('A' <= c && c <= 'Z')
}

pub open spec fn is_ascii_alphanumeric(c: char) -> bool {
    is_ascii_alphabetic(c) || ('0' <= c && c <= '9')
}

/// The part of a platform locale before its encoding (`.`) or modifier (`@`).
pub open spec fn locale_head(text: Seq<char>) -> Seq<char>
    decreases text.len(),
{
    if text.len() == 0 {
        text
    } else if text[0] == '.' || text[0] == '@' {
        Seq::empty()
    } else {
        seq![text[0]] + locale_head(text.drop_first())
    }
}

/// The separator of a platform locale (`_`) written as a tag separator.
pub open spec fn tag_char(c: char) -> char {
    if c == '_' {
        '-'
    } else {
        c
    }
}

/// The `-`-separated segments of a text, in order; empty ones included.
pub open spec fn dash_segments(text: Seq<char>) -> Seq<Seq<char>>
    decreases text.len(),
{
    if text.len() == 0 {
        seq![Seq::empty()]
    } else if tag_char(text.last()) == '-' {
        dash_segments(text.drop_last()).push(Seq::empty())
    } else {
        let before = dash_segments(text.drop_last());
        before.update(before.len() - 1, before.last().push(text.last()))
    }
}

pub open spec fn lower_all(segment: Seq<char>) -> Seq<char> {
    segment.map_values(|c: char| ascii_lower(c))
}

pub open spec fn upper_all(segment: Seq<char>) -> Seq<char> {
    segment.map_values(|c: char| ascii_upper(c))
}

pub open spec fn all_alphabetic(segment: Seq<char>) -> bool {
    forall|i: int| 0 <= i < segment.len() ==> is_ascii_alphabetic(#[trigger] segment[i])
}

/// A segment of a tag: not empty, and only ASCII letters and digits.
pub open spec fn segment_valid(segment: Seq<char>) -> bool {
    segment.len() > 0 && forall|i: int|
        0 <= i < segment.len() ==> is_ascii_alphanumeric(#[trigger] segment[i])
}

/// The canonical case of a segment: the language lower-case, a script of
/// four letters title-case, a region of two letters upper-case, anything
/// else lower-case.
pub open spec fn segment_form(segment: Seq<char>, position: int) -> Seq<char> {
    if position == 0 {
        lower_all(segment)
    } else if segment.len() == 4 && all_alphabetic(segment) {
        seq![ascii_upper(segment[0])] + lower_all(segment.drop_first())
    } else if segment.len() == 2 && all_alphabetic(segment) {
        upper_all(segment)
    } else {
        lower_all(segment)
    }
}

/// The canonical segments joined by `-`.
pub open spec fn joined_forms(segments: Seq<Seq<char>>) -> Seq<char>
    decreases segments.len(),
{
    if segments.len() == 0 {
        Seq::empty()
    } else if segments.len() == 1 {
        segment_form(segments[0], 0)
    } else {
        joined_forms(segments.drop_last()) + seq!['-'] + segment_form(
            segments.last(),
            segments.len() - 1,
        )
    }
}

/// The canonical tag of a platform locale: `C` and `POSIX` in any case are
/// kept as such; otherwise the part before the encoding, with `_` read as
/// `-`, must be segments of ASCII letters and digits, which are put in
/// canonical case.
pub open spec fn normalized_locale(text: Seq<char>) -> Option<Seq<char>> {
    let head = locale_head(text);
    if eq_ignoring_ascii_case(head, "C"@) {
        Some("C"@)
    } else if eq_ignoring_ascii_case(head, "POSIX"@) {
        Some("POSIX"@)
    } else {
        let segments = dash_segments(head);
        if forall|k: int| 0 <= k < segments.len() ==> segment_valid(#[trigger] segments[k]) {
            Some(joined_forms(segments))
        } else {
            None
        }
    }
}

/// Text made of the given characters, in order.
///
/// Calls `String::from_iter` over the characters, which appends each one in
/// turn; the contract states that the text is exactly those characters.
#[verifier::external_body]
fn text_of(chars: &[char]) -> (r: String)
    ensures
        r@ == chars@,
{
    String::from_iter(chars.iter())
}

fn head_of(value: &str) -> (r: Vec<char>)
    ensures
        r@ == locale_head(value@),
{
    let n = value.unicode_len();
    let mut head: Vec<char> = Vec::new();
    let mut i: usize = 0;
    proof {
        assert(value@.skip(0) =~= value@);
        assert(head@ + locale_head(value@) =~= locale_head(value@));
    }
    while i < n
        invariant
            n == value@.len(),
            i <= n,
            locale_head(value@) == head@ + locale_head(value@.skip(i as int)),
        decreases n - i,
    {
        let c = value.get_char(i);
        proof {
            assert(value@.skip(i as int)[0] == c);
            assert(value@.skip(i as int).drop_first() =~= value@.skip(i as int + 1));
        }
        if c == '.' || c == '@' {
            proof {
                assert(head@ + Seq::<char>::empty() =~= head@);
            }
            return head;
        }
        head.push(c);
        proof {
            assert(head@ =~= head@.drop_last() + seq![c]);
        }
        i = i + 1;
    }
    proof {
        assert(value@.skip(i as int).len() == 0);
        assert(head@ + value@.skip(i as int) =~= head@);
    }
    head
}

fn segment_is_valid(segment: &Vec<char>) -> (r: bool)
    ensures
        r == segment_valid(segment@),
{
    if segment.len() == 0 {
        return false;
    }
    let mut i: usize = 0;
    while i < segment.len()
        invariant
            i <= segment@.len(),
            forall|j: int| 0 <= j < i ==> is_ascii_alphanumeric(#[trigger] segment@[j]),
        decreases segment@.len() - i,
    {
        let c = segment[i];
        if !(('a' <= c && c <= 'z') || ('A' <= c && c <= 'Z') || ('0' <= c && c <= '9')) {
            return false;
        }
        i = i + 1;
    }
    true
}

fn segment_is_alphabetic(segment: &Vec<char>) -> (r: bool)
    ensures
        r == all_alphabetic(segment@),
{
    let mut i: usize = 0;
    while i < segment.len()
        invariant
            i <= segment@.len(),
            forall|j: int| 0 <= j < i ==> is_ascii_alphabetic(#[trigger] segment@[j]),
        decreases segment@.len() - i,
    {
        let c = segment[i];
        if !(('a' <= c && c <= 'z') || ('A' <= c && c <= 'Z')) {
            return false;
        }
        i = i + 1;
    }
    true
}

/// Appends the canonical form of a segment at a position.
fn push_segment_form(out: &mut Vec<char>, segment: &Vec<char>, position: usize)
    ensures
        final(out)@ == old(out)@ + segment_form(segment@, position as int),
{
    let title = position != 0 && segment.len() == 4 && segment_is_alphabetic(segment);
    let upper = position != 0 && !title && segment.len() == 2 && segment_is_alphabetic(segment);
    let ghost start = out@;
    let mut i: usize = 0;
    while i < segment.len()
        invariant
            i <= segment@.len(),
            out@.len() == start.len() + i,
            out@.subrange(0, start.len() as int) == start,
            forall|j: int|
                0 <= j < i ==> out@[start.len() + j] == if (title && j == 0) || upper {
                    ascii_upper(segment@[j])
                } else {
                    ascii_lower(segment@[j])
                },
        decreases segment@.len() - i,
    {
        let c = segment[i];
        let mapped = if (title && i == 0) || upper {
            char_ascii_upper(c)
        } else {
            char_ascii_lower(c)
        };
        out.push(mapped);
        i = i + 1;
    }
    proof {
        let form = segment_form(segment@, position as int);
        assert(form.len() == segment@.len());
        assert forall|j: int| 0 <= j < segment@.len() implies out@[start.len() + j] == form[j] by {
            if position != 0 && segment@.len() == 4 && all_alphabetic(segment@) && j > 0 {
                assert(form[j] == lower_all(segment@.drop_first())[j - 1]);
            }
        }
        assert(out@ =~= start + form);
    }
}

/// The canonical tag of a platform locale value, when it is well formed.
pub fn normalize_locale(value: &str) -> (r: Option<String>)
    ensures
        match normalized_locale(value@) {
            Some(tag) => r matches Some(text) && text@ == tag,
            None => r is None,
        },
{
    let head = head_of(value);
    let head_text = text_of(head.as_slice());
    if text_eq_ignore_ascii_case(head_text.as_str(), "C") {
        return Some("C".to_owned());
    }
    if text_eq_ignore_ascii_case(head_text.as_str(), "POSIX") {
        return Some("POSIX".to_owned());
    }
    let mut done: Vec<Vec<char>> = Vec::new();
    let mut current: Vec<char> = Vec::new();
    let mut i: usize = 0;
    proof {
        assert(head@.take(0) =~= Seq::<char>::empty());
        assert(done@.map_values(|s: Vec<char>| s@).push(current@) =~= seq![Seq::<char>::empty()]);
    }
    while i < head.len()
        invariant
            head@ == locale_head(value@),
            !eq_ignoring_ascii_case(head@, "C"@),
            !eq_ignoring_ascii_case(head@, "POSIX"@),
            i <= head@.len(),
            dash_segments(head@.take(i as int)) == done@.map_values(|s: Vec<char>| s@).push(
                current@,
            ),
        decreases head@.len() - i,
    {
        let c = head[i];
        proof {
            assert(head@.take(i as int + 1).drop_last() =~= head@.take(i as int));
            assert(head@.take(i as int + 1).last() == c);
        }
        if c == '-' || c == '_' {
            let finished = current;
            current = Vec::new();
            let ghost before = done@.map_values(|s: Vec<char>| s@);
            done.push(finished);
            proof {
                assert(done@.map_values(|s: Vec<char>| s@) =~= before.push(finished@));
                assert(done@.map_values(|s: Vec<char>| s@).push(current@) =~= before.push(
                    finished@,
                ).push(Seq::<char>::empty()));
            }
        } else {
            let ghost before = done@.map_values(|s: Vec<char>| s@).push(current@);
            current.push(c);
            proof {
                assert(done@.map_values(|s: Vec<char>| s@).push(current@) =~= before.update(
                    before.len() - 1,
                    before.last().push(c),
                ));
            }
        }
        i = i + 1;
    }
    proof {
        assert(head@.take(i as int) =~= head@);
    }
    let ghost segments = dash_segments(head@);
    let mut out: Vec<char> = Vec::new();
    let mut k: usize = 0;
    while k < done.len()
        invariant
            head@ == locale_head(value@),
            !eq_ignoring_ascii_case(head@, "C"@),
            !eq_ignoring_ascii_case(head@, "POSIX"@),
            segments == dash_segments(head@),
            k <= done@.len(),
            segments == done@.map_values(|s: Vec<char>| s@).push(current@),
            forall|j: int| 0 <= j < k ==> segment_valid(#[trigger] segments[j]),
            out@ == if k == 0 {
                Seq::<char>::empty()
            } else {
                joined_forms(segments.take(k as int)) + seq!['-']
            },
        decreases done@.len() - k,
    {
        assert(segments[k as int] == done@[k as int]@);
        if !segment_is_valid(&done[k]) {
            return None;
        }
        let ghost before = out@;
        push_segment_form(&mut out, &done[k], k);
        proof {
            assert(segments.take(k as int + 1).drop_last() =~= segments.take(k as int));
            assert(segments.take(k as int + 1).last() == segments[k as int]);
            if k == 0 {
                assert(joined_forms(segments.take(1)) == segment_form(segments[0], 0));
            }
        }
        out.push('-');
        proof {
            assert(out@ =~= joined_forms(segments.take(k as int + 1)) + seq!['-']);
        }
        k = k + 1;
    }
    assert(segments[k as int] == current@);
    if !segment_is_valid(&current) {
        proof {
            assert(!segment_valid(segments[k as int]));
            assert(!(forall|j: int| 0 <= j < segments.len() ==> segment_valid(#[trigger] segments[j])));
        }
        return None;
    }
    push_segment_form(&mut out, &current, k);
    proof {
        assert(segments.take(k as int + 1) =~= segments);
        assert(segments.drop_last() =~= segments.take(k as int));
        assert(out@ =~= joined_forms(segments));
        assert forall|j: int| 0 <= j < segments.len() implies segment_valid(#[trigger] segments[j]) by {
            if j == k {
                assert(segments[j] == current@);
            }
        }
    }
    Some(text_of(out.as_slice()))
}

/// The first environment value from `start` on that is set and not empty.
pub open spec fn first_set_from(environment: Seq<Option<Vec<u8>>>, start: int) -> Option<Seq<u8>>
    decreases environment.len() - start,
{
    if start < 0 || start >= environment.len() {
        None
    } else {
        match environment[start] {
            Some(value) => if value@.len() > 0 {
                Some(value@)
            } else {
                first_set_from(environment, start + 1)
            },
            None => first_set_from(environment, start + 1),
        }
    }
}

/// The locale tag a reader asked for: the explicit preference when there
/// is one; else the first set, non-empty environment value in order of
/// precedence, as text. A value that is not text, or that names no
/// supported locale, does not hand over to a lower one.
pub open spec fn requested_tag(explicit: Option<Seq<char>>, environment: Seq<Option<Vec<u8>>>) -> Option<Seq<char>> {
    match explicit {
        Some(tag) => Some(tag),
        None => match first_set_from(environment, 0) {
            Some(bytes) => if valid_utf8(bytes) {
                Some(decode_utf8(bytes))
            } else {
                None
            },
            None => None,
        },
    }
}

/// The locale tag to look up for `preference`, given the environment values
/// in order of precedence (`LC_ALL`, `LC_MESSAGES`, `LANG`); `None` asks for
/// the default locale.
pub fn requested_locale(preference: &LocalePreference, environment: &[Option<Vec<u8>>]) -> (r: Option<String>)
    ensures
        match requested_tag(preference.spec_explicit(), environment@) {
            Some(tag) => r matches Some(text) && text@ == tag,
            None => r is None,
        },
{
    if let Some(explicit) = preference.explicit_value() {
        return Some(explicit.to_owned());
    }
    let mut index: usize = 0;
    while index < environment.len()
        invariant
            index <= environment@.len(),
            preference.spec_explicit() is None,
            first_set_from(environment@, 0) == first_set_from(environment@, index as int),
        decreases environment.len() - index,
    {
        match &environment[index] {
            Some(value) => {
                if value.len() > 0 {
                    return match utf8_text(value.as_slice()) {
                        Some(text) => Some(text.to_owned()),
                        None => None,
                    };
                }
            },
            None => {},
        }
        index = index + 1;
    }
    None
}

/// An explicit locale preference is asked for whatever the environment holds.
pub proof fn law_explicit_locale_takes_precedence(explicit: Seq<char>, environment: Seq<Option<Vec<u8>>>)
    ensures
        requested_tag(Some(explicit), environment) == Some(explicit),
{
}

/// Without an explicit preference, the first environment value that is set
/// and not empty decides, whatever the values after it hold.
pub proof fn law_first_set_environment_value_decides(environment: Seq<Option<Vec<u8>>>, k: int)
    requires
        0 <= k < environment.len(),
        environment[k] matches Some(value) && value@.len() > 0,
        forall|j: int| 0 <= j < k ==> (#[trigger] environment[j] matches Some(value) ==> value@.len() == 0),
    ensures
        first_set_from(environment, 0) == Some(environment[k]->0@),
        requested_tag(None, environment) == (if valid_utf8(environment[k]->0@) {
            Some(decode_utf8(environment[k]->0@))
        } else {
            None
        }),
{
    lemma_first_set_skips_unset(environment, 0, k);
}

proof fn lemma_first_set_skips_unset(environment: Seq<Option<Vec<u8>>>, start: int, k: int)
    requires
        0 <= start <= k < environment.len(),
        environment[k] matches Some(value) && value@.len() > 0,
        forall|j: int| start <= j < k ==> (#[trigger] environment[j] matches Some(value) ==> value@.len() == 0),
    ensures
        first_set_from(environment, start) == Some(environment[k]->0@),
    decreases k - start,
{
    if start < k {
        lemma_first_set_skips_unset(environment, start + 1, k);
    }
}

} // verus!
