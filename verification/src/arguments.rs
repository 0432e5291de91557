//! Reading the time and annotation arguments of the tools, up to the numbers
//! with a fraction in them, which are read by the tools themselves.

use crate::text::{
    decimal_digits, is_digit, lemma_decimal_digits, lemma_split_pair, parse_u32, parsed_u32, split_on,
    split_text,
};
use vstd::prelude::*;

verus! {

/// A time specification, with its fractional number (if any) still as text.
#[derive(Debug, Clone, PartialEq, Eq)]
pub enum TimeForm {
    /// A percentage of the duration: the text before the trailing `%` signs.
    Percentage { number: String },
    /// A time written as minutes and seconds (`M:S`).
    MinutesSeconds { minutes: u32, seconds: u32 },
    /// A number of seconds: the whole text.
    Seconds { number: String },
}

/// `s` without its trailing occurrences of `c`.
pub open spec fn strip_trailing(s: Seq<char>, c: char) -> Seq<char>
    decreases s.len(),
{
    if s.len() > 0 && s.last() == c {
        strip_trailing(s.drop_last(), c)
    } else {
        s
    }
}

/// Minutes and seconds read from a text that holds a colon, or the message
/// that refuses it.
pub open spec fn minutes_seconds(s: Seq<char>) -> Result<(u32, u32), Seq<char>> {
    let parts = split_on(s, ':');
    if parts.len() != 2 {
        Err("Invalid time format. Use MM:SS"@)
    } else {
        match (parsed_u32(parts[0]), parsed_u32(parts[1])) {
            (None, _) => Err("Invalid minutes"@),
            (Some(_), None) => Err("Invalid seconds"@),
            (Some(m), Some(sec)) => if sec >= 60 {
                Err("Seconds must be less than 60"@)
            } else {
                Ok((m, sec))
            },
        }
    }
}

/// `s` without its trailing occurrences of `c`.
fn strip_trailing_char(s: &str, c: char) -> (r: &str)
    ensures
        r@ == strip_trailing(s@, c),
{
    let n = s.unicode_len();
    let mut k: usize = n;
    assert(s@.subrange(0, n as int) =~= s@);
    while k > 0 && s.get_char(k - 1) == c
        invariant
            n == s@.len(),
            k <= n,
            strip_trailing(s@.subrange(0, k as int), c) == strip_trailing(s@, c),
        decreases k,
    {
        assert(s@.subrange(0, k as int).drop_last() =~= s@.subrange(0, k - 1));
        k = k - 1;
    }
    proof {
        if k > 0 {
            assert(s@.subrange(0, k as int).last() == s@[k - 1]);
        }
    }
    s.substring_char(0, k)
}

/// Whether `s` holds the character `c`.
fn has_char(s: &str, c: char) -> (r: bool)
    ensures
        r == s@.contains(c),
{
    let n = s.unicode_len();
    let mut i: usize = 0;
    while i < n
        invariant
            n == s@.len(),
            i <= n,
            forall|j: int| 0 <= j < i ==> s@[j] != c,
        decreases n - i,
    {
        if s.get_char(i) == c {
            return true;
        }
        i = i + 1;
    }
    false
}

/// The form of a start or end time argument: a percentage when it ends with
/// `%`, minutes and seconds when it holds a colon, and seconds otherwise.
/// Minutes and seconds are read here; a text with other than one colon, an
/// unreadable number, or 60 seconds or more is refused with its message.
pub fn time_form(time_str: &str) -> (r: Result<TimeForm, String>)
    ensures
        time_str@.len() > 0 && time_str@.last() == '%' ==> (r matches Ok(TimeForm::Percentage { number })
            && number@ == strip_trailing(time_str@, '%')),
        !(time_str@.len() > 0 && time_str@.last() == '%') && time_str@.contains(':') ==> match minutes_seconds(time_str@) {
            Ok((m, sec)) => r == Ok::<TimeForm, String>(TimeForm::MinutesSeconds { minutes: m, seconds: sec }),
            Err(msg) => r matches Err(e) && e@ == msg,
        },
        !(time_str@.len() > 0 && time_str@.last() == '%') && !time_str@.contains(':') ==> (r matches Ok(
            TimeForm::Seconds { number },
        ) && number@ == time_str@),
{
    let n = time_str.unicode_len();
    if n > 0 && time_str.get_char(n - 1) == '%' {
        let number = strip_trailing_char(time_str, '%');
        return Ok(TimeForm::Percentage { number: number.to_owned() });
    }
    if !has_char(time_str, ':') {
        return Ok(TimeForm::Seconds { number: time_str.to_owned() });
    }
    let parts = split_text(time_str, ':');
    if parts.len() != 2 {
        return Err(String::from_str("Invalid time format. Use MM:SS"));
    }
    let minutes = match parse_u32(parts[0]) {
        Some(m) => m,
        None => return Err(String::from_str("Invalid minutes")),
    };
    let seconds = match parse_u32(parts[1]) {
        Some(sec) => sec,
        None => return Err(String::from_str("Invalid seconds")),
    };
    if seconds >= 60 {
        return Err(String::from_str("Seconds must be less than 60"));
    }
    Ok(TimeForm::MinutesSeconds { minutes, seconds })
}

/// The two sides of an annotation written `value:label`: present exactly when
/// the text holds one colon.
pub fn annotation_parts(s: &str) -> (r: Option<(String, String)>)
    ensures
        r is Some <==> split_on(s@, ':').len() == 2,
        r matches Some((value, label)) ==> value@ == split_on(s@, ':')[0] && label@ == split_on(s@, ':')[1],
{
    let parts = split_text(s, ':');
    if parts.len() != 2 {
        return None;
    }
    Some((parts[0].to_owned(), parts[1].to_owned()))
}

/// Minutes and seconds written in decimal and joined by a colon are read back
/// as the same minutes and seconds.
pub proof fn law_minutes_seconds_round_trip(minutes: u32, seconds: u32)
    requires
        seconds < 60,
    ensures
        minutes_seconds(decimal_digits(minutes as nat).push(':') + decimal_digits(seconds as nat))
            == Ok::<(u32, u32), Seq<char>>((minutes, seconds)),
{
    let a = decimal_digits(minutes as nat);
    let b = decimal_digits(seconds as nat);
    lemma_decimal_digits(minutes as nat);
    lemma_decimal_digits(seconds as nat);
    assert(!a.contains(':')) by {
        if a.contains(':') {
            let i = choose|i: int| 0 <= i < a.len() && a[i] == ':';
            assert(is_digit(a[i]));
        }
    }
    assert(!b.contains(':')) by {
        if b.contains(':') {
            let i = choose|i: int| 0 <= i < b.len() && b[i] == ':';
            assert(is_digit(b[i]));
        }
    }
    lemma_split_pair(a, b, ':');
    crate::text::law_decimal_round_trip(minutes);
    crate::text::law_decimal_round_trip(seconds);
}

/// A value and a label without colons, joined by one colon, are split back
/// into the same value and label.
pub proof fn law_annotation_round_trip(value: Seq<char>, label: Seq<char>)
    requires
        !value.contains(':'),
        !label.contains(':'),
    ensures
        split_on(value.push(':') + label, ':') == seq![value, label],
        split_on(value.push(':') + label, ':').len() == 2,
{
    lemma_split_pair(value, label, ':');
}

/// A time written as two colon-free texts joined by one colon is read as
/// minutes and seconds whenever both read as `u32` (as `str::parse` reads
/// them: leading zeros and a plus sign are allowed) and the seconds are under
/// 60; unreadable minutes, then unreadable seconds, then 60 seconds or more
/// are refused with their messages.
pub proof fn law_minutes_seconds_read(a: Seq<char>, b: Seq<char>)
    requires
        !a.contains(':'),
        !b.contains(':'),
    ensures
        ({
            let r = minutes_seconds(a.push(':') + b);
            &&& parsed_u32(a) is None ==> r == Err::<(u32, u32), Seq<char>>("Invalid minutes"@)
            &&& parsed_u32(a) is Some && parsed_u32(b) is None ==> r == Err::<(u32, u32), Seq<char>>("Invalid seconds"@)
            &&& parsed_u32(a) is Some && parsed_u32(b) is Some && parsed_u32(b)->0 >= 60
                ==> r == Err::<(u32, u32), Seq<char>>("Seconds must be less than 60"@)
            &&& parsed_u32(a) is Some && parsed_u32(b) is Some && parsed_u32(b)->0 < 60
                ==> r == Ok::<(u32, u32), Seq<char>>((parsed_u32(a)->0, parsed_u32(b)->0))
        }),
{
    lemma_split_pair(a, b, ':');
}

} // verus!
