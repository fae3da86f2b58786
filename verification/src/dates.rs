//! Reading the creation dates that the discovery service reports. The dates
//! are parsed by `chrono`; this module prepares their text and names the result.

use vstd::prelude::*;
use vstd::string::StringExecFns;
use vstd::string::StrSliceExecFns;
use crate::text::chars_of;

verus! {

/// `chrono::NaiveDateTime`: a date and a time of day, without a time zone.
#[verifier::external_type_specification]
#[verifier::external_body]
pub struct ExNaiveDateTime(chrono::NaiveDateTime);

/// `chrono::ParseError`: why a text was not read as a date and time.
#[verifier::external_type_specification]
#[verifier::external_body]
pub struct ExParseError(chrono::ParseError);

/// The number of non-leap seconds from the start of 1970 to a date and time.
pub uninterp spec fn datetime_seconds(dt: chrono::NaiveDateTime) -> i64;

/// What `chrono` reads from a text in a given format: the date and time, as
/// the number of non-leap seconds since the start of 1970, if it reads one.
pub uninterp spec fn datetime_parsed(text: Seq<char>, format: Seq<char>) -> Option<i64>;

/// `chrono::NaiveDateTime::parse_from_str`: the date and time that the text
/// writes in the given format, or an error where it writes none.
pub assume_specification[ chrono::NaiveDateTime::parse_from_str ](text: &str, format: &str) -> (r:
    Result<chrono::NaiveDateTime, chrono::ParseError>)
    ensures
        match r {
            Ok(dt) => datetime_parsed(text@, format@) == Some(datetime_seconds(dt)),
            Err(_) => datetime_parsed(text@, format@) is None,
        },
;

/// `chrono::NaiveDateTime::and_utc`, then `chrono::DateTime::timestamp`: the
/// number of non-leap seconds from the start of 1970 to the date and time.
#[verifier::external_body]
pub(crate) fn seconds_of(dt: &chrono::NaiveDateTime) -> (r: i64)
    ensures
        r == datetime_seconds(*dt),
{
    dt.and_utc().timestamp()
}

/// `s` without the run of `c` at its end.
pub open spec fn without_trailing(s: Seq<char>, c: char) -> Seq<char>
    decreases s.len(),
{
    if s.len() > 0 && s[s.len() - 1] == c {
        without_trailing(s.subrange(0, s.len() - 1), c)
    } else {
        s
    }
}

/// `s` with every `from` replaced by `to`.
pub open spec fn with_replaced(s: Seq<char>, from: char, to: char) -> Seq<char> {
    Seq::new(
        s.len(),
        |i: int|
            if s[i] == from {
                to
            } else {
                s[i]
            },
    )
}

/// The text that is handed to the date parser: the reported date without the
/// `Z` at its end and with a space in place of each `T`.
pub open spec fn prepared_date(date: Seq<char>) -> Seq<char> {
    with_replaced(without_trailing(date, 'Z'), 'T', ' ')
}

/// The format in which the discovery service writes a creation date, once prepared.
pub open spec fn created_at_format() -> Seq<char> {
    "%Y-%m-%d %H:%M:%S.000"@
}

/// The Unix time that a reported creation date stands for, cut to 32 bits.
pub open spec fn created_at(date: Seq<char>) -> Option<i32> {
    match datetime_parsed(prepared_date(date), created_at_format()) {
        Some(seconds) => Some(seconds as i32),
        None => None,
    }
}

proof fn lemma_without_trailing(s: Seq<char>, c: char, end: int)
    requires
        0 <= end <= s.len(),
        forall|k: int| end <= k < s.len() ==> #[trigger] s[k] == c,
        end == 0 || s[end - 1] != c,
    ensures
        without_trailing(s, c) == s.subrange(0, end),
    decreases s.len() - end,
{
    if end < s.len() {
        let rest = s.subrange(0, s.len() - 1);
        lemma_without_trailing(rest, c, end);
    }
}

/// Prepares a reported creation date for the parser.
pub fn prepare_date(date: &str) -> (r: String)
    ensures
        r@ == prepared_date(date@),
{
    let chars = chars_of(date);
    let mut end: usize = chars.len();
    while end > 0 && chars[end - 1] == 'Z'
        invariant
            end <= chars.len(),
            forall|k: int| end <= k < chars.len() ==> #[trigger] chars[k] == 'Z',
        decreases end,
    {
        end -= 1;
    }
    proof {
        lemma_without_trailing(chars@, 'Z', end as int);
        reveal_strlit(" ");
    }
    let ghost kept = chars@.subrange(0, end as int);
    let ghost target = with_replaced(kept, 'T', ' ');
    let mut out = String::new();
    let mut from: usize = 0;
    let mut i: usize = 0;
    while i < end
        invariant
            from <= i <= end <= chars.len(),
            chars@ == date@,
            kept == chars@.subrange(0, end as int),
            target == with_replaced(kept, 'T', ' '),
            out@ == target.subrange(0, from as int),
            forall|k: int| from <= k < i ==> #[trigger] chars[k] != 'T',
            " "@ == seq![' '],
        decreases end - i,
    {
        if chars[i] == 'T' {
            out.append(date.substring_char(from, i));
            out.append(" ");
            from = i + 1;
        }
        i += 1;
    }
    out.append(date.substring_char(from, end));
    out
}

/// The Unix time of a date and time that was read, cut to 32 bits.
pub fn timestamp_of(seconds: i64) -> (r: i32)
    ensures
        r == seconds as i32,
{
    #[verifier::truncate]
    (seconds as i32)
}

/// Reads a reported creation date as a Unix time.
pub fn read_created_at(date: &str) -> (r: Option<i32>)
    ensures
        r == created_at(date@),
{
    let prepared = prepare_date(date);
    match chrono::NaiveDateTime::parse_from_str(prepared.as_str(), "%Y-%m-%d %H:%M:%S.000") {
        Ok(dt) => Some(timestamp_of(seconds_of(&dt))),
        Err(_) => None,
    }
}

} // verus!
