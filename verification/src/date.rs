//! The instant of a capture: how the manifest writes it, and how the
//! metadata writer wants it.

use crate::error::DecodeError;
use crate::location::is_digit;
use crate::text::chars_of;
use vstd::prelude::*;

verus! {

/// An instant of UTC: the seconds since 1970-01-01 00:00:00, leap seconds
/// not counted, and the nanoseconds since the last whole second. Within a
/// leap second the nanoseconds are 1 000 000 000 or more.
#[derive(Clone, Copy, Debug, PartialEq, Eq, Structural)]
pub struct CaptureTime {
    pub secs: i64,
    pub nanos: u32,
}

/// `s` has the length of `pattern` and agrees with it place by place: a
/// digit where the pattern holds `d`, the pattern's own character elsewhere.
pub open spec fn fits(s: Seq<char>, pattern: Seq<char>) -> bool {
    &&& s.len() == pattern.len()
    &&& forall|i: int|
        0 <= i < pattern.len() ==> if pattern[i] == 'd' {
            is_digit(s[i])
        } else {
            s[i] == pattern[i]
        }
}

/// `s` is written as `YYYY-MM-DD HH:MM:SS UTC`.
pub open spec fn has_date_shape(s: Seq<char>) -> bool {
    fits(s, "dddd-dd-dd dd:dd:dd UTC"@)
}

/// What chrono's `NaiveDateTime::parse_from_str` makes of the text `s`
/// under the format `fmt`: the seconds and nanoseconds of the instant,
/// read as UTC, or `None` where it refuses the text.
pub uninterp spec fn naive_datetime_parse(s: Seq<char>, fmt: Seq<char>) -> Option<(i64, u32)>;

/// What chrono's `DateTime::format` writes under the format `fmt` for the
/// instant of UTC that `DateTime::from_timestamp` makes of `secs` and
/// `nanos`: `None` where there is no such instant or the format is refused.
pub uninterp spec fn utc_datetime_format(secs: i64, nanos: u32, fmt: Seq<char>) -> Option<
    Seq<char>,
>;

/// The instant that a date of the manifest names.
pub open spec fn date_of(s: Seq<char>) -> Result<CaptureTime, DecodeError> {
    if !has_date_shape(s) {
        Err(DecodeError::DateShape)
    } else {
        resolved(naive_datetime_parse(s, "%Y-%m-%d %H:%M:%S UTC"@))
    }
}

/// What a well-shaped date decodes to, given what the calendar made of it.
pub open spec fn resolved(parsed: Option<(i64, u32)>) -> Result<CaptureTime, DecodeError> {
    match parsed {
        Some((secs, nanos)) => Ok(CaptureTime { secs, nanos }),
        None => Err(DecodeError::DateInvalid),
    }
}

/// Calls `chrono::NaiveDateTime::parse_from_str` and returns the instant,
/// read as UTC, as seconds and nanoseconds. Nothing is claimed of the
/// result but that it depends on the two texts alone. The format is the
/// one of the manifest, for which the call returns for every text.
#[verifier::external_body]
fn parse_naive_datetime(s: &str, fmt: &str) -> (r: Option<(i64, u32)>)
    requires
        fmt@ == "%Y-%m-%d %H:%M:%S UTC"@,
    ensures
        r == naive_datetime_parse(s@, fmt@),
{
    match chrono::NaiveDateTime::parse_from_str(s, fmt) {
        Ok(t) => Some((t.and_utc().timestamp(), t.and_utc().timestamp_subsec_nanos())),
        Err(_) => None,
    }
}

/// Calls `chrono::DateTime::from_timestamp` and `DateTime::format`, and
/// returns what the latter writes. Nothing is claimed of the text but that
/// it depends on the instant and the format alone. The format is the one of
/// the metadata writer, for which the call returns for every instant.
#[verifier::external_body]
fn format_utc_datetime(secs: i64, nanos: u32, fmt: &str) -> (r: Option<String>)
    requires
        fmt@ == "%Y:%m:%d %H:%M:%S"@,
    ensures
        match r {
            Some(t) => utc_datetime_format(secs, nanos, fmt@) == Some(t@),
            None => utc_datetime_format(secs, nanos, fmt@) is None,
        },
{
    let t = chrono::DateTime::from_timestamp(secs, nanos)?;
    let mut out = String::new();
    match t.format(fmt).write_to(&mut out) {
        Ok(()) => Some(out),
        Err(_) => None,
    }
}

/// Whether `s` agrees with `pattern` place by place.
pub fn fits_pattern(s: &Vec<char>, pattern: &Vec<char>) -> (r: bool)
    ensures
        r == fits(s@, pattern@),
{
    if s.len() != pattern.len() {
        return false;
    }
    let mut i: usize = 0;
    while i < pattern.len()
        invariant
            i <= pattern.len(),
            s.len() == pattern.len(),
            forall|j: int|
                0 <= j < i ==> if pattern@[j] == 'd' {
                    is_digit(s@[j])
                } else {
                    s@[j] == pattern@[j]
                },
        decreases pattern.len() - i,
    {
        let c = s[i];
        let ok = if pattern[i] == 'd' {
            '0' <= c && c <= '9'
        } else {
            c == pattern[i]
        };
        if !ok {
            return false;
        }
        i += 1;
    }
    true
}

/// The result of decoding a well-shaped date, from what the calendar made
/// of it.
pub fn resolve_date(parsed: Option<(i64, u32)>) -> (r: Result<CaptureTime, DecodeError>)
    ensures
        r == resolved(parsed),
{
    match parsed {
        Some((secs, nanos)) => Ok(CaptureTime { secs, nanos }),
        None => Err(DecodeError::DateInvalid),
    }
}

/// Decodes a date of the manifest. Any text that is not written as
/// `YYYY-MM-DD HH:MM:SS UTC` is refused for its shape; a text of that shape
/// is refused where the calendar has no such instant.
pub fn parse_date(s: &str) -> (r: Result<CaptureTime, DecodeError>)
    ensures
        r == date_of(s@),
{
    let text = chars_of(s);
    let pattern = chars_of("dddd-dd-dd dd:dd:dd UTC");
    if !fits_pattern(&text, &pattern) {
        return Err(DecodeError::DateShape);
    }
    resolve_date(parse_naive_datetime(s, "%Y-%m-%d %H:%M:%S UTC"))
}

impl CaptureTime {
    /// The instant as the metadata writer wants it, `YYYY:MM:DD HH:MM:SS`.
    pub open spec fn stamp(self) -> Option<Seq<char>> {
        utc_datetime_format(self.secs, self.nanos, "%Y:%m:%d %H:%M:%S"@)
    }

    /// The instant as the metadata writer wants it, or `None` where the
    /// calendar has no such instant.
    pub fn exif_stamp(&self) -> (r: Option<String>)
        ensures
            match r {
                Some(t) => self.stamp() == Some(t@),
                None => self.stamp() is None,
            },
    {
        format_utc_datetime(self.secs, self.nanos, "%Y:%m:%d %H:%M:%S")
    }
}

} // verus!
