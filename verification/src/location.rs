//! The place of a capture, as the manifest writes it: a label, a colon,
//! and two decimal numbers with a comma between them.

use crate::error::DecodeError;
use crate::text::{
    all_spaces, chars_of, first_index_of, index_of, lacks, last_index, last_index_of,
    lemma_first_index, lemma_lacks, lemma_last_index, lemma_trim, slice_of, trim, trim_bounds,
};
use vstd::prelude::*;

verus! {

pub open spec fn is_digit(c: char) -> bool {
    '0' <= c <= '9'
}

pub open spec fn is_sign(c: char) -> bool {
    c == '+' || c == '-'
}

pub open spec fn is_exponent_mark(c: char) -> bool {
    c == 'e' || c == 'E'
}

/// `s` holds digits and nothing else.
pub open spec fn all_digits(s: Seq<char>) -> bool {
    forall|i: int| 0 <= i < s.len() ==> is_digit(s[i])
}

/// `s` without the sign that it may begin with.
pub open spec fn unsigned(s: Seq<char>) -> Seq<char> {
    if s.len() > 0 && is_sign(s[0]) {
        s.drop_first()
    } else {
        s
    }
}

/// Digits with at most one point among them, and one digit at least.
pub open spec fn is_mantissa(m: Seq<char>) -> bool {
    match first_index_of(m, '.') {
        None => m.len() >= 1 && all_digits(m),
        Some(k) => m.len() >= 2 && all_digits(m.take(k)) && all_digits(m.skip(k + 1)),
    }
}

/// An optional sign and one digit at least.
pub open spec fn is_exponent(x: Seq<char>) -> bool {
    unsigned(x).len() >= 1 && all_digits(unsigned(x))
}

/// A decimal number: an optional sign, a mantissa, and optionally `e` or
/// `E` with an exponent.
pub open spec fn is_number(s: Seq<char>) -> bool {
    let body = unsigned(s);
    ||| is_mantissa(body)
    ||| exists|k: int|
        0 <= k < body.len() && is_exponent_mark(#[trigger] body[k]) && is_mantissa(body.take(k))
            && is_exponent(body.skip(k + 1))
}

/// The two numbers of a location, as they are written: what follows the
/// last colon is split at its comma, and each part is trimmed.
pub open spec fn coordinates_of(s: Seq<char>) -> Result<(Seq<char>, Seq<char>), DecodeError> {
    match last_index_of(s, ':') {
        None => Err(DecodeError::MissingColon),
        Some(c) => {
            let segment = s.skip(c + 1);
            match first_index_of(segment, ',') {
                None => Err(DecodeError::ComponentCount),
                Some(k) => {
                    let lat = trim(segment.take(k));
                    let lon = trim(segment.skip(k + 1));
                    if !lacks(segment.skip(k + 1), ',') {
                        Err(DecodeError::ComponentCount)
                    } else if is_number(lat) && is_number(lon) {
                        Ok((lat, lon))
                    } else {
                        Err(DecodeError::NotNumeric)
                    }
                },
            }
        },
    }
}

/// Latitude and longitude in degrees, each as the decimal number that the
/// manifest wrote.
#[derive(Clone, Debug, PartialEq, Eq)]
pub struct Coordinates {
    pub lat: String,
    pub lon: String,
}

impl Coordinates {
    /// Both components are decimal numbers.
    pub open spec fn well_formed(&self) -> bool {
        is_number(self.lat@) && is_number(self.lon@)
    }
}

fn char_is_digit(c: char) -> (r: bool)
    ensures
        r == is_digit(c),
{
    '0' <= c && c <= '9'
}

fn digits_in(s: &Vec<char>, from: usize, to: usize) -> (r: bool)
    requires
        from <= to <= s.len(),
    ensures
        r == all_digits(s@.subrange(from as int, to as int)),
{
    let ghost part = s@.subrange(from as int, to as int);
    let mut i: usize = from;
    while i < to
        invariant
            from <= i <= to <= s.len(),
            part == s@.subrange(from as int, to as int),
            forall|j: int| 0 <= j < i - from ==> is_digit(part[j]),
        decreases to - i,
    {
        if !char_is_digit(s[i]) {
            assert(!is_digit(part[i - from]));
            return false;
        }
        i += 1;
    }
    true
}

fn mantissa_in(s: &Vec<char>, from: usize, to: usize) -> (r: bool)
    requires
        from <= to <= s.len(),
    ensures
        r == is_mantissa(s@.subrange(from as int, to as int)),
{
    let ghost part = s@.subrange(from as int, to as int);
    match index_of(s, from, to, '.') {
        None => {
            proof {
                lemma_lacks(part, '.');
            }
            to > from && digits_in(s, from, to)
        },
        Some(k) => {
            assert(part.take(k as int) =~= s@.subrange(from as int, from + k));
            assert(part.skip(k + 1) =~= s@.subrange(from + k + 1, to as int));
            to - from >= 2 && digits_in(s, from, from + k) && digits_in(s, from + k + 1, to)
        },
    }
}

fn exponent_in(s: &Vec<char>, from: usize, to: usize) -> (r: bool)
    requires
        from <= to <= s.len(),
    ensures
        r == is_exponent(s@.subrange(from as int, to as int)),
{
    let ghost part = s@.subrange(from as int, to as int);
    let start = if from < to && (s[from] == '+' || s[from] == '-') {
        from + 1
    } else {
        from
    };
    assert(unsigned(part) =~= s@.subrange(start as int, to as int));
    to > start && digits_in(s, start, to)
}

/// Whether `s[from..to]` is a decimal number.
pub fn number_in(s: &Vec<char>, from: usize, to: usize) -> (r: bool)
    requires
        from <= to <= s.len(),
    ensures
        r == is_number(s@.subrange(from as int, to as int)),
{
    let ghost part = s@.subrange(from as int, to as int);
    let start = if from < to && (s[from] == '+' || s[from] == '-') {
        from + 1
    } else {
        from
    };
    let ghost body = unsigned(part);
    let mut i: usize = start;
    while i < to && s[i] != 'e' && s[i] != 'E'
        invariant
            start <= i <= to <= s.len(),
            body == s@.subrange(start as int, to as int),
            forall|j: int| 0 <= j < i - start ==> !is_exponent_mark(body[j]),
        decreases to - i,
    {
        i += 1;
    }
    if i == to {
        mantissa_in(s, start, to)
    } else {
        let ghost k = i - start;
        assert(body.take(k) =~= s@.subrange(start as int, i as int));
        assert(body.skip(k + 1) =~= s@.subrange(i + 1, to as int));
        proof {
            lemma_mantissa_chars(body);
            assert(is_exponent_mark(body[k]));
            assert forall|n: int|
                0 <= n < body.len() && is_exponent_mark(#[trigger] body[n]) && is_mantissa(
                    body.take(n),
                ) && is_exponent(body.skip(n + 1)) implies n == k by {
                lemma_mantissa_chars(body.take(n));
                if k < n {
                    assert(body.take(n)[k] == body[k]);
                }
            }
        }
        mantissa_in(s, start, i) && exponent_in(s, i + 1, to)
    }
}

/// A mantissa holds digits and points, and nothing else.
pub proof fn lemma_mantissa_chars(m: Seq<char>)
    ensures
        is_mantissa(m) ==> m.len() >= 1 && forall|i: int|
            0 <= i < m.len() ==> is_digit(#[trigger] m[i]) || m[i] == '.',
{
    if is_mantissa(m) {
        match first_index_of(m, '.') {
            None => {},
            Some(k) => {
                assert forall|i: int| 0 <= i < m.len() implies is_digit(#[trigger] m[i]) || m[i]
                    == '.' by {
                    if i < k {
                        assert(m.take(k)[i] == m[i]);
                    } else if i > k {
                        assert(m.skip(k + 1)[i - k - 1] == m[i]);
                    }
                }
            },
        }
    }
}

/// Decodes a location. It fails where the text has no colon, where what
/// follows the last colon is not exactly two parts, and where a part is
/// not a decimal number.
pub fn parse_coords(s: &str) -> (r: Result<Coordinates, DecodeError>)
    ensures
        match r {
            Ok(c) => coordinates_of(s@) == Ok::<_, DecodeError>((c.lat@, c.lon@))
                && c.well_formed(),
            Err(e) => coordinates_of(s@) == Err::<(Seq<char>, Seq<char>), _>(e),
        },
{
    let text = chars_of(s);
    let n = text.len();
    assert(text@.subrange(0, n as int) =~= s@);
    let colon = match last_index(&text, 0, n, ':') {
        None => {
            proof {
                lemma_lacks(s@, ':');
            }
            return Err(DecodeError::MissingColon);
        },
        Some(c) => c,
    };
    let start = colon + 1;
    let ghost segment = s@.skip(start as int);
    let comma = match index_of(&text, start, n, ',') {
        None => {
            proof {
                lemma_lacks(segment, ',');
            }
            return Err(DecodeError::ComponentCount);
        },
        Some(k) => start + k,
    };
    assert(segment.take(comma - start) =~= text@.subrange(start as int, comma as int));
    assert(segment.skip(comma - start + 1) =~= text@.subrange(comma + 1, n as int));
    if index_of(&text, comma + 1, n, ',').is_some() {
        return Err(DecodeError::ComponentCount);
    }
    let (a0, a1) = trim_bounds(&text, start, comma);
    let (b0, b1) = trim_bounds(&text, comma + 1, n);
    if number_in(&text, a0, a1) && number_in(&text, b0, b1) {
        Ok(Coordinates { lat: slice_of(s, a0, a1), lon: slice_of(s, b0, b1) })
    } else {
        Err(DecodeError::NotNumeric)
    }
}

/// The characters that a decimal number is written with.
pub open spec fn is_number_char(c: char) -> bool {
    is_digit(c) || c == '.' || is_sign(c) || is_exponent_mark(c)
}

/// A decimal number is not empty and holds digits, points, signs and
/// exponent marks only: no white space, no colon and no comma.
pub proof fn lemma_number_chars(x: Seq<char>)
    requires
        is_number(x),
    ensures
        x.len() >= 1,
        forall|i: int| 0 <= i < x.len() ==> is_number_char(#[trigger] x[i]),
{
    let body = unsigned(x);
    let shift = x.len() - body.len();
    lemma_mantissa_chars(body);
    if !is_mantissa(body) {
        let k = choose|k: int|
            0 <= k < body.len() && is_exponent_mark(#[trigger] body[k]) && is_mantissa(body.take(k))
                && is_exponent(body.skip(k + 1));
        lemma_mantissa_chars(body.take(k));
        let exp = body.skip(k + 1);
        assert forall|i: int| 0 <= i < body.len() implies is_number_char(#[trigger] body[i]) by {
            if i < k {
                assert(body.take(k)[i] == body[i]);
            } else if i > k {
                assert(exp[i - k - 1] == body[i]);
                if unsigned(exp).len() < exp.len() {
                    if i > k + 1 {
                        assert(unsigned(exp)[i - k - 2] == body[i]);
                    }
                }
            }
        }
    }
    assert forall|i: int| 0 <= i < x.len() implies is_number_char(#[trigger] x[i]) by {
        if i >= shift {
            assert(body[i - shift] == x[i]);
        }
    }
}

/// A location that is written as a label, a colon and two decimal numbers
/// with a comma between them, with any white space around the numbers,
/// decodes to these two numbers as they are written.
pub proof fn lemma_coordinates_of_location(
    label: Seq<char>,
    lat: Seq<char>,
    lon: Seq<char>,
    before_lat: Seq<char>,
    after_lat: Seq<char>,
    before_lon: Seq<char>,
    after_lon: Seq<char>,
)
    requires
        is_number(lat),
        is_number(lon),
        all_spaces(before_lat),
        all_spaces(after_lat),
        all_spaces(before_lon),
        all_spaces(after_lon),
    ensures
        coordinates_of(
            label + seq![':'] + before_lat + lat + after_lat + seq![','] + before_lon + lon
                + after_lon,
        ) == Ok::<_, DecodeError>((lat, lon)),
{
    lemma_number_chars(lat);
    lemma_number_chars(lon);
    let first = before_lat + lat + after_lat;
    let second = before_lon + lon + after_lon;
    let s = label + seq![':'] + before_lat + lat + after_lat + seq![','] + before_lon + lon
        + after_lon;
    let c = label.len() as int;
    let segment = first + seq![','] + second;
    lemma_last_index(s, ':', c);
    assert(s.skip(c + 1) =~= segment);
    let k = first.len() as int;
    lemma_first_index(segment, ',', k);
    assert(segment.take(k) =~= first);
    assert(segment.skip(k + 1) =~= second);
    lemma_trim(before_lat, lat, after_lat);
    lemma_trim(before_lon, lon, after_lon);
}

/// A location decodes only where it is well formed: it holds a colon,
/// what follows its last colon holds one comma and no more, and the two
/// parts beside the comma are decimal numbers once they are trimmed.
/// Nothing stands in for a part that is missing or is no number.
pub proof fn lemma_malformed_location(s: Seq<char>)
    ensures
        lacks(s, ':') ==> coordinates_of(s) == Err::<(Seq<char>, Seq<char>), _>(
            DecodeError::MissingColon,
        ),
        coordinates_of(s) matches Ok((lat, lon)) ==> is_number(lat) && is_number(lon) && exists|
            c: int,
            k: int,
        |
            {
                &&& 0 <= c < k < s.len()
                &&& s[c] == ':'
                &&& s[k] == ','
                &&& lacks(s.subrange(c + 1, k), ',')
                &&& lacks(s.skip(k + 1), ',')
                &&& lacks(s.skip(c + 1), ':')
                &&& lat == trim(s.subrange(c + 1, k))
                &&& lon == trim(s.skip(k + 1))
            },
{
    if lacks(s, ':') {
        lemma_lacks(s, ':');
    }
    match coordinates_of(s) {
        Ok((lat, lon)) => {
            let c = last_index_of(s, ':').unwrap();
            let segment = s.skip(c + 1);
            let j = first_index_of(segment, ',').unwrap();
            let k = c + 1 + j;
            assert(segment.take(j) =~= s.subrange(c + 1, k));
            assert(segment.skip(j + 1) =~= s.skip(k + 1));
            assert(s[k] == segment[j]);
        },
        Err(_) => {},
    }
}

} // verus!
