//! What this library takes on trust: the calls into `hex` and `chrono`.
//!
//! Nothing here is proved. Each contract says what the crate's own source
//! shows of the function that is called, and no more.

use vstd::prelude::*;

verus! {

/// The character for a value of four bits, in lower case.
pub open spec fn hex_digit(n: int) -> char {
    if n == 0 {
        '0'
    } else if n == 1 {
        '1'
    } else if n == 2 {
        '2'
    } else if n == 3 {
        '3'
    } else if n == 4 {
        '4'
    } else if n == 5 {
        '5'
    } else if n == 6 {
        '6'
    } else if n == 7 {
        '7'
    } else if n == 8 {
        '8'
    } else if n == 9 {
        '9'
    } else if n == 10 {
        'a'
    } else if n == 11 {
        'b'
    } else if n == 12 {
        'c'
    } else if n == 13 {
        'd'
    } else if n == 14 {
        'e'
    } else {
        'f'
    }
}

/// Bytes written in hexadecimal: two lower-case digits for each byte, the
/// high four bits first.
pub open spec fn hex_text(bytes: Seq<u8>) -> Seq<char> {
    Seq::new(
        2 * bytes.len(),
        |k: int|
            if k % 2 == 0 {
                hex_digit(bytes[k / 2] as int / 16)
            } else {
                hex_digit(bytes[k / 2] as int % 16)
            },
    )
}

/// `hex::encode`. It walks the bytes in order and gives for each the digit
/// of its high four bits and then the digit of its low four bits, both from
/// the table `0123456789abcdef`.
#[verifier::external_body]
pub(crate) fn hex_encode(bytes: &[u8]) -> (out: String)
    ensures
        out@ == hex_text(bytes@),
{
    hex::encode(bytes)
}

/// The moment that lies `secs` seconds and `nanos` nanoseconds after the
/// start of 1970 in UTC, as `chrono` writes it by RFC 3339 with `Z` for the
/// zone and with as many digits of the second's fraction, in groups of
/// three, as are not zero; or nothing where `chrono` has no such moment.
pub uninterp spec fn utc_instant_text(secs: int, nanos: int) -> Option<Seq<char>>;

/// The moments from the start of 1970 to the end of the year 9999, which
/// `chrono` can all represent: its dates reach to the year 262142.
pub open spec fn in_four_digit_years(secs: int) -> bool {
    0 <= secs <= 253_402_300_799
}

/// `chrono::DateTime::from_timestamp`, then `to_rfc3339_opts` with
/// `SecondsFormat::AutoSi` and `Z`. The first gives nothing where the
/// seconds lie outside the dates that `chrono` represents or the nanoseconds
/// are no fraction of a second; the second writes what it is given and does
/// not fail. The result depends on the two numbers alone.
#[verifier::external_body]
pub(crate) fn utc_instant(secs: i64, nanos: u32) -> (out: Option<String>)
    ensures
        match out {
            Some(text) => utc_instant_text(secs as int, nanos as int) == Some(text@),
            None => utc_instant_text(secs as int, nanos as int) is None,
        },
        in_four_digit_years(secs as int) && nanos < 1_000_000_000 ==> out is Some,
{
    chrono::DateTime::from_timestamp(secs, nanos).map(
        |moment| moment.to_rfc3339_opts(chrono::SecondsFormat::AutoSi, true),
    )
}

} // verus!
