//! Fresh identifiers and timestamps for new entities.

use vstd::prelude::*;

verus! {

/// A decimal digit.
pub open spec fn is_digit(c: char) -> bool {
    '0' <= c && c <= '9'
}

/// A lower-case hexadecimal digit.
pub open spec fn is_lower_hex(c: char) -> bool {
    is_digit(c) || ('a' <= c && c <= 'f')
}

/// The text of a random (version 4, RFC 4122 variant) UUID in lower-case
/// hyphenated form: `xxxxxxxx-xxxx-4xxx-Nxxx-xxxxxxxxxxxx`, every `x` a
/// lower-case hex digit and `N` one of `8`, `9`, `a`, `b`.
pub open spec fn is_uuid_v4_text(s: Seq<char>) -> bool {
    &&& s.len() == 36
    &&& forall|i: int|
        0 <= i < 36 ==> if i == 8 || i == 13 || i == 18 || i == 23 {
            #[trigger] s[i] == '-'
        } else {
            is_lower_hex(s[i])
        }
    &&& s[14] == '4'
    &&& (s[19] == '8' || s[19] == '9' || s[19] == 'a' || s[19] == 'b')
}

/// `s` follows `pattern`, where `D` stands for any decimal digit and every
/// other character for itself.
pub open spec fn fits_pattern(s: Seq<char>, pattern: Seq<char>) -> bool {
    &&& s.len() == pattern.len()
    &&& forall|i: int|
        0 <= i < s.len() ==> if pattern[i] == 'D' {
            is_digit(#[trigger] s[i])
        } else {
            s[i] == pattern[i]
        }
}

/// Every character of `s` is a decimal digit.
pub open spec fn all_digits(s: Seq<char>) -> bool {
    forall|i: int| 0 <= i < s.len() ==> is_digit(#[trigger] s[i])
}

/// `s` is an RFC 3339 UTC timestamp whose year takes `y` characters and
/// whose fraction of the second takes `f` (the dot included).
pub open spec fn rfc3339_parts(s: Seq<char>, y: int, f: int) -> bool {
    &&& 4 <= y
    &&& (f == 0 || f == 4 || f == 7 || f == 10)
    &&& s.len() == y + 15 + f + 6
    &&& if y == 4 {
        all_digits(s.subrange(0, 4))
    } else {
        (s[0] == '+' || s[0] == '-') && all_digits(s.subrange(1, y))
    }
    &&& fits_pattern(s.subrange(y, y + 15), "-DD-DDTDD:DD:DD"@)
    &&& (f > 0 ==> s[y + 15] == '.' && all_digits(s.subrange(y + 16, y + 15 + f)))
    &&& s.subrange(y + 15 + f, s.len() as int) == "+00:00"@
}

/// An RFC 3339 timestamp in UTC as chrono writes it: the year (four digits,
/// or a sign and at least four digits), `-MM-DDThh:mm:ss`, a fraction of
/// the second of 3, 6 or 9 digits when it is not zero, then `+00:00`.
pub open spec fn is_utc_rfc3339(s: Seq<char>) -> bool {
    exists|y: int, f: int| #[trigger] rfc3339_parts(s, y, f)
}

/// Creates a fresh random UUID (v4) for entity ids.
///
/// Calls `uuid::Uuid::new_v4`, which sets the version digit to 4 and the
/// variant bits to RFC 4122, and renders it with `Display`, which the uuid
/// crate defines as the lower-case hyphenated form. The contract states
/// that form; which of the random values comes out is left open.
#[verifier::external_body]
pub fn new_id() -> (id: String)
    ensures
        is_uuid_v4_text(id@),
{
    uuid::Uuid::new_v4().to_string()
}

/// Current wall-clock time as an RFC 3339 string.
///
/// Calls `chrono::Utc::now().to_rfc3339()`, which writes the UTC offset as
/// `+00:00` and the fraction of the second with 3, 6 or 9 digits when it is
/// not zero. The contract states that form; which instant it names depends
/// on the clock and is left open.
#[verifier::external_body]
pub fn now_rfc3339() -> (stamp: String)
    ensures
        is_utc_rfc3339(stamp@),
{
    chrono::Utc::now().to_rfc3339()
}

} // verus!
