use vstd::prelude::*;
use vstd::string::*;

use chrono::DateTime;
use chrono_english::{parse_date_string, Dialect};

verus! {

/// The instant, in milliseconds since the Unix epoch (UTC), that free text
/// names when read at the instant `now_ms`, or `None` where it names none.
pub uninterp spec fn resolved_at(text: Seq<char>, now_ms: i64) -> Option<i64>;

/// How an instant, in milliseconds since the Unix epoch, is written for
/// people, or `None` where it lies outside the calendar's range.
pub uninterp spec fn rendered_time(ms: i64) -> Option<Seq<char>>;

/// The largest distance from the epoch, in milliseconds, of a reference
/// instant that time text is resolved against: about 220,000 years, which
/// leaves room for any offset that six digits can write inside chrono's range.
pub const MAX_REFERENCE_MS: i64 = 7_000_000_000_000_000;

/// Whether `c` is an ASCII decimal digit.
pub open spec fn is_digit(c: char) -> bool {
    '0' <= c && c <= '9'
}

/// The length of the run of digits that ends just before position `i` of `s`.
pub open spec fn digits_before(s: Seq<char>, i: int) -> nat
    decreases i,
{
    if i <= 0 || i > s.len() {
        0
    } else if is_digit(s[i - 1]) {
        digits_before(s, i - 1) + 1
    } else {
        0
    }
}

/// The inputs that time text is resolved on: ASCII text with no run of more
/// than six digits, in which every `.` ends the text or is followed by a
/// digit, read against an instant within `MAX_REFERENCE_MS` of the epoch.
/// Outside them the parser can panic (a non-ASCII character sliced or read as
/// a digit, an offset past the calendar's range, a fraction of a second that
/// does not start with a digit).
pub open spec fn resolvable_input(text: Seq<char>, now_ms: i64) -> bool {
    &&& -MAX_REFERENCE_MS <= now_ms <= MAX_REFERENCE_MS
    &&& forall|i: int| 0 <= i < text.len() ==> (#[trigger] text[i] as u32) < 128
    &&& forall|i: int| 0 <= i <= text.len() ==> #[trigger] digits_before(text, i) <= 6
    &&& forall|i: int|
        0 <= i < text.len() && #[trigger] text[i] == '.' ==> i + 1 == text.len() || is_digit(
            text[i + 1],
        )
}

/// Whether time text can be resolved as it is (see `resolvable_input`).
pub fn resolvable(text: &str, now_ms: i64) -> (r: bool)
    ensures
        r == resolvable_input(text@, now_ms),
{
    if now_ms < -MAX_REFERENCE_MS || now_ms > MAX_REFERENCE_MS {
        return false;
    }
    let n = text.unicode_len();
    let mut i: usize = 0;
    let mut run: usize = 0;
    while i < n
        invariant
            n == text@.len(),
            i <= n,
            run == digits_before(text@, i as int),
            run <= 6,
            forall|k: int| 0 <= k < i ==> (#[trigger] text@[k] as u32) < 128,
            forall|k: int| 0 <= k <= i ==> #[trigger] digits_before(text@, k) <= 6,
            forall|k: int|
                0 <= k < i && #[trigger] text@[k] == '.' ==> k + 1 == text@.len() || is_digit(
                    text@[k + 1],
                ),
        decreases n - i,
    {
        let c = text.get_char(i);
        if (c as u32) >= 128 {
            return false;
        }
        if c == '.' && i + 1 < n {
            let d = text.get_char(i + 1);
            if !('0' <= d && d <= '9') {
                return false;
            }
        }
        if '0' <= c && c <= '9' {
            if run == 6 {
                assert(digits_before(text@, i + 1) == 7);
                return false;
            }
            run = run + 1;
        } else {
            run = 0;
        }
        i = i + 1;
    }
    true
}

/// Relies on chrono's `DateTime::from_timestamp_millis` (the reference instant
/// as a UTC date, `None` out of range), chrono_english's `parse_date_string`
/// (English date text, UK dialect, read relative to that instant; an error
/// where it names no date), and `DateTime::timestamp_millis` (back to
/// milliseconds). The result depends on the text and the instant alone.
/// chrono_english panics on some text (a non-ASCII character, an offset past
/// chrono's range, a `.` after the seconds followed by something other than a
/// digit): `resolvable_input` leaves those out.
#[verifier::external_body]
pub(crate) fn resolve_time(text: &str, now_ms: i64) -> (r: Option<i64>)
    requires
        resolvable_input(text@, now_ms),
    ensures
        r == resolved_at(text@, now_ms),
{
    let now = match DateTime::from_timestamp_millis(now_ms) {
        Some(now) => now,
        None => return None,
    };
    match parse_date_string(text, now, Dialect::Uk) {
        Ok(d) => Some(d.timestamp_millis()),
        Err(_) => None,
    }
}

/// The largest distance from the epoch, in milliseconds, of an instant that is
/// sure to be written as a date: about 253,000 years, inside chrono's years
/// -262143 to 262142.
pub const MAX_RENDERED_MS: i64 = 8_000_000_000_000_000;

/// Relies on chrono's `DateTime::from_timestamp_millis` (`None` only out of
/// range) and on the `Display` of `DateTime<Utc>` (`2024-01-02 10:00:00 UTC`).
#[verifier::external_body]
pub(crate) fn render_time(ms: i64) -> (r: Option<String>)
    ensures
        r is Some <==> rendered_time(ms) is Some,
        -MAX_RENDERED_MS <= ms <= MAX_RENDERED_MS ==> r is Some,
        r matches Some(s) ==> rendered_time(ms) == Some(s@),
{
    match DateTime::from_timestamp_millis(ms) {
        Some(d) => Some(d.to_string()),
        None => None,
    }
}

} // verus!
