//! Publication-date formatting. A date string that parses as RFC 3339 is
//! rendered as `YYYY-MM-DD HH:MM UTC` (in the timestamp's own offset, as
//! the feed wrote it). Otherwise a crude documented fallback applies: a
//! string longer than 10 characters is cut to its first 16 characters
//! verbatim, and a shorter one passes through unchanged. The cut point is
//! arbitrary and not format-aware; it is kept as a documented limitation.

use vstd::prelude::*;
use chrono::{Datelike, Timelike};
use crate::num::{pad2, pad2_chars, pad4, pad4_chars};
use crate::chars::chars_to_string;
use crate::words::push_all;

verus! {

/// What `chrono::DateTime::parse_from_rfc3339` yields for a string: the
/// parsed timestamp's year, month, day, hour and minute (in its own
/// offset), or nothing when the string is not a valid RFC 3339 date-time.
/// A function of the characters alone.
pub uninterp spec fn rfc3339_parse(s: Seq<char>) -> Option<(i32, u8, u8, u8, u8)>;

/// Relies on `chrono::DateTime::parse_from_rfc3339` and the `Datelike` /
/// `Timelike` accessors: whether a string parses, and the calendar fields
/// of the result, depend on the characters alone.
#[verifier::external_body]
fn parse_rfc3339(s: &str) -> (r: Option<(i32, u8, u8, u8, u8)>)
    ensures
        r == rfc3339_parse(s@),
{
    match chrono::DateTime::parse_from_rfc3339(s) {
        Ok(dt) => Some(
            (dt.year(), dt.month() as u8, dt.day() as u8, dt.hour() as u8, dt.minute() as u8),
        ),
        Err(_) => None,
    }
}

/// The year, with a leading minus sign for years before the common era.
pub open spec fn year_str(y: int) -> Seq<char> {
    if y < 0 {
        seq!['-'] + pad4(-y)
    } else {
        pad4(y)
    }
}

/// What a raw date string renders to.
pub open spec fn spec_format_date(s: Seq<char>) -> Seq<char> {
    match rfc3339_parse(s) {
        Some(p) => year_str(p.0 as int) + seq!['-'] + pad2(p.1 as int) + seq!['-'] + pad2(
            p.2 as int,
        ) + seq![' '] + pad2(p.3 as int) + seq![':'] + pad2(p.4 as int) + seq![' ', 'U', 'T', 'C'],
        None => if s.len() > 10 {
            s.subrange(0, if s.len() < 16 { s.len() as int } else { 16 })
        } else {
            s
        },
    }
}

/// Format a raw publication date for display, exact for
/// `spec_format_date`.
pub fn format_date(date_str: &str) -> (r: String)
    ensures
        r@ == spec_format_date(date_str@),
{
    match parse_rfc3339(date_str) {
        Some(p) => {
            let (y, mo, d, h, mi) = p;
            let mut out: Vec<char> = Vec::new();
            let wide: i64 = y as i64;
            if wide < 0 {
                out.push('-');
                let mag = (-wide) as usize;
                let yc = pad4_chars(mag);
                push_all(&mut out, &yc);
                proof {
                    assert(out@ =~= year_str(y as int));
                }
            } else {
                let yc = pad4_chars(y as usize);
                push_all(&mut out, &yc);
            }
            out.push('-');
            let moc = pad2_chars(mo as usize);
            push_all(&mut out, &moc);
            out.push('-');
            let dc = pad2_chars(d as usize);
            push_all(&mut out, &dc);
            out.push(' ');
            let hc = pad2_chars(h as usize);
            push_all(&mut out, &hc);
            out.push(':');
            let mic = pad2_chars(mi as usize);
            push_all(&mut out, &mic);
            out.push(' ');
            out.push('U');
            out.push('T');
            out.push('C');
            proof {
                assert(out@ =~= spec_format_date(date_str@));
            }
            chars_to_string(&out)
        },
        None => {
            let n = date_str.unicode_len();
            if n > 10 {
                let k = if n < 16 {
                    n
                } else {
                    16
                };
                let sub = date_str.substring_char(0, k);
                String::from_str(sub)
            } else {
                String::from_str(date_str)
            }
        },
    }
}

} // verus!
