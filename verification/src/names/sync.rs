//! The sync loop's cursor rule: every fetch asks again from a few minutes
//! before the stored cursor, since the feed's clock and ours may drift and
//! applying a rename twice changes nothing.

use vstd::prelude::*;

use crate::text::owned;

verus! {

/// Five minutes, in nanoseconds.
pub const OVERLAP_NANOS: i128 = 300_000_000_000;

/// Five minutes, in seconds.
pub const OVERLAP_SECS: u64 = 300;

/// An instant as RFC 3339 spells it: nanoseconds since the epoch and the
/// offset it was written in, in seconds.
pub struct Stamp {
    pub unix_nanos: i128,
    pub offset_secs: i32,
}

/// What the `time` crate reads from an RFC 3339 text.
pub uninterp spec fn rfc3339_read(text: Seq<char>) -> Option<(i128, i32)>;

/// What the `time` crate writes for an instant in an offset, as RFC 3339.
pub uninterp spec fn rfc3339_written(unix_nanos: i128, offset_secs: i32) -> Option<Seq<char>>;

/// `OffsetDateTime::parse(text, &Rfc3339)`: the instant and offset, or
/// `None` for a text that is not RFC 3339. The grammar is the crate's.
#[verifier::external_body]
fn rfc3339_parse(text: &str) -> (r: Option<Stamp>)
    ensures
        match r {
            Some(s) => rfc3339_read(text@) == Some((s.unix_nanos, s.offset_secs)),
            None => rfc3339_read(text@) is None,
        },
{
    time::OffsetDateTime::parse(text, &time::format_description::well_known::Rfc3339)
        .ok()
        .map(|t| Stamp { unix_nanos: t.unix_timestamp_nanos(), offset_secs: t.offset().whole_seconds() })
}

/// `OffsetDateTime::format(&Rfc3339)` of the instant seen in the offset, or
/// `None` where the crate cannot represent or write it.
#[verifier::external_body]
fn rfc3339_format(unix_nanos: i128, offset_secs: i32) -> (r: Option<String>)
    ensures
        crate::text::opt_view(r) == rfc3339_written(unix_nanos, offset_secs),
{
    let offset = time::UtcOffset::from_whole_seconds(offset_secs).ok()?;
    time::OffsetDateTime::from_unix_timestamp_nanos(unix_nanos)
        .ok()?
        .checked_to_offset(offset)?
        .format(&time::format_description::well_known::Rfc3339)
        .ok()
}

/// The cursor moved back by the overlap, in the offset it was written in;
/// `None` for a cursor that is not RFC 3339.
pub open spec fn overlapped_spec(cursor: Seq<char>) -> Option<Seq<char>> {
    match rfc3339_read(cursor) {
        None => None,
        Some((nanos, offset)) => if nanos - OVERLAP_NANOS < i128::MIN {
            None
        } else {
            rfc3339_written((nanos - OVERLAP_NANOS) as i128, offset)
        },
    }
}

pub fn overlapped(cursor: &str) -> (r: Option<String>)
    ensures
        crate::text::opt_view(r) == overlapped_spec(cursor@),
{
    let at = match rfc3339_parse(cursor) {
        Some(s) => s,
        None => {
            return None;
        },
    };
    if at.unix_nanos < i128::MIN + OVERLAP_NANOS {
        return None;
    }
    rfc3339_format(at.unix_nanos - OVERLAP_NANOS, at.offset_secs)
}

/// The `since` a cycle fetches with: the stored cursor moved back by the
/// overlap, the cursor as stored when it is not RFC 3339, nothing when no
/// cursor is stored.
pub fn since_for(cursor: Option<&str>) -> (r: Option<String>)
    ensures
        crate::text::opt_view(r) == match crate::config::values::opt_str(cursor) {
            None => None,
            Some(c) => match overlapped_spec(c) {
                Some(earlier) => Some(earlier),
                None => Some(c),
            },
        },
{
    match cursor {
        None => None,
        Some(c) => match overlapped(c) {
            Some(earlier) => Some(earlier),
            None => Some(owned(c)),
        },
    }
}

} // verus!
