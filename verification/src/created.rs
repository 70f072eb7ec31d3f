use crate::text::optional_text;
use chrono::{DateTime, Local};
use vstd::prelude::*;

verus! {

/// Whether `chrono::DateTime::parse_from_rfc3339` accepts the text as a timestamp.
pub uninterp spec fn rfc3339_valid(text: Seq<char>) -> bool;

/// What `chrono::DateTime::format` writes, as month name, day, year, hour of twelve, minute
/// and `am` or `pm`, for the instant that the timestamp `text` names, seen at the UTC offset
/// of `offset_seconds` seconds east.
pub uninterp spec fn shown_at_offset(text: Seq<char>, offset_seconds: int) -> Seq<char>;

/// The UTC offsets that a time zone can have: less than a day either way.
pub open spec fn is_zone_offset(offset_seconds: int) -> bool {
    -86_400 < offset_seconds < 86_400
}

/// `shown` is how the timestamp `raw` reads at the UTC offset of some time zone.
pub open spec fn is_rendering_of(raw: Seq<char>, shown: Seq<char>) -> bool {
    exists|offset: int| is_zone_offset(offset) && shown == #[trigger] shown_at_offset(raw, offset)
}

/// What a row shows for a field that the record does not have.
pub open spec fn placeholder() -> Seq<char> {
    "<unspecified>"@
}

/// The English short names of the twelve months.
pub open spec fn is_month_name(name: Seq<char>) -> bool {
    ||| name == "Jan"@
    ||| name == "Feb"@
    ||| name == "Mar"@
    ||| name == "Apr"@
    ||| name == "May"@
    ||| name == "Jun"@
    ||| name == "Jul"@
    ||| name == "Aug"@
    ||| name == "Sep"@
    ||| name == "Oct"@
    ||| name == "Nov"@
    ||| name == "Dec"@
}

/// What every rendering of a timestamp in local time has in common, whatever the time zone
/// of the machine. It reads like `Feb 13, 2025 12:42 pm`: the short name of the month and a
/// space come first, ` am` or ` pm` comes last, and day, year, hour and minute in between
/// make it at least nineteen characters long.
pub open spec fn is_local_display(shown: Seq<char>) -> bool {
    &&& shown.len() >= 19
    &&& is_month_name(shown.take(3))
    &&& shown[3] == ' '
    &&& (shown.skip(shown.len() - 3) == " am"@ || shown.skip(shown.len() - 3) == " pm"@)
}

/// What may be shown for a record's `created` field: the placeholder where the field is
/// absent, the raw string where it is no RFC 3339 timestamp, and else the timestamp as it
/// reads at the UTC offset of some time zone, which has the shape of [`is_local_display`].
pub open spec fn created_shown(created: Option<Seq<char>>, shown: Seq<char>) -> bool {
    match created {
        None => shown == placeholder(),
        Some(raw) => if rfc3339_valid(raw) {
            is_rendering_of(raw, shown) && is_local_display(shown)
        } else {
            shown == raw
        },
    }
}

/// Parses `raw` with `chrono::DateTime::parse_from_rfc3339`, moves the instant to the time
/// zone of the machine with `DateTime::with_timezone` and renders it with `DateTime::format`
/// as month name, day, year, hour of twelve, minute and `am` or `pm`. The result is `None`
/// exactly when the parser rejects `raw`. Which offset the machine's time zone has at that
/// instant is not known here, so the contract claims that the text is the rendering of the
/// instant at some offset that a zone can have, and the shape that this format gives to
/// every instant: see [`is_local_display`]. chrono documents the conversion from UTC as one
/// that cannot fail.
#[verifier::external_body]
fn local_time_text(raw: &str) -> (shown: Option<String>)
    ensures
        shown is Some <==> rfc3339_valid(raw@),
        shown matches Some(text) ==> exists|offset: int|
            -86_400 < offset < 86_400 && text@ == #[trigger] shown_at_offset(raw@, offset),
        shown matches Some(text) ==> is_local_display(text@),
{
    match DateTime::parse_from_rfc3339(raw) {
        Ok(instant) => Some(
            instant.with_timezone(&Local).format("%b %-d, %Y %-I:%M %P").to_string(),
        ),
        Err(_) => None,
    }
}

/// Settles what is shown for a `created` field once the timestamp was tried: `local` is
/// its rendering in local time, or `None` where the field is no timestamp.
pub fn resolve_created(created: &Option<String>, local: Option<String>) -> (shown: String)
    ensures
        shown@ == match (*created, local) {
            (None, _) => placeholder(),
            (Some(raw), None) => raw@,
            (Some(_), Some(text)) => text@,
        },
{
    match created {
        None => "<unspecified>".to_owned(),
        Some(raw) => match local {
            Some(text) => text,
            None => raw.clone(),
        },
    }
}

/// Renders a record's `created` field for display. An RFC 3339 timestamp is shown in local
/// time, as in `Feb 13, 2025 12:42 pm`; any other string is passed through unchanged; an
/// absent field gives the placeholder. So the placeholder is shown exactly when the field is
/// absent, or is itself that text and passed through.
pub fn format_created(created: &Option<String>) -> (shown: String)
    ensures
        created_shown(optional_text(*created), shown@),
        *created is None ==> shown@ == placeholder(),
        *created matches Some(raw) ==> (!rfc3339_valid(raw@) ==> shown@ == raw@),
        shown@ == placeholder() <==> (*created matches Some(raw) ==> raw@ == placeholder()
            && !rfc3339_valid(raw@)),
{
    proof {
        reveal_strlit("<unspecified>");
        assert(placeholder().len() == 13);
    }
    match created {
        Some(raw) => {
            let local = local_time_text(raw.as_str());
            resolve_created(created, local)
        },
        None => resolve_created(created, None),
    }
}

} // verus!
