use vstd::prelude::*;

verus! {

/// A timestamp with a fixed offset: seconds since the Unix epoch and
/// the offset's seconds east of UTC.
#[derive(Debug, Clone, Copy, PartialEq, Eq, Structural)]
pub struct MsgDate {
    pub secs: i64,
    pub offset_secs: i32,
}

/// The values the date formatters accept: the offset stays within a
/// day and the timestamp keeps the local year within 0 through 9999,
/// whatever the offset.
pub open spec fn date_renderable(secs: int, off: int) -> bool {
    -86399 <= off <= 86399 && -62167132801 <= secs <= 253402214400
}

/// What the external formatter writes for the quote header of a
/// reply: day, abbreviated month, year, hour and minute.
pub uninterp spec fn reply_date_text(secs: int, off: int) -> Seq<char>;

/// What the external formatter writes as an RFC 2822 date.
pub uninterp spec fn rfc2822_text(secs: int, off: int) -> Seq<char>;

/// Relies on chrono: FixedOffset::east_opt accepts any offset within a
/// day, DateTime::from_timestamp accepts these timestamps, and the
/// `%d %b %Y, at %H:%M` format writes English month names, a function
/// of the two values alone.
#[verifier::external_body]
pub(crate) fn format_reply_date(d: &MsgDate) -> (r: String)
    requires
        date_renderable(d.secs as int, d.offset_secs as int),
    ensures
        r@ == reply_date_text(d.secs as int, d.offset_secs as int),
{
    let off = chrono::FixedOffset::east_opt(d.offset_secs).unwrap();
    let dt = chrono::DateTime::from_timestamp(d.secs, 0).unwrap().with_timezone(&off);
    dt.format("%d %b %Y, at %H:%M").to_string()
}

/// Relies on chrono's DateTime::to_rfc2822, which writes any datetime
/// whose local year lies within 0 through 9999; the admitted values
/// keep it there.
#[verifier::external_body]
pub(crate) fn format_rfc2822(d: &MsgDate) -> (r: String)
    requires
        date_renderable(d.secs as int, d.offset_secs as int),
    ensures
        r@ == rfc2822_text(d.secs as int, d.offset_secs as int),
{
    let off = chrono::FixedOffset::east_opt(d.offset_secs).unwrap();
    let dt = chrono::DateTime::from_timestamp(d.secs, 0).unwrap().with_timezone(&off);
    dt.to_rfc2822()
}

/// Whether the date formatters accept this date.
pub fn date_is_renderable(d: &MsgDate) -> (r: bool)
    ensures
        r == date_renderable(d.secs as int, d.offset_secs as int),
{
    -86399 <= d.offset_secs && d.offset_secs <= 86399 && -62167132801 <= d.secs && d.secs
        <= 253402214400
}

/// The text the quote header of a reply gives for an optional date.
pub open spec fn reply_date_view(d: Option<MsgDate>) -> Seq<char> {
    match d {
        Some(x) => if date_renderable(x.secs as int, x.offset_secs as int) {
            reply_date_text(x.secs as int, x.offset_secs as int)
        } else {
            "unknown date"@
        },
        None => "unknown date"@,
    }
}

/// The quote-header date of an optional date, `unknown date` when the
/// date is absent or out of the formatter's range.
pub fn render_reply_date(d: &Option<MsgDate>) -> (r: String)
    ensures
        r@ == reply_date_view(*d),
{
    match d {
        Some(x) => {
            if date_is_renderable(x) {
                format_reply_date(x)
            } else {
                "unknown date".to_owned()
            }
        },
        None => "unknown date".to_owned(),
    }
}

} // verus!
