//! The form of a time stamp. A file that was modified within half a year of
//! now, in either direction, shows the time of day; any other file shows the
//! year.
use vstd::prelude::*;

verus! {

/// Half a year in seconds: 183 days.
pub const HALF_YEAR: i64 = 15_811_200;

/// The two forms of a time stamp.
#[derive(Clone, Copy, Debug, PartialEq, Eq, Structural)]
pub enum TimeStyle {
    /// Month, day, hour and minute.
    Clock,
    /// Month, day and year.
    Dated,
}

/// The distance between two points in time, in seconds.
pub open spec fn distance(now: i64, mtime: i64) -> int {
    if now >= mtime {
        now - mtime
    } else {
        mtime - now
    }
}

/// The form for a file modified at `mtime`, seen at `now`: the year as soon as
/// the two are more than half a year apart. At exactly half a year it is
/// still the time of day.
pub open spec fn style_for(now: i64, mtime: i64) -> TimeStyle {
    if distance(now, mtime) > HALF_YEAR {
        TimeStyle::Dated
    } else {
        TimeStyle::Clock
    }
}

/// Chooses the form of a time stamp.
pub fn time_style(now: i64, mtime: i64) -> (style: TimeStyle)
    ensures
        style == style_for(now, mtime),
{
    let apart: i128 = if now >= mtime {
        now as i128 - mtime as i128
    } else {
        mtime as i128 - now as i128
    };
    if apart > HALF_YEAR as i128 {
        TimeStyle::Dated
    } else {
        TimeStyle::Clock
    }
}

/// The `strftime` pattern of each form.
pub open spec fn pattern_text(style: TimeStyle) -> Seq<char> {
    match style {
        TimeStyle::Clock => "%b %e %H:%M"@,
        TimeStyle::Dated => "%b %e  %Y"@,
    }
}

/// The `strftime` pattern that renders a time stamp in the given form.
pub fn time_pattern(style: TimeStyle) -> (pattern: &'static str)
    ensures
        pattern@ == pattern_text(style),
{
    match style {
        TimeStyle::Clock => "%b %e %H:%M",
        TimeStyle::Dated => "%b %e  %Y",
    }
}

} // verus!
