//! Timestamps in the local UTC offset: an explicit offset store in place of
//! process-global state, validation of caller-supplied offsets, and the
//! rendering of the current moment through the `time` crate.
use vstd::prelude::*;

use crate::chars::{chars_of, spec_trim, string_of, trim_chars};

verus! {

/// An error in handling a UTC offset or a timestamp.
#[derive(Clone, Debug)]
pub enum Error {
    /// Offset hours outside `-12..=14`; holds the offending value.
    InvalidOffsetHours(i8),
    /// Offset minutes outside `0..=59`; holds the offending value.
    InvalidOffsetMinutes(i8),
    /// An offset string in none of the accepted forms.
    InvalidOffsetString,
    /// The `time` crate could not format the moment.
    TimeFormat,
}

/// `s` without surrounding whitespace (newlines included).
pub fn trim_new_lines(s: &str) -> (r: String)
    ensures
        r@ == spec_trim(s@),
{
    let v = chars_of(s);
    let t = trim_chars(&v);
    string_of(&t)
}

/// What `time::UtcOffset::parse` makes of an offset string, tried first
/// against the form `[+/-]HHMM` and then `[+/-]HH:MM`: the whole hours and
/// the minutes past the hour, or `None` for anything else.
pub uninterp spec fn offset_parse(s: Seq<char>) -> Option<(i8, i8)>;

/// Relies on `time::UtcOffset::parse` with the two fixed layouts `HHMM` and
/// `HH:MM`; the result is a function of the input string alone, its
/// components within `time`'s ranges.
#[verifier::external_body]
fn parse_offset_hm(s: &str) -> (r: Option<(i8, i8)>)
    ensures
        r == offset_parse(s@),
        r matches Some(o) ==> -25 <= o.0 <= 25 && -59 <= o.1 <= 59,
{
    let plain = time::format_description::parse("[offset_hour][offset_minute]").ok()?;
    let colon = time::format_description::parse("[offset_hour]:[offset_minute]").ok()?;
    let o = match time::UtcOffset::parse(s, &plain) {
        Ok(o) => o,
        Err(_) => time::UtcOffset::parse(s, &colon).ok()?,
    };
    Some((o.whole_hours(), o.minutes_past_hour()))
}

/// Relies on `time`'s `OffsetDateTime::now_utc` and `format`: the current
/// moment rendered in UTC with the fixed layout. The result depends on the
/// clock, so nothing further is promised of it.
#[verifier::external_body]
fn now_formatted_utc() -> (r: Result<String, ()>) {
    let fmt = time::format_description::parse(
        "[year]-[month]-[day]T[hour]:[minute]:[second][offset_hour sign:mandatory]:[offset_second]",
    ).map_err(|_| ())?;
    time::OffsetDateTime::now_utc().format(&fmt).map_err(|_| ())
}

/// Relies on `time`'s `OffsetDateTime::now_utc`, `checked_add` and `format`:
/// the current moment shifted by the offset's whole hours and rendered with
/// the fixed layout. The result depends on the clock, so nothing further is
/// promised of it.
#[verifier::external_body]
fn now_formatted_shifted(hours: i8, minutes: i8) -> (r: Result<String, ()>) {
    let fmt = time::format_description::parse(
        "[year]-[month]-[day]T[hour]:[minute]:[second][offset_hour sign:mandatory]:[offset_second]",
    ).map_err(|_| ())?;
    let o = time::UtcOffset::from_hms(hours, minutes, 0).map_err(|_| ())?;
    let now = time::OffsetDateTime::now_utc();
    match now.checked_add(time::Duration::hours(o.whole_hours() as i64)) {
        Some(t) => t.replace_offset(o).format(&fmt).map_err(|_| ()),
        None => now.format(&fmt).map_err(|_| ()),
    }
}

/// Relies on `time::UtcOffset::current_local_offset`: the platform's local
/// offset, if it can be determined; its components are within `time`'s
/// ranges.
#[verifier::external_body]
fn current_local_offset_hm() -> (r: Option<(i8, i8)>)
    ensures
        r matches Some(o) ==> -25 <= o.0 <= 25 && -59 <= o.1 <= 59,
{
    let o = time::UtcOffset::current_local_offset().ok()?;
    Some((o.whole_hours(), o.minutes_past_hour()))
}

/// The offset a store hands out once `(h, m)` was accepted: minutes carry
/// the hours' sign, as `time` normalizes them.
pub open spec fn spec_effective_offset(h: i8, m: i8) -> (i8, i8) {
    if h < 0 && m > 0 {
        (h, (-m) as i8)
    } else {
        (h, m)
    }
}

/// The local UTC offset, held as explicit state rather than process-global.
pub struct OffsetStore {
    pub offset: Option<(i8, i8)>,
}

impl OffsetStore {
    /// A store with no offset fixed yet.
    pub fn new() -> (r: Self)
        ensures
            r.offset is None,
    {
        OffsetStore { offset: None }
    }

    /// Fixes the offset from hour and minute values. Hours must lie in
    /// `-12..=14` and minutes in `0..=59`; for a negative offset the minutes
    /// are carried west too, so `(-9, 30)` stores and returns `(-9, -30)`.
    pub fn set_global_offset(&mut self, offset_hours: i8, offset_minutes: i8) -> (r: Result<
        (i8, i8),
        Error,
    >)
        ensures
            offset_hours < -12 || offset_hours > 14 ==> (r matches Err(
                Error::InvalidOffsetHours(h),
            ) && h == offset_hours) && *final(self) == *old(self),
            (-12 <= offset_hours <= 14 && !(0 <= offset_minutes <= 59)) ==> (r matches Err(
                Error::InvalidOffsetMinutes(m),
            ) && m == offset_minutes) && *final(self) == *old(self),
            (-12 <= offset_hours <= 14 && 0 <= offset_minutes <= 59) ==> r == Ok::<_, Error>(
                spec_effective_offset(offset_hours, offset_minutes),
            ) && final(self).offset == Some(spec_effective_offset(offset_hours, offset_minutes)),
    {
        if offset_hours < -12 || offset_hours > 14 {
            Err(Error::InvalidOffsetHours(offset_hours))
        } else if offset_minutes < 0 || offset_minutes > 59 {
            Err(Error::InvalidOffsetMinutes(offset_minutes))
        } else {
            let em: i8 = if offset_hours < 0 && offset_minutes > 0 {
                -offset_minutes
            } else {
                offset_minutes
            };
            self.offset = Some((offset_hours, em));
            Ok((offset_hours, em))
        }
    }

    /// Fixes the offset from a string such as `+0930`, `0930` or `-09:30`,
    /// as `time` parses it; anything else is refused.
    pub fn set_global_offset_from_str(&mut self, input: &str) -> (r: Result<(i8, i8), Error>)
        ensures
            match offset_parse(spec_trim(input@)) {
                Some(o) => r == Ok::<_, Error>(o) && final(self).offset == Some(o),
                None => (r matches Err(Error::InvalidOffsetString)) && *final(self) == *old(self),
            },
    {
        let trimmed = trim_new_lines(input);
        match parse_offset_hm(trimmed.as_str()) {
            Some(o) => {
                self.offset = Some(o);
                Ok(o)
            },
            None => Err(Error::InvalidOffsetString),
        }
    }

    /// The offset to use now: the stored one, else the platform's if it can
    /// be determined (remembered for later calls), else UTC.
    pub fn get_local_offset(&mut self) -> (r: (i8, i8))
        ensures
            old(self).offset matches Some(o) ==> r == o && *final(self) == *old(self),
            old(self).offset is None ==> final(self).offset == Some(r) && -25 <= r.0 <= 25 && -59
                <= r.1 <= 59,
    {
        match self.offset {
            Some(o) => o,
            None => {
                let o = match current_local_offset_hm() {
                    Some(o) => o,
                    None => (0, 0),
                };
                self.offset = Some(o);
                o
            },
        }
    }

    /// The current moment as a timestamp string, in the local offset when
    /// one is known, else in UTC.
    pub fn get_local_timestamp_rfc3339(&mut self) -> (r: Result<String, Error>)
        ensures
            old(self).offset matches Some(o) ==> *final(self) == *old(self),
    {
        let (h, m) = self.get_local_offset();
        get_local_timestamp_from_offset_rfc3339(h, m)
    }
}

/// The current moment as a timestamp string in the given offset: shifted by
/// the offset's whole hours when it is not UTC.
pub fn get_local_timestamp_from_offset_rfc3339(hours: i8, minutes: i8) -> (r: Result<
    String,
    Error,
>) {
    let out = if hours == 0 && minutes == 0 {
        now_formatted_utc()
    } else {
        now_formatted_shifted(hours, minutes)
    };
    match out {
        Ok(s) => Ok(s),
        Err(_) => Err(Error::TimeFormat),
    }
}

} // verus!
