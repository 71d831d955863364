//! Wall-clock texts of the player: a timestamp split into hours, minutes and
//! seconds, and its `HH:MM:SS` rendering through the `time` crate.
use vstd::prelude::*;
use crate::arith::{div_checked, div_trunc, lemma_div_trunc_fits, rem_checked, rem_trunc};
use crate::timing::{as_i64, pts_to_seconds, seconds_spec, Rational};

verus! {

#[verifier::external_type_specification]
#[verifier::external_body]
pub struct ExTime(time::Time);

#[verifier::external_type_specification]
#[verifier::external_body]
pub struct ExBorrowedFormatItem<'a>(time::format_description::BorrowedFormatItem<'a>);

/// A time of day built by the `time` crate, together with the hour, minute and second it
/// was built from (its view).
struct TimeOfDay {
    time: time::Time,
    hms: Ghost<(u8, u8, u8)>,
}

impl View for TimeOfDay {
    type V = (u8, u8, u8);

    closed spec fn view(&self) -> (u8, u8, u8) {
        self.hms@
    }
}

/// Format items parsed by the `time` crate, together with the format description text
/// they were parsed from (its view).
struct ClockFormat<'a> {
    items: Vec<time::format_description::BorrowedFormatItem<'a>>,
    text: Ghost<Seq<char>>,
}

impl<'a> View for ClockFormat<'a> {
    type V = Seq<char>;

    closed spec fn view(&self) -> Seq<char> {
        self.text@
    }
}

/// The format description the player renders clock texts with.
pub open spec fn clock_description() -> Seq<char> {
    "[hour]:[minute]:[second]"@
}

/// A value below 100 as two decimal digits, zero-padded.
pub open spec fn two_digits(v: u8) -> Seq<char> {
    let digits = seq!['0', '1', '2', '3', '4', '5', '6', '7', '8', '9'];
    seq![digits[(v / 10) as int], digits[(v % 10) as int]]
}

/// `HH:MM:SS`: hour, minute and second as two zero-padded digits each, separated by `:`.
pub open spec fn clock_digits(hms: (u8, u8, u8)) -> Seq<char> {
    two_digits(hms.0) + seq![':'] + two_digits(hms.1) + seq![':'] + two_digits(hms.2)
}

/// Calls `time::Time::from_hms`. The contract claims that it succeeds exactly when the
/// hour is below 24, the minute below 60 and the second below 60 (the crate checks each
/// component against that range and stores the three components in the time it builds),
/// and that the time built holds the given components.
#[verifier::external_body]
fn time_from_hms(hour: u8, minute: u8, second: u8) -> (r: Option<TimeOfDay>)
    ensures
        r is Some <==> (hour < 24 && minute < 60 && second < 60),
        r matches Some(t) ==> t@ == (hour, minute, second),
{
    match time::Time::from_hms(hour, minute, second) {
        Ok(time) => Some(TimeOfDay { time, hms: Ghost((hour, minute, second)) }),
        Err(_) => None,
    }
}

/// A name for whether `time::format_description::parse` accepts a format description.
pub uninterp spec fn format_description_parses(description: Seq<char>) -> bool;

/// Calls `time::format_description::parse` (format description version 1). The contract
/// claims that whether it succeeds is a function of the description (named
/// `format_description_parses`), that it accepts `[hour]:[minute]:[second]` (the crate's
/// own documented example), and that the items returned are those of the description given.
#[verifier::external_body]
#[allow(deprecated)]
fn parse_format_description(description: &str) -> (r: Option<ClockFormat<'_>>)
    ensures
        r is Some <==> format_description_parses(description@),
        description@ == clock_description() ==> r is Some,
        r matches Some(f) ==> f@ == description@,
{
    match time::format_description::parse(description) {
        Ok(items) => Some(ClockFormat { items, text: Ghost(description@) }),
        Err(_) => None,
    }
}

/// A name for the text `time::Time::format` produces for a time of day with the given
/// components and the items of a format description.
pub uninterp spec fn formatted_time(description: Seq<char>, hms: (u8, u8, u8)) -> Seq<char>;

/// Calls `time::Time::format` with parsed format items. The contract claims that the text
/// is a function of the description and the time (named `formatted_time`), and, for the
/// description `[hour]:[minute]:[second]`, that formatting succeeds and gives the hour
/// (24-hour clock), minute and second as two zero-padded digits each, separated by `:`:
/// the defaults of these components, written into a buffer that cannot fail. Whether it
/// succeeds for other descriptions is not stated.
#[verifier::external_body]
fn format_time(time: &TimeOfDay, format: &ClockFormat<'_>) -> (r: Option<String>)
    ensures
        r matches Some(s) ==> s@ == formatted_time(format@, time@),
        format@ == clock_description() && time@.0 < 24 && time@.1 < 60 && time@.2 < 60 ==> r is Some,
        r matches Some(s) ==> (format@ == clock_description() ==> s@ == clock_digits(time@)),
{
    time.time.format(format.items.as_slice()).ok()
}

/// Hours, minutes and seconds of a number of seconds, each narrowed to `u8` as the player
/// does: `sec = s % 60`, `min = (s / 60) % 60`, `hour = s / 60 / 60`, with Rust's
/// truncating `/` and `%` and wrapping `as u8`.
pub open spec fn split_clock_spec(sec_num: int) -> (u8, u8, u8) {
    let min_num = div_trunc(sec_num, 60);
    (
        div_trunc(min_num, 60) as u8,
        rem_trunc(min_num, 60) as u8,
        rem_trunc(sec_num, 60) as u8,
    )
}

/// Splits a number of seconds into `(hour, minute, second)`.
pub fn split_clock(sec_num: i64) -> (r: (u8, u8, u8))
    ensures
        r == split_clock_spec(sec_num as int),
{
    proof {
        lemma_div_trunc_fits(sec_num as int, 60);
        lemma_div_trunc_fits(div_trunc(sec_num as int, 60), 60);
    }
    let sec: i64 = match rem_checked(sec_num, 60) {
        Some(v) => v,
        None => 0,
    };
    let min_num: i64 = match div_checked(sec_num, 60) {
        Some(v) => v,
        None => 0,
    };
    let min: i64 = match rem_checked(min_num, 60) {
        Some(v) => v,
        None => 0,
    };
    let hour_num: i64 = match div_checked(min_num, 60) {
        Some(v) => v,
        None => 0,
    };
    (hour_num as u8, min as u8, sec as u8)
}

/// The `HH:MM:SS` text of a time of day, rendered by the `time` crate with the format
/// description `[hour]:[minute]:[second]`; `None` when the components are out of range.
pub fn clock_text(hour: u8, minute: u8, second: u8) -> (r: Option<String>)
    ensures
        hour < 24 && minute < 60 && second < 60 ==> r is Some,
        r matches Some(s) ==> s@ == clock_digits((hour, minute, second)),
        !(hour < 24 && minute < 60 && second < 60) ==> r is None,
{
    proof {
        reveal_strlit("[hour]:[minute]:[second]");
    }
    match time_from_hms(hour, minute, second) {
        None => None,
        Some(t) => match parse_format_description("[hour]:[minute]:[second]") {
            None => None,
            Some(format) => format_time(&t, &format),
        },
    }
}

/// The play-position text shown on the progress slider: the current position as
/// `HH:MM:SS`, a `|`, and the total duration text. It is rebuilt only when the position,
/// counted in whole seconds, has changed.
pub struct PlayClock {
    /// The `(hour, minute, second)` the text was last built for.
    pub play_time: (u8, u8, u8),
    /// The text shown.
    pub time_text: String,
}

impl PlayClock {
    /// Starts at `00:00:00` with an empty text.
    pub fn new() -> (r: PlayClock)
        ensures
            r.play_time == (0u8, 0u8, 0u8),
            r.time_text@ == Seq::<char>::empty(),
    {
        PlayClock { play_time: (0, 0, 0), time_text: String::new() }
    }

    /// Updates the text for the play position `play_ts` (in ticks of `tb`) against the total
    /// duration text `end_text`. Returns `false` when converting the position to seconds
    /// overflows or divides by zero (the player cannot go on), `true` otherwise.
    /// When the position is a valid time of day that differs from the remembered one, it is
    /// remembered and the text becomes it as `HH:MM:SS`, followed by `|` and `end_text`;
    /// otherwise nothing changes.
    pub fn update_time_and_time_text(&mut self, play_ts: i64, tb: Rational, end_text: &String) -> (r:
        bool)
        ensures
            r == (seconds_spec(play_ts as int, tb) is Some),
            ({
                let hms = split_clock_spec(seconds_spec(play_ts as int, tb)->Some_0);
                if r && hms.0 < 24 && hms.1 < 60 && hms.2 < 60 && hms != old(self).play_time {
                    &&& final(self).play_time == hms
                    &&& final(self).time_text@ == clock_digits(hms) + "|"@ + end_text@
                } else {
                    *final(self) == *old(self)
                }
            }),
    {
        let sec_num = match pts_to_seconds(play_ts, tb) {
            None => {
                return false;
            },
            Some(v) => v,
        };
        let hms = split_clock(sec_num);
        if !(hms.0 < 24 && hms.1 < 60 && hms.2 < 60) {
            return true;
        }
        if hms.0 == self.play_time.0 && hms.1 == self.play_time.1 && hms.2 == self.play_time.2 {
            return true;
        }
        match clock_text(hms.0, hms.1, hms.2) {
            None => true,
            Some(now_str) => {
                let text = now_str.concat("|").concat(end_text.as_str());
                proof {
                    reveal_strlit("|");
                    assert(text@ == now_str@ + "|"@ + end_text@);
                }
                self.time_text = text;
                self.play_time = hms;
                true
            },
        }
    }
}

} // verus!
