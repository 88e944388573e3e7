//! Points in time, written as RFC 3339 text with a fixed offset.

use crate::text::same_text;
use vstd::prelude::*;

verus! {

/// What an RFC 3339 text stands for: the seconds since the epoch, the
/// nanoseconds within the second and the offset from UTC in seconds; `None`
/// for a text that is no RFC 3339 date and time.
pub uninterp spec fn rfc3339_instant(text: Seq<char>) -> Option<(i64, u32, i32)>;

/// The RFC 3339 text of a point in time at an offset; `None` where the
/// calendar cannot express it.
pub uninterp spec fn rfc3339_text(secs: i64, nanos: u32, offset: i32) -> Option<Seq<char>>;

/// Calls `chrono::DateTime::parse_from_rfc3339` and takes the result apart
/// with `timestamp`, `timestamp_subsec_nanos` and the offset's
/// `local_minus_utc`. The outcome depends on the text alone.
#[verifier::external_body]
fn parse_rfc3339(text: &str) -> (r: Option<(i64, u32, i32)>)
    ensures
        r == rfc3339_instant(text@),
{
    let at = chrono::DateTime::parse_from_rfc3339(text).ok()?;
    Some((at.timestamp(), at.timestamp_subsec_nanos(), at.offset().local_minus_utc()))
}

/// Builds the time with `chrono::DateTime::from_timestamp` and
/// `chrono::FixedOffset::east_opt` and writes it with `to_rfc3339`. Both
/// constructors refuse what is out of range; the text depends on the three
/// numbers alone.
#[verifier::external_body]
fn format_rfc3339(secs: i64, nanos: u32, offset: i32) -> (r: Option<String>)
    ensures
        match r {
            Some(s) => rfc3339_text(secs, nanos, offset) == Some(s@),
            None => rfc3339_text(secs, nanos, offset) is None,
        },
{
    let zone = chrono::FixedOffset::east_opt(offset)?;
    let utc = chrono::DateTime::from_timestamp(secs, nanos)?;
    Some(utc.with_timezone(&zone).to_rfc3339())
}

/// Asks `chrono::Local::now` for the time and the offset of the local time
/// zone. What comes back is up to the clock and the machine.
#[verifier::external_body]
fn clock() -> (r: (i64, u32, i32)) {
    let at = chrono::Local::now();
    (at.timestamp(), at.timestamp_subsec_nanos(), at.offset().local_minus_utc())
}

/// A point in time together with the text it was written as. The text is
/// kept as it was read, so that writing a date reproduces it exactly; the
/// numbers are always what the text stands for.
#[derive(Debug)]
pub struct Date {
    text: String,
    secs: i64,
    nanos: u32,
    offset: i32,
}

/// What a `Date` stands for.
pub struct DateView {
    pub text: Seq<char>,
    pub secs: i64,
    pub nanos: u32,
    pub offset: i32,
}

impl View for Date {
    type V = DateView;

    closed spec fn view(&self) -> DateView {
        DateView { text: self.text@, secs: self.secs, nanos: self.nanos, offset: self.offset }
    }
}

impl DateView {
    /// The numbers are what the text stands for.
    pub open spec fn wf(self) -> bool {
        rfc3339_instant(self.text) == Some((self.secs, self.nanos, self.offset))
    }
}

/// The date that a text stands for, if it is an RFC 3339 date and time.
pub open spec fn date_of_text(text: Seq<char>) -> Option<DateView> {
    match rfc3339_instant(text) {
        Some((secs, nanos, offset)) => Some(DateView { text, secs, nanos, offset }),
        None => None,
    }
}

/// The date with the given numbers, if the calendar can write it and reads
/// its own text back as the same numbers.
pub open spec fn date_of_instant(secs: i64, nanos: u32, offset: i32) -> Option<DateView> {
    match rfc3339_text(secs, nanos, offset) {
        Some(text) => if rfc3339_instant(text) == Some((secs, nanos, offset)) {
            Some(DateView { text, secs, nanos, offset })
        } else {
            None
        },
        None => None,
    }
}

impl Date {
    #[verifier::type_invariant]
    spec fn read_as_written(self) -> bool {
        self@.wf()
    }

    /// Every date is well-formed: its numbers are what its text stands for.
    pub fn attest(&self)
        ensures
            self@.wf(),
            date_of_text(self@.text) == Some(self@),
    {
        proof {
            use_type_invariant(self);
        }
    }

    /// The seconds since the epoch.
    pub fn secs(&self) -> (r: i64)
        ensures
            r == self@.secs,
    {
        self.secs
    }

    /// The nanoseconds within the second.
    pub fn nanos(&self) -> (r: u32)
        ensures
            r == self@.nanos,
    {
        self.nanos
    }

    /// The offset from UTC in seconds, east of Greenwich counted positive.
    pub fn offset(&self) -> (r: i32)
        ensures
            r == self@.offset,
    {
        self.offset
    }

    /// Reads an RFC 3339 date and time, such as `2018-09-20T22:12:01-07:00`.
    pub fn parse(text: &str) -> (r: Option<Date>)
        ensures
            match r {
                Some(d) => date_of_text(text@) == Some(d@) && d@.wf(),
                None => date_of_text(text@) is None,
            },
    {
        match parse_rfc3339(text) {
            Some((secs, nanos, offset)) => Some(Date { text: text.to_owned(), secs, nanos, offset }),
            None => None,
        }
    }

    /// The date at `secs` seconds and `nanos` nanoseconds since the epoch, as
    /// seen `offset` seconds east of UTC.
    pub fn from_timestamp(secs: i64, nanos: u32, offset: i32) -> (r: Option<Date>)
        ensures
            match r {
                Some(d) => date_of_instant(secs, nanos, offset) == Some(d@) && d@.wf(),
                None => date_of_instant(secs, nanos, offset) is None,
            },
    {
        match format_rfc3339(secs, nanos, offset) {
            Some(text) => match parse_rfc3339(text.as_str()) {
                Some((s, n, o)) => if s == secs && n == nanos && o == offset {
                    Some(Date { text, secs, nanos, offset })
                } else {
                    None
                },
                None => None,
            },
            None => None,
        }
    }

    /// The present time at the offset of the local time zone. Whatever
    /// instant the clock shows, the outcome is the date of that instant:
    /// `None` comes only where that instant cannot be written.
    pub fn now() -> (r: Option<Date>)
        ensures
            exists|secs: i64, nanos: u32, offset: i32|
                #[trigger] date_of_instant(secs, nanos, offset) == match r {
                    Some(d) => Some(d@),
                    None => None,
                },
            r matches Some(d) ==> d@.wf() && date_of_instant(d@.secs, d@.nanos, d@.offset)
                == Some(d@),
    {
        let (secs, nanos, offset) = clock();
        let r = Date::from_timestamp(secs, nanos, offset);
        assert(date_of_instant(secs, nanos, offset) == match r {
            Some(d) => Some(d@),
            None => None,
        });
        r
    }

    /// The date as it is written.
    pub fn as_str(&self) -> (r: &str)
        ensures
            r@ == self@.text,
    {
        self.text.as_str()
    }

    /// Whether two dates are written the same.
    pub fn same_as(&self, other: &Date) -> (r: bool)
        ensures
            r == (self@.text == other@.text),
    {
        same_text(self.text.as_str(), other.text.as_str())
    }
}

impl Clone for Date {
    fn clone(&self) -> (r: Date)
        ensures
            r@ == self@,
    {
        proof {
            use_type_invariant(self);
        }
        Date { text: self.text.clone(), secs: self.secs, nanos: self.nanos, offset: self.offset }
    }
}

} // verus!
