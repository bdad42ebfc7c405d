//! Unix timestamps (seconds or milliseconds) to calendar dates, through
//! `chrono`.
use crate::text::{
    all_digits, chars_of, decimal_digits, is_digit, parse_i64, parse_i64_spec, trim_chars, trim_spec,
    zero_padded,
};
use crate::tools::finance_stats::{day_number, valid_date, CivilDate};
use chrono::TimeZone as _;
use vstd::prelude::*;

verus! {

/// Whether `chrono` holds a `DateTime<Utc>` for this Unix second and
/// nanosecond: the second lies between the first second of year -262143 and
/// the last second of year 262142, and the nanosecond is below one second, or
/// below two seconds on the 59th second of a minute (a leap second).
pub open spec fn in_chrono_range(secs: i64, nanos: u32) -> bool {
    &&& -8_334_601_228_800 <= secs <= 8_210_266_876_799
    &&& nanos < 2_000_000_000
    &&& (nanos < 1_000_000_000 || secs % 60 == 59)
}

/// A year as `%Y` writes it: at least four digits, with a sign before a
/// year outside 0..=9999.
pub open spec fn year_shaped(y: Seq<char>) -> bool {
    ||| y.len() >= 4 && all_digits(y)
    ||| y.len() >= 5 && (y[0] == '+' || y[0] == '-') && all_digits(y.drop_first())
}

/// Text of the shape `%Y-%m-%d %H:%M:%S` writes: a year, then
/// `-MM-DD HH:MM:SS` with two digits each.
pub open spec fn datetime_shaped(t: Seq<char>) -> bool {
    let k = t.len() - 15;
    &&& t.len() >= 19
    &&& year_shaped(t.subrange(0, k))
    &&& t[k] == '-' && t[k + 3] == '-' && t[k + 6] == ' ' && t[k + 9] == ':' && t[k + 12] == ':'
    &&& forall|i: int|
        k < i < t.len() && i != k + 3 && i != k + 6 && i != k + 9 && i != k + 12 ==> is_digit(
            #[trigger] t[i],
        )
}

/// A year as `%Y` writes it: years 0 to 9999 as four digits, others with
/// their sign and at least four digits.
pub open spec fn year_text(y: int) -> Seq<char> {
    if 0 <= y <= 9999 {
        zero_padded(y, 4)
    } else if y < 0 {
        zero_padded(y, 5)
    } else {
        seq!['+'] + decimal_digits(y as nat)
    }
}

/// A date and a second of its day written `%Y-%m-%d %H:%M:%S`; a leap second
/// is written as second 60.
pub open spec fn datetime_text(d: CivilDate, second_of_day: int, leap: bool) -> Seq<char> {
    year_text(d.year as int) + "-"@ + zero_padded(d.month as int, 2) + "-"@ + zero_padded(
        d.day as int,
        2,
    ) + " "@ + zero_padded(second_of_day / 3600, 2) + ":"@ + zero_padded((second_of_day % 3600) / 60, 2)
        + ":"@ + zero_padded(second_of_day % 60 + if leap { 1int } else { 0int }, 2)
}

/// The UTC calendar date of a Unix second: the date whose day number is the
/// second divided by 86 400, rounded down.
pub open spec fn utc_date_of(secs: int) -> CivilDate {
    choose|d: CivilDate| valid_date(d) && day_number(d) == secs / 86_400
}

/// The UTC date and time of a Unix timestamp, written `%Y-%m-%d %H:%M:%S`.
pub open spec fn utc_text(secs: i64, nanos: u32) -> Seq<char> {
    datetime_text(utc_date_of(secs as int), secs as int % 86_400, nanos >= 1_000_000_000)
}

/// `Utc.timestamp_opt(secs, nanos).single()`, formatted with
/// `%Y-%m-%d %H:%M:%S`. Claimed: a date exists exactly on `chrono`'s range
/// (`DateTime::from_timestamp` checks the day count and the nanosecond as
/// `in_chrono_range` states); its date is the one `secs.div_euclid(86_400)`
/// days after 1970-01-01 and its time of day `secs.rem_euclid(86_400)`
/// seconds, a nanosecond of a second or more making the second a leap
/// second 60; and the text is that date and time as the format's fields
/// write them.
#[verifier::external_body]
fn format_utc(secs: i64, nanos: u32) -> (r: Option<String>)
    ensures
        r is Some <==> in_chrono_range(secs, nanos),
        r matches Some(t) ==> valid_date(utc_date_of(secs as int)) && day_number(
            utc_date_of(secs as int),
        ) == secs as int / 86_400 && t@ == utc_text(secs, nanos),
{
    match chrono::Utc.timestamp_opt(secs, nanos).single() {
        Some(dt) => Some(dt.format("%Y-%m-%d %H:%M:%S").to_string()),
        None => None,
    }
}

/// The same instant in the machine's time zone (`with_timezone(&Local)`),
/// formatted with `%Y-%m-%d %H:%M:%S`. Claimed: a text exists exactly on
/// `chrono`'s range, and it has the shape that format writes (`%Y` pads the
/// year to four digits and signs years outside 0..=9999; the other fields
/// are two zero-padded digits). Which date and time it spells depends on the
/// machine's time zone and is not stated.
#[verifier::external_body]
fn format_local(secs: i64, nanos: u32) -> (r: Option<String>)
    ensures
        r is Some <==> in_chrono_range(secs, nanos),
        r matches Some(t) ==> datetime_shaped(t@),
{
    match chrono::Utc.timestamp_opt(secs, nanos).single() {
        Some(dt) => Some(dt.with_timezone(&chrono::Local).format("%Y-%m-%d %H:%M:%S").to_string()),
        None => None,
    }
}

/// Read a timestamp whose magnitude exceeds 100 000 000 000 as milliseconds,
/// anything else as seconds: the Unix second (rounded down) and the
/// nanosecond within it.
pub open spec fn timestamp_parts_spec(ts: i64) -> (i64, u32) {
    if ts > 100_000_000_000 || ts < -100_000_000_000 {
        ((ts / 1000) as i64, ((ts % 1000) * 1_000_000) as u32)
    } else {
        (ts, 0)
    }
}

/// Split a timestamp into Unix seconds and nanoseconds, guessing whether it
/// counts seconds or milliseconds.
pub fn timestamp_parts(ts: i64) -> (r: (i64, u32))
    ensures
        r == timestamp_parts_spec(ts),
{
    if ts > 100_000_000_000 {
        let u = ts as u64;
        let secs = (u / 1000) as i64;
        let millis = (u % 1000) as u32;
        (secs, millis * 1_000_000)
    } else if ts < -100_000_000_000 {
        if ts == i64::MIN {
            // -9223372036854775808 = -9223372036854776 * 1000 + 192
            return (-9_223_372_036_854_776, 192_000_000);
        }
        let u = (0 - ts) as u64;
        let whole = (u / 1000) as i64;
        let rest = (u % 1000) as u32;
        if rest == 0 {
            (0 - whole, 0)
        } else {
            (0 - whole - 1, (1000 - rest) * 1_000_000)
        }
    } else {
        (ts, 0)
    }
}

/// Splitting a timestamp loses nothing: a millisecond count comes back as
/// its whole seconds times 1000 plus its milliseconds, and a second count
/// stays as it is with no nanoseconds.
pub proof fn law_timestamp_parts_exact(ts: i64)
    ensures
        ({
            let (secs, nanos) = timestamp_parts_spec(ts);
            if ts > 100_000_000_000 || ts < -100_000_000_000 {
                &&& secs * 1000 + nanos / 1_000_000 == ts
                &&& nanos % 1_000_000 == 0
                &&& nanos < 1_000_000_000
            } else {
                secs == ts && nanos == 0
            }
        }),
{
}

/// The result of a conversion: the UTC line, then the local line.
pub open spec fn conversion_text_spec(utc: Seq<char>, local: Seq<char>) -> Seq<char> {
    "UTC:   "@ + utc + "\nLocal: "@ + local
}

/// Write a conversion's result from the UTC and the local date text.
pub fn conversion_text(utc: &str, local: &str) -> (r: String)
    ensures
        r@ == conversion_text_spec(utc@, local@),
{
    String::from_str("UTC:   ").concat(utc).concat("\nLocal: ").concat(local)
}

/// The converter's text box and its result.
pub struct EpochConverter {
    timestamp_input: String,
    date_output: String,
}

impl EpochConverter {
    pub closed spec fn input_spec(&self) -> Seq<char> {
        self.timestamp_input@
    }

    pub closed spec fn output_spec(&self) -> Seq<char> {
        self.date_output@
    }

    /// The state a fresh tool starts in.
    pub open spec fn is_fresh(&self) -> bool {
        &&& (self.input_spec() == Seq::<char>::empty())
        &&& (self.output_spec() == Seq::<char>::empty())
    }

    /// An empty converter.
    pub fn new() -> (r: Self)
        ensures
            r.is_fresh(),
            r.input_spec() == Seq::<char>::empty(),
            r.output_spec() == Seq::<char>::empty(),
    {
        EpochConverter { timestamp_input: String::new(), date_output: String::new() }
    }

    /// Convert the trimmed input: nothing for an empty input; "Invalid
    /// number" when it is not an `i64`; "Invalid timestamp" when the instant
    /// is out of `chrono`'s range; otherwise the UTC line and the local line.
    pub fn convert(&mut self)
        ensures
            final(self).input_spec() == old(self).input_spec(),
            trim_spec(old(self).input_spec()).len() == 0 ==> final(self).output_spec()
                == Seq::<char>::empty(),
            trim_spec(old(self).input_spec()).len() > 0 && parse_i64_spec(
                trim_spec(old(self).input_spec()),
            ) is None ==> final(self).output_spec() == "Invalid number"@,
            parse_i64_spec(trim_spec(old(self).input_spec())) matches Some(ts) ==> {
                let (s, n) = timestamp_parts_spec(ts);
                if in_chrono_range(s, n) {
                    exists|local: Seq<char>|
                        datetime_shaped(local) && final(self).output_spec()
                            == #[trigger] conversion_text_spec(utc_text(s, n), local)
                } else {
                    final(self).output_spec() == "Invalid timestamp"@
                }
            },
    {
        let v = chars_of(self.timestamp_input.as_str());
        let t = trim_chars(v.as_slice());
        if t.len() == 0 {
            self.date_output = String::new();
            return;
        }
        match parse_i64(t.as_slice()) {
            Some(ts) => {
                let (secs, nanos) = timestamp_parts(ts);
                match format_utc(secs, nanos) {
                    Some(utc) => {
                        let local = format_local(secs, nanos);
                        let local_text = match local {
                            Some(l) => l,
                            None => String::new(),
                        };
                        let out = conversion_text(utc.as_str(), local_text.as_str());
                        proof {
                            assert(out@ == conversion_text_spec(utc_text(secs, nanos), local_text@));
                        }
                        self.date_output = out;
                    },
                    None => {
                        self.date_output = String::from_str("Invalid timestamp");
                    },
                }
            },
            None => {
                self.date_output = String::from_str("Invalid number");
            },
        }
    }

    /// Clear the input and the result ("Clear").
    pub fn clear(&mut self)
        ensures
            final(self).input_spec() == Seq::<char>::empty(),
            final(self).output_spec() == Seq::<char>::empty(),
    {
        self.timestamp_input = String::new();
        self.date_output = String::new();
    }

    pub fn set_timestamp_input(&mut self, text: &str)
        ensures
            final(self).input_spec() == text@,
            final(self).output_spec() == old(self).output_spec(),
    {
        self.timestamp_input = String::from_str(text);
    }

    pub fn timestamp_input(&self) -> (r: &str)
        ensures
            r@ == self.input_spec(),
    {
        self.timestamp_input.as_str()
    }

    pub fn date_output(&self) -> (r: &str)
        ensures
            r@ == self.output_spec(),
    {
        self.date_output.as_str()
    }
}

} // verus!
