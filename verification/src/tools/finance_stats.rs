//! The finance statistics' calendar and labels: the month selector, the
//! month a summary covers, the month or ISO-week bucket of a transaction, and
//! the labels shown for accounts and buckets. Calendar facts come from
//! `chrono`; sums of amounts are floating point and stay with the caller.
use crate::clock::UtcTime;
use crate::text::{
    decimal_digits, digits_value, is_digit, lemma_decimal_digits_are_digits,
    lemma_first_occurrence_at, lemma_zero_padded_shape, occurs_at, chars_of, find_chars, first_occurrence, parse_u32, parse_u32_spec, string_of, sub_chars,
    zero_padded, zero_padded_chars,
};
use crate::tools::epoch_converter::in_chrono_range;
use crate::tools::finance_tracker::{Account, AccountModel, Transaction, TransactionModel};
use chrono::Datelike as _;
use chrono::TimeZone as _;
use vstd::prelude::*;

verus! {

/// How the trend chart buckets transactions.
#[derive(PartialEq, Eq, Clone, Copy, Debug, Structural)]
pub enum StatsTimeMode {
    Month,
    Week,
}

// ---------------------------------------------------------------------------
// Calendar dates (`chrono::NaiveDate`)
// ---------------------------------------------------------------------------

/// A proleptic Gregorian calendar date.
#[derive(PartialEq, Eq, Clone, Copy, Debug, Structural)]
pub struct CivilDate {
    pub year: i32,
    pub month: u32,
    pub day: u32,
}

pub open spec fn is_leap_year(y: int) -> bool {
    y % 4 == 0 && (y % 100 != 0 || y % 400 == 0)
}

pub open spec fn days_in_month(y: int, m: int) -> int {
    if m == 2 {
        if is_leap_year(y) {
            29
        } else {
            28
        }
    } else if m == 4 || m == 6 || m == 9 || m == 11 {
        30
    } else {
        31
    }
}

/// A date that `NaiveDate` can hold: a year from -262143 to 262142, a month
/// from 1 to 12, and a day of that month.
pub open spec fn valid_ymd(y: int, m: int, d: int) -> bool {
    &&& -262143 <= y <= 262142
    &&& 1 <= m <= 12
    &&& 1 <= d <= days_in_month(y, m)
}

pub open spec fn valid_date(d: CivilDate) -> bool {
    valid_ymd(d.year as int, d.month as int, d.day as int)
}

/// `NaiveDate::from_ymd_opt`. Claimed, as its documentation says: a date
/// exactly when the day exists in that month of a year in range.
#[verifier::external_body]
pub(crate) fn date_from_ymd(year: i32, month: u32, day: u32) -> (r: Option<CivilDate>)
    ensures
        r is Some <==> valid_ymd(year as int, month as int, day as int),
        r matches Some(d) ==> d == (CivilDate { year, month, day }),
{
    match chrono::NaiveDate::from_ymd_opt(year, month, day) {
        Some(_) => Some(CivilDate { year, month, day }),
        None => None,
    }
}

/// The calendar day before a valid date, `None` before the first date that
/// `NaiveDate` holds.
pub open spec fn day_before_spec(d: CivilDate) -> Option<CivilDate> {
    if d.day > 1 {
        Some(CivilDate { year: d.year, month: d.month, day: (d.day - 1) as u32 })
    } else if d.month > 1 {
        Some(
            CivilDate {
                year: d.year,
                month: (d.month - 1) as u32,
                day: days_in_month(d.year as int, d.month - 1) as u32,
            },
        )
    } else if d.year > -262143 {
        Some(CivilDate { year: (d.year - 1) as i32, month: 12, day: 31 })
    } else {
        None
    }
}

/// `NaiveDate::pred_opt`. Claimed: the previous calendar day (the ordinal
/// decremented within the year, else December 31 of the year before), or
/// `None` on the first date `NaiveDate` holds.
#[verifier::external_body]
pub(crate) fn day_before(d: CivilDate) -> (r: Option<CivilDate>)
    requires
        valid_date(d),
    ensures
        r == day_before_spec(d),
{
    match chrono::NaiveDate::from_ymd_opt(d.year, d.month, d.day) {
        Some(nd) => match nd.pred_opt() {
            Some(p) => Some(CivilDate { year: p.year(), month: p.month(), day: p.day() }),
            None => None,
        },
        None => None,
    }
}

/// `NaiveDate::default()`: 1970-01-01.
pub open spec fn default_date() -> CivilDate {
    CivilDate { year: 1970, month: 1, day: 1 }
}

/// `a` is on or before `b` (the order of `NaiveDate`).
pub open spec fn date_le(a: CivilDate, b: CivilDate) -> bool {
    a.year < b.year || (a.year == b.year && (a.month < b.month || (a.month == b.month && a.day
        <= b.day)))
}

// ---------------------------------------------------------------------------
// Day numbers
// ---------------------------------------------------------------------------

pub open spec fn days_in_year(y: int) -> int {
    if is_leap_year(y) {
        366
    } else {
        365
    }
}

/// Days from January 1 of year 0 to January 1 of year `y` (negative before
/// year 0): 365 a year and one more for each leap year in between.
pub open spec fn days_before_year(y: int) -> int {
    365 * y + (y + 3) / 4 - (y + 99) / 100 + (y + 399) / 400
}

/// Days from January 1 to the first day of month `m` of year `y`.
pub open spec fn days_before_month(y: int, m: int) -> int
    decreases m,
{
    if m <= 1 {
        0
    } else {
        days_before_month(y, m - 1) + days_in_month(y, m - 1)
    }
}

/// The day number of a date: days from 1970-01-01 (negative before it).
pub open spec fn day_number(d: CivilDate) -> int {
    days_before_year(d.year as int) - days_before_year(1970) + days_before_month(
        d.year as int,
        d.month as int,
    ) + d.day - 1
}

proof fn lemma_year_step(y: int)
    ensures
        days_before_year(y + 1) == days_before_year(y) + days_in_year(y),
{
    assert((y + 4) / 4 - (y + 3) / 4 == if y % 4 == 0 { 1int } else { 0int });
    assert((y + 100) / 100 - (y + 99) / 100 == if y % 100 == 0 { 1int } else { 0int });
    assert((y + 400) / 400 - (y + 399) / 400 == if y % 400 == 0 { 1int } else { 0int });
}

proof fn lemma_years_apart(y1: int, y2: int)
    requires
        y1 < y2,
    ensures
        days_before_year(y2) >= days_before_year(y1) + days_in_year(y1),
    decreases y2 - y1,
{
    lemma_year_step(y1);
    if y2 > y1 + 1 {
        lemma_years_apart(y1 + 1, y2);
    }
}

proof fn lemma_months_apart(y: int, m1: int, m2: int)
    requires
        1 <= m1 < m2,
    ensures
        days_before_month(y, m2) >= days_before_month(y, m1) + days_in_month(y, m1),
    decreases m2 - m1,
{
    if m2 > m1 + 1 {
        lemma_months_apart(y, m1, m2 - 1);
    }
}

proof fn lemma_whole_year(y: int)
    ensures
        days_before_month(y, 13) == days_in_year(y),
{
    reveal_with_fuel(days_before_month, 13);
}

/// A date strictly before another has a smaller day number.
pub proof fn lemma_day_number_strict(a: CivilDate, b: CivilDate)
    requires
        valid_date(a),
        valid_date(b),
        date_le(a, b),
        a != b,
    ensures
        day_number(a) < day_number(b),
{
    let (ya, ma, da) = (a.year as int, a.month as int, a.day as int);
    let (yb, mb, db) = (b.year as int, b.month as int, b.day as int);
    if mb > 1 {
        lemma_months_apart(yb, 1, mb);
    }
    if ya < yb {
        lemma_months_apart(ya, ma, 13);
        lemma_whole_year(ya);
        lemma_years_apart(ya, yb);
    } else if ma < mb {
        lemma_months_apart(ya, ma, mb);
    }
}

/// Different dates have different day numbers.
pub proof fn lemma_day_number_injective(a: CivilDate, b: CivilDate)
    requires
        valid_date(a),
        valid_date(b),
        a != b,
    ensures
        day_number(a) != day_number(b),
{
    if date_le(a, b) {
        lemma_day_number_strict(a, b);
    } else {
        lemma_day_number_strict(b, a);
    }
}

pub fn is_date_le(a: CivilDate, b: CivilDate) -> (r: bool)
    ensures
        r == date_le(a, b),
{
    a.year < b.year || (a.year == b.year && (a.month < b.month || (a.month == b.month && a.day
        <= b.day)))
}

/// The first and last day that a monthly summary covers, as the month
/// selector's year and month give them (with `NaiveDate`'s fallbacks where a
/// date does not exist).
pub open spec fn month_range_spec(year: i32, month: u32) -> (CivilDate, CivilDate) {
    let first = if valid_ymd(year as int, month as int, 1) {
        CivilDate { year, month, day: 1 }
    } else {
        default_date()
    };
    let (ny, nm) = if month == 12 {
        (year + 1, 1)
    } else {
        (year as int, month + 1)
    };
    let next = if valid_ymd(ny, nm, 1) {
        CivilDate { year: ny as i32, month: nm as u32, day: 1 }
    } else {
        default_date()
    };
    let last = match day_before_spec(next) {
        Some(d) => d,
        None => first,
    };
    (first, last)
}

/// The first and the last day of a month.
pub open spec fn whole_month(year: i32, month: u32) -> (CivilDate, CivilDate) {
    (
        CivilDate { year, month, day: 1 },
        CivilDate { year, month, day: days_in_month(year as int, month as int) as u32 },
    )
}

/// The days a monthly summary covers. For a month whose first day and the
/// first day of the next month both exist, that is the whole month.
pub fn month_range(year: i32, month: u32) -> (r: (CivilDate, CivilDate))
    requires
        month == 12 ==> year < i32::MAX,
        month < u32::MAX,
    ensures
        r == month_range_spec(year, month),
        valid_ymd(year as int, month as int, 1) && (month < 12 || year < 262142) ==> r
            == whole_month(year, month),
{
    let first = match date_from_ymd(year, month, 1) {
        Some(d) => d,
        None => CivilDate { year: 1970, month: 1, day: 1 },
    };
    let next = if month == 12 {
        date_from_ymd(year + 1, 1, 1)
    } else {
        date_from_ymd(year, month + 1, 1)
    };
    let next = match next {
        Some(d) => d,
        None => CivilDate { year: 1970, month: 1, day: 1 },
    };
    let last = match day_before(next) {
        Some(d) => d,
        None => first,
    };
    (first, last)
}

// ---------------------------------------------------------------------------
// The calendar day of a transaction
// ---------------------------------------------------------------------------

/// The UTC calendar date of an instant and its ISO 8601 week.
#[derive(PartialEq, Eq, Clone, Copy, Debug, Structural)]
pub struct CalendarDay {
    pub date: CivilDate,
    pub iso_year: i32,
    pub iso_week: u32,
}

/// The calendar day (`date_naive`, `iso_week`) of a UTC instant.
pub uninterp spec fn utc_calendar_day(secs: i64, nanos: u32) -> CalendarDay;

/// A calendar day as `chrono` gives one: a date it can hold and a week from
/// 1 to 53.
pub open spec fn well_formed_day(c: CalendarDay) -> bool {
    valid_date(c.date) && 1 <= c.iso_week <= 53
}

/// `DateTime<Utc>` of an instant, read by `date_naive()` and `iso_week()`.
/// Claimed: a day exactly on `chrono`'s range, and then the named day, whose
/// date `NaiveDate` holds and whose week lies in 1..=53; its date is the one
/// `secs.div_euclid(86_400)` days after 1970-01-01, as
/// `DateTime::from_timestamp` computes it.
#[verifier::external_body]
pub(crate) fn calendar_day_of(t: UtcTime) -> (r: Option<CalendarDay>)
    ensures
        r is Some <==> in_chrono_range(t.secs, t.nanos),
        r matches Some(c) ==> c == utc_calendar_day(t.secs, t.nanos) && well_formed_day(c),
        r matches Some(c) ==> day_number(c.date) == t.secs as int / 86_400,
{
    match chrono::Utc.timestamp_opt(t.secs, t.nanos).single() {
        Some(dt) => {
            let d = dt.date_naive();
            let w = d.iso_week();
            let date = CivilDate { year: d.year(), month: d.month(), day: d.day() };
            Some(CalendarDay { date, iso_year: w.year(), iso_week: w.week() })
        },
        None => None,
    }
}

/// A transaction falls in a summary's range.
pub open spec fn in_range(t: TransactionModel, range: (CivilDate, CivilDate)) -> bool {
    &&& in_chrono_range(t.created_at.secs, t.created_at.nanos)
    &&& date_le(range.0, utc_calendar_day(t.created_at.secs, t.created_at.nanos).date)
    &&& date_le(utc_calendar_day(t.created_at.secs, t.created_at.nanos).date, range.1)
}

/// The positions of the transactions that a monthly summary covers, in
/// order.
pub fn transactions_in_month(txs: &Vec<Transaction>, year: i32, month: u32) -> (r: Vec<usize>)
    requires
        month == 12 ==> year < i32::MAX,
        month < u32::MAX,
    ensures
        forall|i: int, j: int| 0 <= i < j < r@.len() ==> r@[i] < r@[j],
        forall|i: int|
            0 <= i < r@.len() ==> (#[trigger] r@[i]) < txs@.len() && in_range(
                txs@[r@[i] as int]@,
                month_range_spec(year, month),
            ),
        forall|k: int|
            0 <= k < txs@.len() && in_range(#[trigger] txs@[k]@, month_range_spec(year, month))
                ==> r@.contains(k as usize),
{
    let range = month_range(year, month);
    let mut r: Vec<usize> = Vec::new();
    let mut k: usize = 0;
    while k < txs.len()
        invariant
            k <= txs@.len(),
            range == month_range_spec(year, month),
            forall|i: int, j: int| 0 <= i < j < r@.len() ==> r@[i] < r@[j],
            forall|i: int| 0 <= i < r@.len() ==> (#[trigger] r@[i]) < k,
            forall|i: int|
                0 <= i < r@.len() ==> in_range(#[trigger] txs@[r@[i] as int]@, range),
            forall|j: int|
                0 <= j < k && in_range(#[trigger] txs@[j]@, range) ==> r@.contains(j as usize),
        decreases txs@.len() - k,
    {
        let t = txs[k].created_at;
        let ghost before = r@;
        match calendar_day_of(t) {
            Some(c) => {
                if is_date_le(range.0, c.date) && is_date_le(c.date, range.1) {
                    r.push(k);
                    proof {
                        assert(r@[r@.len() - 1] == k);
                        assert forall|j: int|
                            0 <= j < k + 1 && in_range(#[trigger] txs@[j]@, range) implies r@.contains(
                            j as usize,
                        ) by {
                            if j < k {
                                assert(before.contains(j as usize));
                                let w = choose|w: int| 0 <= w < before.len() && before[w] == j as usize;
                                assert(r@[w] == j as usize);
                            } else {
                                assert(r@[r@.len() - 1] == j as usize);
                            }
                        }
                    }
                }
            },
            None => {},
        }
        k += 1;
    }
    r
}

// ---------------------------------------------------------------------------
// Labels
// ---------------------------------------------------------------------------

/// The short English name of a month, "???" outside 1..=12.
pub open spec fn month_label_spec(month: u32) -> Seq<char> {
    if month == 1 {
        "Jan"@
    } else if month == 2 {
        "Feb"@
    } else if month == 3 {
        "Mar"@
    } else if month == 4 {
        "Apr"@
    } else if month == 5 {
        "May"@
    } else if month == 6 {
        "Jun"@
    } else if month == 7 {
        "Jul"@
    } else if month == 8 {
        "Aug"@
    } else if month == 9 {
        "Sep"@
    } else if month == 10 {
        "Oct"@
    } else if month == 11 {
        "Nov"@
    } else if month == 12 {
        "Dec"@
    } else {
        "???"@
    }
}

pub fn month_label(month: u32) -> (r: &'static str)
    ensures
        r@ == month_label_spec(month),
{
    match month {
        1 => "Jan",
        2 => "Feb",
        3 => "Mar",
        4 => "Apr",
        5 => "May",
        6 => "Jun",
        7 => "Jul",
        8 => "Aug",
        9 => "Sep",
        10 => "Oct",
        11 => "Nov",
        12 => "Dec",
        _ => "???",
    }
}

/// The month before, as the selector's "◀" steps.
pub open spec fn previous_month_spec(year: i32, month: u32) -> (i32, u32) {
    if month == 1 {
        ((year - 1) as i32, 12)
    } else {
        (year, (month - 1) as u32)
    }
}

/// The month after, as the selector's "▶" steps.
pub open spec fn next_month_spec(year: i32, month: u32) -> (i32, u32) {
    if month == 12 {
        ((year + 1) as i32, 1)
    } else {
        (year, (month + 1) as u32)
    }
}

pub fn previous_month(year: i32, month: u32) -> (r: (i32, u32))
    requires
        month >= 1,
        month == 1 ==> year > i32::MIN,
    ensures
        r == previous_month_spec(year, month),
{
    if month == 1 {
        (year - 1, 12)
    } else {
        (year, month - 1)
    }
}

pub fn next_month(year: i32, month: u32) -> (r: (i32, u32))
    requires
        month < u32::MAX,
        month == 12 ==> year < i32::MAX,
    ensures
        r == next_month_spec(year, month),
{
    if month == 12 {
        (year + 1, 1)
    } else {
        (year, month + 1)
    }
}

/// The label of a transaction's account in the monthly summary: the first
/// account with its id, as "icon name", or "Unknown".
pub open spec fn account_label_spec(accounts: Seq<AccountModel>, id: u128) -> Seq<char>
    decreases accounts.len(),
{
    if accounts.len() == 0 {
        "Unknown"@
    } else if accounts[0].id == id {
        accounts[0].icon + " "@ + accounts[0].name
    } else {
        account_label_spec(accounts.drop_first(), id)
    }
}

pub fn account_label(accounts: &Vec<Account>, id: u128) -> (r: String)
    ensures
        r@ == account_label_spec(accounts@.map_values(|a: Account| a@), id),
{
    let ghost all = accounts@.map_values(|a: Account| a@);
    let mut i: usize = 0;
    assert(all.skip(0) =~= all);
    while i < accounts.len()
        invariant
            i <= accounts@.len() == all.len(),
            all == accounts@.map_values(|a: Account| a@),
            account_label_spec(all, id) == account_label_spec(all.skip(i as int), id),
        decreases accounts@.len() - i,
    {
        proof {
            assert(all.skip(i as int)[0] == all[i as int]);
            assert(all.skip(i as int).drop_first() =~= all.skip(i + 1));
        }
        if accounts[i].id == id {
            let a = &accounts[i];
            return String::from_str(a.icon.as_str()).concat(" ").concat(a.name.as_str());
        }
        i += 1;
    }
    assert(all.skip(i as int) =~= Seq::<AccountModel>::empty());
    String::from_str("Unknown")
}

/// The trend bucket of a day: "YYYY-MM" by month, "YYYY-Www" by ISO week
/// (zero-padded as `{:04}` and `{:02}` write them).
pub open spec fn bucket_key_spec(day: CalendarDay, mode: StatsTimeMode) -> Seq<char> {
    match mode {
        StatsTimeMode::Month => zero_padded(day.date.year as int, 4) + "-"@ + zero_padded(
            day.date.month as int,
            2,
        ),
        StatsTimeMode::Week => zero_padded(day.iso_year as int, 4) + "-W"@ + zero_padded(
            day.iso_week as int,
            2,
        ),
    }
}

pub fn bucket_key(day: CalendarDay, mode: StatsTimeMode) -> (r: String)
    ensures
        r@ == bucket_key_spec(day, mode),
{
    match mode {
        StatsTimeMode::Month => {
            let y = zero_padded_chars(day.date.year as i64, 4);
            let m = zero_padded_chars(day.date.month as i64, 2);
            string_of(y.as_slice()).concat("-").concat(string_of(m.as_slice()).as_str())
        },
        StatsTimeMode::Week => {
            let y = zero_padded_chars(day.iso_year as i64, 4);
            let w = zero_padded_chars(day.iso_week as i64, 2);
            string_of(y.as_slice()).concat("-W").concat(string_of(w.as_slice()).as_str())
        },
    }
}

/// The label of a trend bucket: "2026-02" reads "Feb 2026" and "2026-W08"
/// reads "W08 2026"; a key without the separator stays as it is.
pub open spec fn pretty_bucket_label_spec(key: Seq<char>, mode: StatsTimeMode) -> Seq<char> {
    match mode {
        StatsTimeMode::Month => match first_occurrence(key, "-"@) {
            Some(i) => {
                let m = match parse_u32_spec(key.skip(i + 1)) {
                    Some(v) => v,
                    None => 0,
                };
                month_label_spec(m) + " "@ + key.take(i)
            },
            None => key,
        },
        StatsTimeMode::Week => match first_occurrence(key, "-W"@) {
            Some(i) => "W"@ + key.skip(i + 2) + " "@ + key.take(i),
            None => key,
        },
    }
}

pub fn pretty_bucket_label(key: &str, mode: StatsTimeMode) -> (r: String)
    ensures
        r@ == pretty_bucket_label_spec(key@, mode),
{
    let k = chars_of(key);
    let n = k.len();
    match mode {
        StatsTimeMode::Month => {
            let sep = chars_of("-");
            proof {
                reveal_strlit("-");
            }
            match find_chars(k.as_slice(), sep.as_slice()) {
                Some(i) => {
                    proof {
                        lemma_first_occurrence_bounds(k@, sep@);
                    }
                    let y = sub_chars(k.as_slice(), 0, i);
                    let rest = sub_chars(k.as_slice(), i + 1, n);
                    let m = match parse_u32(rest.as_slice()) {
                        Some(v) => v,
                        None => 0,
                    };
                    proof {
                        assert(y@ =~= k@.take(i as int));
                        assert(rest@ =~= k@.skip(i + 1));
                    }
                    String::from_str(month_label(m)).concat(" ").concat(string_of(y.as_slice()).as_str())
                },
                None => String::from_str(key),
            }
        },
        StatsTimeMode::Week => {
            let sep = chars_of("-W");
            proof {
                reveal_strlit("-W");
            }
            match find_chars(k.as_slice(), sep.as_slice()) {
                Some(i) => {
                    proof {
                        lemma_first_occurrence_bounds(k@, sep@);
                    }
                    let y = sub_chars(k.as_slice(), 0, i);
                    let w = sub_chars(k.as_slice(), i + 2, n);
                    proof {
                        assert(y@ =~= k@.take(i as int));
                        assert(w@ =~= k@.skip(i + 2));
                    }
                    String::from_str("W").concat(string_of(w.as_slice()).as_str()).concat(" ").concat(
                        string_of(y.as_slice()).as_str(),
                    )
                },
                None => String::from_str(key),
            }
        },
    }
}

proof fn lemma_first_occurrence_from_bounds(hay: Seq<char>, needle: Seq<char>, i: int)
    ensures
        crate::text::first_occurrence_from(hay, needle, i) matches Some(k) ==> 0 <= k && k
            + needle.len() <= hay.len() && crate::text::occurs_at(hay, needle, k),
    decreases hay.len() + 1 - i,
{
    if !(i < 0 || i + needle.len() > hay.len()) && !crate::text::occurs_at(hay, needle, i) {
        lemma_first_occurrence_from_bounds(hay, needle, i + 1);
    }
}

/// Where `needle` first occurs, it fits inside `hay`.
proof fn lemma_first_occurrence_bounds(hay: Seq<char>, needle: Seq<char>)
    ensures
        first_occurrence(hay, needle) matches Some(k) ==> 0 <= k && k + needle.len() <= hay.len(),
{
    lemma_first_occurrence_from_bounds(hay, needle, 0);
}


/// A bucket key without its separator keeps its label as it is; a month key
/// whose month part is not a month from 1 to 12 (such as "13" or "xx") reads
/// "???" before its year.
pub proof fn law_bucket_label_fallbacks(key: Seq<char>, mode: StatsTimeMode)
    ensures
        mode == StatsTimeMode::Month && first_occurrence(key, "-"@) is None ==> pretty_bucket_label_spec(
            key,
            mode,
        ) == key,
        mode == StatsTimeMode::Week && first_occurrence(key, "-W"@) is None ==> pretty_bucket_label_spec(
            key,
            mode,
        ) == key,
        mode == StatsTimeMode::Month && first_occurrence(key, "-"@) is Some && !(match parse_u32_spec(
            key.skip(first_occurrence(key, "-"@)->0 + 1),
        ) {
            Some(m) => 1 <= m <= 12,
            None => false,
        }) ==> pretty_bucket_label_spec(key, mode) == "???"@ + " "@ + key.take(
            first_occurrence(key, "-"@)->0,
        ),
{
}

/// A two-digit month or week number reads back as itself.
proof fn lemma_two_digits_parse(m: u32)
    requires
        1 <= m <= 53,
    ensures
        parse_u32_spec(zero_padded(m as int, 2)) == Some(m),
{
    let s = zero_padded(m as int, 2);
    lemma_zero_padded_shape(m as int, 2);
    reveal_with_fuel(decimal_digits, 3);
    reveal_with_fuel(digits_value, 3);
    let t = m / 10;
    let u = m % 10;
    if m < 10 {
        assert(decimal_digits(m as nat) =~= seq![crate::text::digit_char(m as int)]);
        assert(s =~= seq!['0', crate::text::digit_char(m as int)]);
    } else {
        assert(decimal_digits(m as nat) =~= seq![
            crate::text::digit_char(t as int),
            crate::text::digit_char(u as int),
        ]);
        assert(s =~= seq![crate::text::digit_char(t as int), crate::text::digit_char(u as int)]);
    }
    assert(s.len() == 2);
    assert(is_digit(s[0]) && is_digit(s[1]));
    assert(s.drop_last().drop_last() =~= Seq::<char>::empty());
    assert(s.drop_last() =~= seq![s[0]]);
    assert(crate::text::all_digits(s));
}

/// A trend bucket's label reads its key back: the month's name and the year
/// for a month key (of a year from 0 on), "W" with the week and the ISO year
/// for a week key.
pub proof fn law_bucket_label_reads_key(day: CalendarDay, mode: StatsTimeMode)
    requires
        well_formed_day(day),
        mode == StatsTimeMode::Month ==> day.date.year >= 0,
    ensures
        mode == StatsTimeMode::Month ==> pretty_bucket_label_spec(bucket_key_spec(day, mode), mode)
            == month_label_spec(day.date.month) + " "@ + zero_padded(day.date.year as int, 4),
        mode == StatsTimeMode::Week ==> pretty_bucket_label_spec(bucket_key_spec(day, mode), mode)
            == "W"@ + zero_padded(day.iso_week as int, 2) + " "@ + zero_padded(day.iso_year as int, 4),
{
    reveal_strlit("-");
    reveal_strlit("-W");
    let key = bucket_key_spec(day, mode);
    match mode {
        StatsTimeMode::Month => {
            let y = zero_padded(day.date.year as int, 4);
            let m = zero_padded(day.date.month as int, 2);
            lemma_zero_padded_shape(day.date.year as int, 4);
            lemma_two_digits_parse(day.date.month);
            let p = y.len() as int;
            assert(key =~= y + "-"@ + m);
            assert(key.subrange(p, p + 1) =~= "-"@);
            assert forall|j: int| 0 <= j < p implies !occurs_at(key, "-"@, j) by {
                assert(key[j] == y[j]);
                assert(is_digit(y[j]));
                assert(key.subrange(j, j + 1)[0] == key[j]);
            }
            lemma_first_occurrence_at(key, "-"@, p);
            assert(key.skip(p + 1) =~= m);
            assert(key.take(p) =~= y);
        },
        StatsTimeMode::Week => {
            let y = zero_padded(day.iso_year as int, 4);
            let w = zero_padded(day.iso_week as int, 2);
            lemma_zero_padded_shape(day.iso_year as int, 4);
            let p = y.len() as int;
            assert(key =~= y + "-W"@ + w);
            assert(key.subrange(p, p + 2) =~= "-W"@);
            assert forall|j: int| 0 <= j < p implies !occurs_at(key, "-W"@, j) by {
                if j + 1 < p {
                    assert(key[j + 1] == y[j + 1]);
                    assert(is_digit(y[j + 1]));
                } else {
                    assert(key[j + 1] == '-');
                }
                assert(key.subrange(j, j + 2)[1] == key[j + 1]);
            }
            lemma_first_occurrence_at(key, "-W"@, p);
            assert(key.skip(p + 2) =~= w);
            assert(key.take(p) =~= y);
        },
    }
}


// ---------------------------------------------------------------------------
// Grouping by label, in the order of `str` (as a `BTreeMap<String, _>` keeps
// its keys)
// ---------------------------------------------------------------------------

/// `a` sorts before `b` in the order of `str`: lexicographic by code point
/// (UTF-8 keeps that order byte for byte).
pub open spec fn text_less(a: Seq<char>, b: Seq<char>) -> bool
    decreases a.len(),
{
    if a.len() == 0 {
        b.len() > 0
    } else if b.len() == 0 {
        false
    } else if a[0] != b[0] {
        a[0] < b[0]
    } else {
        text_less(a.drop_first(), b.drop_first())
    }
}

proof fn lemma_text_less_total(a: Seq<char>, b: Seq<char>)
    ensures
        text_less(a, b) || text_less(b, a) || a == b,
    decreases a.len(),
{
    if a.len() > 0 && b.len() > 0 && a[0] == b[0] {
        lemma_text_less_total(a.drop_first(), b.drop_first());
        if a.drop_first() == b.drop_first() {
            assert(a =~= seq![a[0]] + a.drop_first());
            assert(b =~= seq![b[0]] + b.drop_first());
        }
    } else if a.len() == 0 && b.len() == 0 {
        assert(a =~= b);
    }
}

proof fn lemma_text_less_transitive(a: Seq<char>, b: Seq<char>, c: Seq<char>)
    requires
        text_less(a, b),
        text_less(b, c),
    ensures
        text_less(a, c),
    decreases a.len(),
{
    if a.len() > 0 && b.len() > 0 && c.len() > 0 && a[0] == b[0] && b[0] == c[0] {
        lemma_text_less_transitive(a.drop_first(), b.drop_first(), c.drop_first());
    }
}

/// Whether `a` sorts before `b` in the order of `str`.
pub fn is_text_less(a: &[char], b: &[char]) -> (r: bool)
    ensures
        r == text_less(a@, b@),
{
    let mut i: usize = 0;
    let n = a.len();
    let m = b.len();
    assert(a@.skip(0) =~= a@ && b@.skip(0) =~= b@);
    while i < n && i < m
        invariant
            i <= n == a@.len(),
            i <= m == b@.len(),
            text_less(a@, b@) == text_less(a@.skip(i as int), b@.skip(i as int)),
        decreases n - i,
    {
        proof {
            assert(a@.skip(i as int)[0] == a@[i as int]);
            assert(b@.skip(i as int)[0] == b@[i as int]);
            assert(a@.skip(i as int).drop_first() =~= a@.skip(i + 1));
            assert(b@.skip(i as int).drop_first() =~= b@.skip(i + 1));
        }
        if a[i] != b[i] {
            return a[i] < b[i];
        }
        i += 1;
    }
    proof {
        if i == n {
            assert(a@.skip(i as int).len() == 0);
        } else {
            assert(b@.skip(i as int).len() == 0);
        }
    }
    i == n && i < m
}

/// A group: a label and the positions that carry it, in order.
pub struct Group {
    pub label: String,
    pub members: Vec<usize>,
}

pub struct GroupModel {
    pub label: Seq<char>,
    pub members: Seq<usize>,
}

impl View for Group {
    type V = GroupModel;

    open spec fn view(&self) -> GroupModel {
        GroupModel { label: self.label@, members: self.members@ }
    }
}

/// The groups of some labelled positions (`None`: left out), as a
/// `BTreeMap` from label to positions holds them: labels strictly ascending
/// in the order of `str`, each group's positions ascending and carrying its
/// label, and every labelled position in the group of its label.
pub open spec fn groups_of(groups: Seq<GroupModel>, labels: Seq<Option<Seq<char>>>) -> bool {
    &&& forall|i: int, j: int|
        0 <= i < j < groups.len() ==> text_less(#[trigger] groups[i].label, #[trigger] groups[j].label)
    &&& forall|g: int, i: int, j: int|
        0 <= g < groups.len() && 0 <= i < j < groups[g].members.len() ==> #[trigger] groups[g].members[i]
            < #[trigger] groups[g].members[j]
    &&& forall|g: int, i: int|
        0 <= g < groups.len() && 0 <= i < groups[g].members.len() ==> {
            let p = #[trigger] groups[g].members[i];
            &&& p < labels.len()
            &&& labels[p as int] == Some(groups[g].label)
        }
    &&& forall|p: int|
        0 <= p < labels.len() && (#[trigger] labels[p]) is Some ==> exists|g: int|
            0 <= g < groups.len() && groups[g].label == labels[p]->0 && #[trigger] groups[g].members.contains(
                p as usize,
            )
    &&& forall|g: int| 0 <= g < groups.len() ==> (#[trigger] groups[g]).members.len() > 0
}

pub open spec fn labels_view(labels: Seq<Option<String>>) -> Seq<Option<Seq<char>>> {
    labels.map_values(|l: Option<String>| match l {
        Some(s) => Some(s@),
        None => None,
    })
}

/// The position at which a label belongs among the groups: the first group
/// whose label does not sort before it.
fn group_slot(groups: &Vec<Group>, label: &[char]) -> (r: usize)
    ensures
        r <= groups@.len(),
        forall|i: int| 0 <= i < r ==> text_less(#[trigger] groups@[i].label@, label@),
        r < groups@.len() ==> !text_less(groups@[r as int].label@, label@),
{
    let mut i: usize = 0;
    while i < groups.len()
        invariant
            i <= groups@.len(),
            forall|k: int| 0 <= k < i ==> text_less(#[trigger] groups@[k].label@, label@),
        decreases groups@.len() - i,
    {
        let g = chars_of(groups[i].label.as_str());
        if !is_text_less(g.as_slice(), label) {
            return i;
        }
        i += 1;
    }
    i
}

/// Group labelled positions by label, as a `BTreeMap<String, Vec<usize>>`
/// filled in position order would. The groups are kept in a vector sorted by
/// label, because vstd gives `BTreeMap` a contract only for keys whose
/// ordering it knows, and `String` is not among them.
pub fn group_labels(labels: &Vec<Option<String>>) -> (r: Vec<Group>)
    ensures
        groups_of(r@.map_values(|g: Group| g@), labels_view(labels@)),
{
    let ghost lv = labels_view(labels@);
    let mut groups: Vec<Group> = Vec::new();
    let mut p: usize = 0;
    while p < labels.len()
        invariant
            p <= labels@.len() == lv.len(),
            lv == labels_view(labels@),
            forall|i: int, j: int|
                0 <= i < j < groups@.len() ==> text_less(#[trigger] groups@[i].label@, #[trigger] groups@[j].label@),
            forall|g: int, i: int, j: int|
                0 <= g < groups@.len() && 0 <= i < j < groups@[g].members@.len() ==> #[trigger] groups@[g].members@[i]
                    < #[trigger] groups@[g].members@[j],
            forall|g: int, i: int|
                0 <= g < groups@.len() && 0 <= i < groups@[g].members@.len() ==> #[trigger] groups@[g].members@[i] < p
                    && lv[groups@[g].members@[i] as int] == Some(groups@[g].label@),
            forall|q: int|
                0 <= q < p && (#[trigger] lv[q]) is Some ==> exists|g: int|
                    0 <= g < groups@.len() && groups@[g].label@ == lv[q]->0
                        && #[trigger] groups@[g].members@.contains(q as usize),
            forall|g: int| 0 <= g < groups@.len() ==> (#[trigger] groups@[g]).members@.len() > 0,
        decreases labels@.len() - p,
    {
        proof {
            assert(lv[p as int] == match labels@[p as int] {
                Some(s) => Some(s@),
                None => None,
            });
        }
        match &labels[p] {
            None => {},
            Some(label) => {
                let l = chars_of(label.as_str());
                let q = group_slot(&groups, l.as_slice());
                let ghost before = groups@;
                let same = if q < groups.len() {
                    let g = chars_of(groups[q].label.as_str());
                    proof {
                        lemma_text_less_total(g@, l@);
                    }
                    !is_text_less(l.as_slice(), g.as_slice())
                } else {
                    false
                };
                if same {
                    let mut group = groups.remove(q);
                    let ghost old_members = group.members@;
                    group.members.push(p);
                    groups.insert(q, group);
                    proof {
                        assert(groups@ == before.update(q as int, groups@[q as int]));
                        assert(groups@[q as int].label@ == before[q as int].label@);
                        assert(groups@[q as int].members@ == old_members.push(p));
                        assert forall|g: int, i: int|
                            0 <= g < groups@.len() && 0 <= i < groups@[g].members@.len() implies #[trigger] groups@[g].members@[i]
                                < p + 1 && lv[groups@[g].members@[i] as int] == Some(groups@[g].label@) by {
                            if g == q && i == old_members.len() {
                            } else if g == q {
                                assert(groups@[g].members@[i] == before[g].members@[i]);
                            } else {
                                assert(groups@[g] == before[g]);
                            }
                        }
                        assert forall|g: int, i: int, j: int|
                            0 <= g < groups@.len() && 0 <= i < j < groups@[g].members@.len() implies #[trigger] groups@[g].members@[i]
                                < #[trigger] groups@[g].members@[j] by {
                            if g == q {
                                assert(groups@[g].members@[i] == before[g].members@[i]);
                                if j < old_members.len() {
                                    assert(groups@[g].members@[j] == before[g].members@[j]);
                                }
                            } else {
                                assert(groups@[g] == before[g]);
                            }
                        }
                        assert forall|r: int|
                            0 <= r < p + 1 && (#[trigger] lv[r]) is Some implies exists|g: int|
                                0 <= g < groups@.len() && groups@[g].label@ == lv[r]->0
                                    && #[trigger] groups@[g].members@.contains(r as usize) by {
                            if r == p {
                                assert(groups@[q as int].members@[old_members.len() as int] == p);
                                assert(groups@[q as int].members@.contains(p));
                            } else {
                                let g = choose|g: int|
                                    0 <= g < before.len() && before[g].label@ == lv[r]->0
                                        && #[trigger] before[g].members@.contains(r as usize);
                                if g == q {
                                    let k = choose|k: int| 0 <= k < old_members.len() && old_members[k] == r as usize;
                                    assert(groups@[g].members@[k] == r as usize);
                                    assert(groups@[g].members@.contains(r as usize));
                                } else {
                                    assert(groups@[g] == before[g]);
                                }
                            }
                        }
                        assert forall|i: int, j: int|
                            0 <= i < j < groups@.len() implies text_less(#[trigger] groups@[i].label@, #[trigger] groups@[j].label@) by {
                            assert(groups@[i].label@ == before[i].label@);
                            assert(groups@[j].label@ == before[j].label@);
                        }
                        assert forall|g: int| 0 <= g < groups@.len() implies (#[trigger] groups@[g]).members@.len() > 0 by {
                            if g != q {
                                assert(groups@[g] == before[g]);
                            }
                        }
                    }
                } else {
                    let mut members: Vec<usize> = Vec::new();
                    members.push(p);
                    let label_copy = string_of(l.as_slice());
                    groups.insert(q, Group { label: label_copy, members });
                    proof {
                        assert(groups@ == before.insert(q as int, groups@[q as int]));
                        assert(groups@[q as int].label@ == l@);
                        assert(l@ == label@);
                        if q < before.len() {
                            assert(!text_less(before[q as int].label@, l@));
                            assert(before[q as int].label@ != l@);
                            lemma_text_less_total(before[q as int].label@, l@);
                            assert(text_less(l@, before[q as int].label@));
                        }
                        assert forall|i: int, j: int|
                            0 <= i < j < groups@.len() implies text_less(#[trigger] groups@[i].label@, #[trigger] groups@[j].label@) by {
                            if j < q {
                                assert(groups@[i] == before[i] && groups@[j] == before[j]);
                            } else if j == q {
                                assert(groups@[i] == before[i]);
                            } else if i < q {
                                assert(groups@[i] == before[i] && groups@[j] == before[j - 1]);
                                lemma_text_less_transitive(before[i].label@, l@, before[q as int].label@);
                                if j - 1 > q {
                                    lemma_text_less_transitive(before[i].label@, before[q as int].label@, before[j - 1].label@);
                                }
                            } else if i == q {
                                assert(groups@[j] == before[j - 1]);
                                if j - 1 > q {
                                    lemma_text_less_transitive(l@, before[q as int].label@, before[j - 1].label@);
                                }
                            } else {
                                assert(groups@[i] == before[i - 1] && groups@[j] == before[j - 1]);
                            }
                        }
                        assert forall|g: int, i: int|
                            0 <= g < groups@.len() && 0 <= i < groups@[g].members@.len() implies #[trigger] groups@[g].members@[i]
                                < p + 1 && lv[groups@[g].members@[i] as int] == Some(groups@[g].label@) by {
                            if g < q {
                                assert(groups@[g] == before[g]);
                            } else if g > q {
                                assert(groups@[g] == before[g - 1]);
                            }
                        }
                        assert forall|g: int, i: int, j: int|
                            0 <= g < groups@.len() && 0 <= i < j < groups@[g].members@.len() implies #[trigger] groups@[g].members@[i]
                                < #[trigger] groups@[g].members@[j] by {
                            if g < q {
                                assert(groups@[g] == before[g]);
                            } else if g > q {
                                assert(groups@[g] == before[g - 1]);
                            }
                        }
                        assert forall|r: int|
                            0 <= r < p + 1 && (#[trigger] lv[r]) is Some implies exists|g: int|
                                0 <= g < groups@.len() && groups@[g].label@ == lv[r]->0
                                    && #[trigger] groups@[g].members@.contains(r as usize) by {
                            if r == p {
                                assert(lv[p as int] == Some(label@));
                                assert(groups@[q as int].label@ == label@);
                                assert(groups@[q as int].members@[0] == p);
                                assert(groups@[q as int].members@.contains(p));
                                assert(groups@[q as int].label@ == lv[r]->0);
                                assert(groups@[q as int].members@.contains(r as usize));
                            } else {
                                let g = choose|g: int|
                                    0 <= g < before.len() && before[g].label@ == lv[r]->0
                                        && #[trigger] before[g].members@.contains(r as usize);
                                if g < q {
                                    assert(groups@[g] == before[g]);
                                    assert(groups@[g].members@.contains(r as usize));
                                    assert(groups@[g].label@ == lv[r]->0);
                                } else {
                                    assert(groups@[g + 1] == before[g]);
                                    assert(groups@[g + 1].members@.contains(r as usize));
                                    assert(groups@[g + 1].label@ == lv[r]->0);
                                }
                            }
                        }
                        assert forall|g: int| 0 <= g < groups@.len() implies (#[trigger] groups@[g]).members@.len() > 0 by {
                            if g < q {
                                assert(groups@[g] == before[g]);
                            } else if g > q {
                                assert(groups@[g] == before[g - 1]);
                            }
                        }
                    }
                }
            },
        }
        p += 1;
    }
    proof {
        let gm = groups@.map_values(|g: Group| g@);
        assert forall|i: int, j: int|
            0 <= i < j < gm.len() implies text_less(#[trigger] gm[i].label, #[trigger] gm[j].label) by {
            assert(gm[i] == groups@[i]@ && gm[j] == groups@[j]@);
        }
        assert forall|g: int, i: int, j: int|
            0 <= g < gm.len() && 0 <= i < j < gm[g].members.len() implies #[trigger] gm[g].members[i]
                < #[trigger] gm[g].members[j] by {
            assert(gm[g] == groups@[g]@);
        }
        assert forall|g: int, i: int|
            0 <= g < gm.len() && 0 <= i < gm[g].members.len() implies {
                let q = #[trigger] gm[g].members[i];
                &&& q < lv.len()
                &&& lv[q as int] == Some(gm[g].label)
            } by {
            assert(gm[g] == groups@[g]@);
            assert(groups@[g].members@[i] < p);
        }
        assert forall|q: int|
            0 <= q < lv.len() && (#[trigger] lv[q]) is Some implies exists|g: int|
                0 <= g < gm.len() && gm[g].label == lv[q]->0 && #[trigger] gm[g].members.contains(q as usize) by {
            let g = choose|g: int|
                0 <= g < groups@.len() && groups@[g].label@ == lv[q]->0
                    && #[trigger] groups@[g].members@.contains(q as usize);
            assert(gm[g] == groups@[g]@);
            assert(gm[g].members.contains(q as usize));
        }
        assert forall|g: int| 0 <= g < gm.len() implies (#[trigger] gm[g]).members.len() > 0 by {
            assert(gm[g] == groups@[g]@);
        }
    }
    groups
}


/// The label of each transaction in a monthly summary: its account's label
/// when it falls in the summary's days, none otherwise.
pub open spec fn summary_labels(
    accounts: Seq<AccountModel>,
    txs: Seq<TransactionModel>,
    range: (CivilDate, CivilDate),
) -> Seq<Option<Seq<char>>> {
    Seq::new(
        txs.len(),
        |k: int|
            if in_range(txs[k], range) {
                Some(account_label_spec(accounts, txs[k].account_id))
            } else {
                None
            },
    )
}

/// The summary of a month whose first day and the first day of the next
/// month both exist covers that whole month.
proof fn lemma_month_range_whole(year: i32, month: u32)
    requires
        valid_ymd(year as int, month as int, 1),
        month < 12 || year < 262142,
    ensures
        month_range_spec(year, month) == whole_month(year, month),
{
}

/// A transaction is in the monthly summary of a month exactly when its UTC
/// calendar date lies in that month, its first and last day included; it is
/// then listed under the label of its account, and otherwise under none.
pub proof fn law_monthly_summary_month(
    accounts: Seq<AccountModel>,
    txs: Seq<TransactionModel>,
    year: i32,
    month: u32,
    k: int,
)
    requires
        valid_ymd(year as int, month as int, 1),
        month < 12 || year < 262142,
        0 <= k < txs.len(),
        in_chrono_range(txs[k].created_at.secs, txs[k].created_at.nanos) ==> valid_date(
            utc_calendar_day(txs[k].created_at.secs, txs[k].created_at.nanos).date,
        ),
    ensures
        summary_labels(accounts, txs, month_range_spec(year, month)).len() == txs.len(),
        summary_labels(accounts, txs, month_range_spec(year, month))[k] == if in_chrono_range(
            txs[k].created_at.secs,
            txs[k].created_at.nanos,
        ) && utc_calendar_day(txs[k].created_at.secs, txs[k].created_at.nanos).date.year == year
            && utc_calendar_day(txs[k].created_at.secs, txs[k].created_at.nanos).date.month == month {
            Some(account_label_spec(accounts, txs[k].account_id))
        } else {
            None
        },
{
    lemma_month_range_whole(year, month);
}

/// The label of an account id: "icon name" of the first account with that
/// id, or "Unknown" when no account has it.
pub proof fn law_account_label(accounts: Seq<AccountModel>, id: u128)
    ensures
        forall|i: int|
            0 <= i < accounts.len() && #[trigger] accounts[i].id == id && (forall|j: int|
                0 <= j < i ==> (#[trigger] accounts[j]).id != id) ==> account_label_spec(accounts, id)
                == accounts[i].icon + " "@ + accounts[i].name,
        (forall|i: int| 0 <= i < accounts.len() ==> (#[trigger] accounts[i]).id != id) ==> account_label_spec(
            accounts,
            id,
        ) == "Unknown"@,
    decreases accounts.len(),
{
    if accounts.len() > 0 {
        let rest = accounts.drop_first();
        law_account_label(rest, id);
        assert forall|i: int|
            0 <= i < accounts.len() && #[trigger] accounts[i].id == id && (forall|j: int|
                0 <= j < i ==> (#[trigger] accounts[j]).id != id) implies account_label_spec(accounts, id)
                == accounts[i].icon + " "@ + accounts[i].name by {
            if i > 0 {
                assert(accounts[0].id != id);
                assert(rest[i - 1] == accounts[i]);
                assert forall|j: int| 0 <= j < i - 1 implies (#[trigger] rest[j]).id != id by {
                    assert(rest[j] == accounts[j + 1]);
                }
            }
        }
        if forall|i: int| 0 <= i < accounts.len() ==> (#[trigger] accounts[i]).id != id {
            assert(accounts[0].id != id);
            assert forall|i: int| 0 <= i < rest.len() implies (#[trigger] rest[i]).id != id by {
                assert(rest[i] == accounts[i + 1]);
            }
        }
    }
}

/// The trend bucket of each transaction (none for an instant `chrono`
/// cannot hold).
pub open spec fn trend_labels(txs: Seq<TransactionModel>, mode: StatsTimeMode) -> Seq<Option<Seq<char>>> {
    Seq::new(
        txs.len(),
        |k: int|
            if in_chrono_range(txs[k].created_at.secs, txs[k].created_at.nanos) {
                Some(
                    bucket_key_spec(
                        utc_calendar_day(txs[k].created_at.secs, txs[k].created_at.nanos),
                        mode,
                    ),
                )
            } else {
                None
            },
    )
}

/// The monthly summary's rows: the transactions of the month grouped by
/// account label, labels in order (the caller sums each group's amounts).
pub fn monthly_summary_groups(
    accounts: &Vec<Account>,
    txs: &Vec<Transaction>,
    year: i32,
    month: u32,
) -> (r: Vec<Group>)
    requires
        month == 12 ==> year < i32::MAX,
        month < u32::MAX,
    ensures
        groups_of(
            r@.map_values(|g: Group| g@),
            summary_labels(
                accounts@.map_values(|a: Account| a@),
                txs@.map_values(|t: Transaction| t@),
                month_range_spec(year, month),
            ),
        ),
{
    let range = month_range(year, month);
    let ghost want = summary_labels(
        accounts@.map_values(|a: Account| a@),
        txs@.map_values(|t: Transaction| t@),
        range,
    );
    let mut labels: Vec<Option<String>> = Vec::new();
    let mut k: usize = 0;
    while k < txs.len()
        invariant
            k <= txs@.len(),
            range == month_range_spec(year, month),
            want == summary_labels(
                accounts@.map_values(|a: Account| a@),
                txs@.map_values(|t: Transaction| t@),
                range,
            ),
            labels@.len() == k,
            forall|j: int| 0 <= j < k ==> #[trigger] labels_view(labels@)[j] == want[j],
        decreases txs@.len() - k,
    {
        let t = &txs[k];
        let ghost tm = txs@.map_values(|t: Transaction| t@)[k as int];
        assert(tm == t@);
        let label = match calendar_day_of(t.created_at) {
            Some(c) => {
                if is_date_le(range.0, c.date) && is_date_le(c.date, range.1) {
                    Some(account_label(accounts, t.account_id))
                } else {
                    None
                }
            },
            None => None,
        };
        let ghost before = labels@;
        labels.push(label);
        proof {
            assert forall|j: int| 0 <= j < k + 1 implies #[trigger] labels_view(labels@)[j] == want[j] by {
                if j < k {
                    assert(labels@[j] == before[j]);
                    assert(labels_view(before)[j] == want[j]);
                }
            }
        }
        k += 1;
    }
    proof {
        assert(labels_view(labels@) =~= want);
    }
    group_labels(&labels)
}

/// The trend chart's bars: the transactions grouped by month or ISO-week
/// key, keys in order (the caller sums each group's amounts).
pub fn trend_groups(txs: &Vec<Transaction>, mode: StatsTimeMode) -> (r: Vec<Group>)
    ensures
        groups_of(r@.map_values(|g: Group| g@), trend_labels(txs@.map_values(|t: Transaction| t@), mode)),
{
    let ghost want = trend_labels(txs@.map_values(|t: Transaction| t@), mode);
    let mut labels: Vec<Option<String>> = Vec::new();
    let mut k: usize = 0;
    while k < txs.len()
        invariant
            k <= txs@.len(),
            want == trend_labels(txs@.map_values(|t: Transaction| t@), mode),
            labels@.len() == k,
            forall|j: int| 0 <= j < k ==> #[trigger] labels_view(labels@)[j] == want[j],
        decreases txs@.len() - k,
    {
        let t = &txs[k];
        let ghost tm = txs@.map_values(|t: Transaction| t@)[k as int];
        assert(tm == t@);
        let label = match calendar_day_of(t.created_at) {
            Some(c) => Some(bucket_key(c, mode)),
            None => None,
        };
        let ghost before = labels@;
        labels.push(label);
        proof {
            assert forall|j: int| 0 <= j < k + 1 implies #[trigger] labels_view(labels@)[j] == want[j] by {
                if j < k {
                    assert(labels@[j] == before[j]);
                    assert(labels_view(before)[j] == want[j]);
                }
            }
        }
        k += 1;
    }
    proof {
        assert(labels_view(labels@) =~= want);
    }
    group_labels(&labels)
}

} // verus!
