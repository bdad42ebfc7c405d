use personars::clock::UtcTime;
use personars::tools::finance_stats::{group_labels, monthly_summary_groups, trend_groups};
use std::collections::BTreeMap;
use personars::tools::finance_stats::{
    account_label, bucket_key, month_label, month_range,
    next_month, pretty_bucket_label, previous_month, transactions_in_month, CalendarDay, CivilDate,
    StatsTimeMode,
};
use personars::tools::finance_tracker::{Account, Transaction, TransactionType};

fn date(year: i32, month: u32, day: u32) -> CivilDate {
    CivilDate { year, month, day }
}

#[test]
fn month_labels() {
    assert_eq!(month_label(1), "Jan");
    assert_eq!(month_label(12), "Dec");
    assert_eq!(month_label(0), "???");
    assert_eq!(month_label(13), "???");
}

#[test]
fn bucket_labels() {
    assert_eq!(pretty_bucket_label("2026-02", StatsTimeMode::Month), "Feb 2026");
    assert_eq!(pretty_bucket_label("2026-W08", StatsTimeMode::Week), "W08 2026");
    assert_eq!(pretty_bucket_label("2026-xx", StatsTimeMode::Month), "??? 2026");
    assert_eq!(pretty_bucket_label("nodash", StatsTimeMode::Month), "nodash");
    assert_eq!(pretty_bucket_label("2026-08", StatsTimeMode::Week), "2026-08");
}

#[test]
fn month_steps() {
    assert_eq!(previous_month(2026, 1), (2025, 12));
    assert_eq!(previous_month(2026, 5), (2026, 4));
    assert_eq!(next_month(2026, 12), (2027, 1));
    assert_eq!(next_month(2026, 5), (2026, 6));
}

#[test]
fn calendar_edges() {
    assert_eq!(month_range(2023, 2), (date(2023, 2, 1), date(2023, 2, 28)));
    assert_eq!(month_range(1900, 2), (date(1900, 2, 1), date(1900, 2, 28)));
    assert_eq!(month_range(2000, 2), (date(2000, 2, 1), date(2000, 2, 29)));
    assert_eq!(month_range(-4, 2), (date(-4, 2, 1), date(-4, 2, 29)));
    // out of range years fall back on the default day
    assert_eq!(month_range(400000, 1), (date(1970, 1, 1), date(1969, 12, 31)));
    assert_eq!(month_range(-262143, 1), (date(-262143, 1, 1), date(-262143, 1, 31)));
    // the day before the first date chrono holds does not exist
    assert_eq!(month_range(-262144, 12), (date(1970, 1, 1), date(1970, 1, 1)));
    assert_eq!(month_range(262142, 12), (date(262142, 12, 1), date(1969, 12, 31)));
}

#[test]
fn month_ranges() {
    assert_eq!(month_range(2024, 2), (date(2024, 2, 1), date(2024, 2, 29)));
    assert_eq!(month_range(2023, 12), (date(2023, 12, 1), date(2023, 12, 31)));
    assert_eq!(month_range(2023, 4), (date(2023, 4, 1), date(2023, 4, 30)));
    // an invalid month falls back on NaiveDate's default day
    assert_eq!(month_range(2023, 13), (date(1970, 1, 1), date(1969, 12, 31)));
}

#[test]
fn calendar_day_and_keys() {
    let day = CalendarDay { date: date(2023, 11, 14), iso_year: 2023, iso_week: 46 };
    assert_eq!(bucket_key(day, StatsTimeMode::Month), "2023-11");
    assert_eq!(bucket_key(day, StatsTimeMode::Week), "2023-W46");
    let tx = |secs: i64| Transaction {
        id: 1,
        transaction_type: TransactionType::Pay,
        amount_bits: 1.0f64.to_bits(),
        description: String::new(),
        account_id: 1,
        created_at: UtcTime { secs, nanos: 0 },
    };
    // 2023-11-14 is in ISO week 46; 2021-01-01 belongs to week 53 of 2020
    let txs = vec![tx(1_700_000_000), tx(i64::MAX), tx(1_609_459_200)];
    let weeks: Vec<(String, Vec<usize>)> =
        trend_groups(&txs, StatsTimeMode::Week).into_iter().map(|g| (g.label, g.members)).collect();
    assert_eq!(weeks, vec![("2020-W53".to_owned(), vec![2]), ("2023-W46".to_owned(), vec![0])]);
}

#[test]
fn bucket_key_reads_back() {
    let day = CalendarDay { date: date(7, 3, 9), iso_year: -5, iso_week: 2 };
    let month_key = bucket_key(day, StatsTimeMode::Month);
    assert_eq!(month_key, "0007-03");
    assert_eq!(pretty_bucket_label(&month_key, StatsTimeMode::Month), "Mar 0007");
    let week_key = bucket_key(day, StatsTimeMode::Week);
    assert_eq!(week_key, "-005-W02");
    assert_eq!(pretty_bucket_label(&week_key, StatsTimeMode::Week), "W02 -005");
}

#[test]
fn account_labels() {
    let accounts = vec![
        Account { id: 1, name: "Cash".to_owned(), icon: "💵".to_owned() },
        Account { id: 2, name: "Bank".to_owned(), icon: "🏦".to_owned() },
    ];
    assert_eq!(account_label(&accounts, 2), "🏦 Bank");
    assert_eq!(account_label(&accounts, 3), "Unknown");
}

#[test]
fn transactions_of_a_month() {
    let tx = |id: u128, secs: i64| Transaction {
        id,
        transaction_type: TransactionType::Pay,
        amount_bits: 1.5f64.to_bits(),
        description: String::new(),
        account_id: 1,
        created_at: UtcTime { secs, nanos: 0 },
    };
    // 2023-11-14, 2023-10-31 23:59:59, 2023-11-30 23:59:59, 2023-12-01
    let txs = vec![tx(1, 1_700_000_000), tx(2, 1_698_796_799), tx(3, 1_701_388_799), tx(4, 1_701_388_800)];
    assert_eq!(transactions_in_month(&txs, 2023, 11), vec![0, 2]);
    assert_eq!(transactions_in_month(&txs, 2023, 10), vec![1]);
}

#[test]
fn grouping_follows_btreemap() {
    let labels: Vec<Option<String>> = ["b", "a", "", "b", "ä", "a"]
        .iter()
        .enumerate()
        .map(|(i, s)| if i == 2 { None } else { Some(s.to_string()) })
        .collect();
    let groups = group_labels(&labels);
    let mut expected: BTreeMap<String, Vec<usize>> = BTreeMap::new();
    for (i, l) in labels.iter().enumerate() {
        if let Some(l) = l {
            expected.entry(l.clone()).or_default().push(i);
        }
    }
    let got: Vec<(String, Vec<usize>)> = groups.into_iter().map(|g| (g.label, g.members)).collect();
    let want: Vec<(String, Vec<usize>)> = expected.into_iter().collect();
    assert_eq!(got, want);
}

#[test]
fn monthly_and_trend_groups() {
    let accounts = vec![
        Account { id: 1, name: "Cash".to_owned(), icon: "💵".to_owned() },
        Account { id: 2, name: "Bank".to_owned(), icon: "🏦".to_owned() },
    ];
    let tx = |id: u128, account_id: u128, secs: i64| Transaction {
        id,
        transaction_type: TransactionType::Receive,
        amount_bits: 2.0f64.to_bits(),
        description: String::new(),
        account_id,
        created_at: UtcTime { secs, nanos: 0 },
    };
    let txs = vec![tx(1, 1, 1_700_000_000), tx(2, 2, 1_698_796_799), tx(3, 2, 1_701_388_799), tx(4, 9, 1_700_000_001)];
    let month: Vec<(String, Vec<usize>)> =
        monthly_summary_groups(&accounts, &txs, 2023, 11).into_iter().map(|g| (g.label, g.members)).collect();
    assert_eq!(
        month,
        vec![("Unknown".to_owned(), vec![3]), ("🏦 Bank".to_owned(), vec![2]), ("💵 Cash".to_owned(), vec![0])]
    );
    let trend: Vec<(String, Vec<usize>)> =
        trend_groups(&txs, StatsTimeMode::Month).into_iter().map(|g| (g.label, g.members)).collect();
    assert_eq!(trend, vec![("2023-10".to_owned(), vec![1]), ("2023-11".to_owned(), vec![0, 2, 3])]);
}

#[test]
fn label_fallbacks() {
    assert_eq!(pretty_bucket_label("2026-13", StatsTimeMode::Month), "??? 2026");
    assert_eq!(pretty_bucket_label("202613", StatsTimeMode::Month), "202613");
    assert_eq!(pretty_bucket_label("2026-08", StatsTimeMode::Week), "2026-08");
}
