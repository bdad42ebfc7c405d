use personars::clock::UtcTime;
use personars::tools::finance_tracker::{Account, FinanceTracker, TimeRange, Transaction, TransactionType};

fn tx(id: u128, account_id: u128, secs: i64) -> Transaction {
    Transaction {
        id,
        transaction_type: TransactionType::Receive,
        amount_bits: 10.0f64.to_bits(),
        description: format!("t{id}"),
        account_id,
        created_at: UtcTime { secs, nanos: 0 },
    }
}

fn tracker() -> FinanceTracker {
    let accounts = vec![
        Account { id: 1, name: "Cash".to_owned(), icon: "💵".to_owned() },
        Account { id: 2, name: "Bank".to_owned(), icon: "🏦".to_owned() },
    ];
    let txs = vec![tx(10, 1, 100), tx(11, 2, 300), tx(12, 1, 200), tx(13, 2, 200)];
    FinanceTracker::with_data(accounts, txs)
}

#[test]
fn history_is_newest_first() {
    let t = tracker();
    assert_eq!(t.history_order(), vec![1, 2, 3, 0]);
}

#[test]
fn history_under_a_filter() {
    let mut t = tracker();
    t.set_filter_account_idx(Some(0));
    assert_eq!(t.filter_account_id(), Some(1));
    assert_eq!(t.history_order(), vec![2, 0]);
    t.set_filter_account_idx(Some(9));
    assert_eq!(t.filter_account_id(), None);
    assert_eq!(t.history_order().len(), 4);
}

#[test]
fn deleting_an_account_deletes_its_transactions() {
    let mut t = tracker();
    t.delete_account(0);
    assert_eq!(t.accounts().len(), 1);
    let ids: Vec<u128> = t.transactions().iter().map(|x| x.id).collect();
    assert_eq!(ids, vec![11, 13]);
    assert!(t.input_account_idx() < t.accounts().len());
}

#[test]
fn adding_transactions_and_accounts() {
    let mut t = tracker();
    t.set_input_account_idx(1);
    t.set_input_description("salary");
    t.set_input_amount("12.5");
    assert!(t.add_transaction_with(Some(12.5f64.to_bits()), 99, UtcTime { secs: 500, nanos: 0 }));
    let last = t.transactions().last().unwrap();
    assert_eq!(last.account_id, 2);
    assert_eq!(f64::from_bits(last.amount_bits), 12.5);
    assert_eq!(t.input_amount(), "");
    assert!(!t.add_transaction_with(None, 100, UtcTime { secs: 600, nanos: 0 }));
    t.set_new_account_name("  Savings ");
    t.set_new_account_icon("  ");
    assert!(t.add_account_with(7));
    let acc = t.accounts().last().unwrap();
    assert_eq!(acc.name, "Savings");
    assert_eq!(acc.icon, "💰");
    t.set_new_account_name("   ");
    assert!(!t.add_account_with(8));
}

#[test]
fn chosen_creation_time() {
    let mut t = tracker();
    t.set_input_account_idx(0);
    let when = UtcTime { secs: 1_600_000_000, nanos: 0 };
    assert!(t.try_add_transaction_at(Some(3.0f64.to_bits()), when));
    assert_eq!(t.transactions().last().unwrap().created_at, when);
    assert_eq!(t.transactions().last().unwrap().account_id, 1);
    assert!(!t.try_add_transaction_at(None, when));
}

#[test]
fn time_range_and_day_groups() {
    let accounts = vec![Account { id: 1, name: "Cash".to_owned(), icon: "💵".to_owned() }];
    // two on 2023-11-14, one on 2023-11-15, one long before
    let txs = vec![
        tx(1, 1, 1_699_950_000),
        tx(2, 1, 1_700_000_000),
        tx(3, 1, 1_700_050_000),
        tx(4, 1, 100),
    ];
    let t = FinanceTracker::with_data(accounts, txs);
    assert_eq!(t.history_in_range(TimeRange::all()), vec![2, 1, 0, 3]);
    let range = TimeRange::last_days(UtcTime { secs: 1_700_086_400, nanos: 0 }, 7);
    assert_eq!(range.from, Some(UtcTime { secs: 1_700_086_400 - 7 * 86400, nanos: 0 }));
    let order = t.history_in_range(range);
    assert_eq!(order, vec![2, 1, 0]);
    let groups: Vec<(u32, Vec<usize>)> =
        t.day_groups(&order).into_iter().map(|g| (g.date.unwrap().day, g.members)).collect();
    assert_eq!(groups, vec![(15, vec![2]), (14, vec![1, 0])]);
    let until = TimeRange { from: None, until: Some(UtcTime { secs: 1_700_000_000, nanos: 0 }) };
    assert_eq!(t.history_in_range(until), vec![0, 3]);
}

#[test]
fn one_heading_per_day() {
    let accounts = vec![Account { id: 1, name: "Cash".to_owned(), icon: "💵".to_owned() }];
    // recorded out of order: 1969-12-31 twice around 1970-01-01, and 1970-01-02
    let txs = vec![
        tx(1, 1, -1),
        tx(2, 1, 0),
        tx(3, 1, -86_400),
        tx(4, 1, 86_400),
        tx(5, 1, 86_399),
    ];
    let t = FinanceTracker::with_data(accounts, txs);
    let order = t.history_in_range(TimeRange::all());
    assert_eq!(order, vec![3, 4, 1, 0, 2]);
    let groups: Vec<((i32, u32, u32), Vec<usize>)> = t
        .day_groups(&order)
        .into_iter()
        .map(|g| {
            let d = g.date.unwrap();
            ((d.year, d.month, d.day), g.members)
        })
        .collect();
    assert_eq!(
        groups,
        vec![((1970, 1, 2), vec![3]), ((1970, 1, 1), vec![4, 1]), ((1969, 12, 31), vec![0, 2])]
    );
}
