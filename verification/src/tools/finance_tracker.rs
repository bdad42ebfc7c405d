//! Personal finance tracker: accounts, transactions, and the transaction
//! history as it is listed (filtered by account, newest first).
//!
//! Amounts are `f64` values; the tracker only stores and moves them, so it
//! holds each amount by its IEEE 754 bit pattern (`f64::to_bits`). Sums and
//! money formatting are the caller's.
use crate::clock::{earlier, is_earlier, utc_now, UtcTime};
use crate::text::{trim, trim_spec};
use crate::tools::epoch_converter::in_chrono_range;
use crate::tools::finance_stats::{
    calendar_day_of, date_le, day_number, lemma_day_number_injective, lemma_day_number_strict,
    utc_calendar_day, valid_date, CivilDate,
};
use crate::tools::uuid_generator::new_v4_id;
use vstd::prelude::*;

verus! {

/// Whether money came in or went out.
#[derive(PartialEq, Eq, Clone, Copy, Debug, Structural)]
pub enum TransactionType {
    Receive,
    Pay,
}

/// Which list the narrow layout shows.
#[derive(PartialEq, Eq, Clone, Copy, Debug, Structural)]
pub enum NarrowTab {
    Accounts,
    Transactions,
}

/// An account.
pub struct Account {
    pub id: u128,
    pub name: String,
    pub icon: String,
}

/// An account by its id, name and icon.
pub struct AccountModel {
    pub id: u128,
    pub name: Seq<char>,
    pub icon: Seq<char>,
}

impl View for Account {
    type V = AccountModel;

    open spec fn view(&self) -> AccountModel {
        AccountModel { id: self.id, name: self.name@, icon: self.icon@ }
    }
}

/// A transaction; `amount_bits` is the `f64` amount's bit pattern.
pub struct Transaction {
    pub id: u128,
    pub transaction_type: TransactionType,
    pub amount_bits: u64,
    pub description: String,
    pub account_id: u128,
    pub created_at: UtcTime,
}

pub struct TransactionModel {
    pub id: u128,
    pub transaction_type: TransactionType,
    pub amount_bits: u64,
    pub description: Seq<char>,
    pub account_id: u128,
    pub created_at: UtcTime,
}

impl View for Transaction {
    type V = TransactionModel;

    open spec fn view(&self) -> TransactionModel {
        TransactionModel {
            id: self.id,
            transaction_type: self.transaction_type,
            amount_bits: self.amount_bits,
            description: self.description@,
            account_id: self.account_id,
            created_at: self.created_at,
        }
    }
}

/// The finance tracker: accounts, transactions and the input state of its
/// forms.
pub struct FinanceTracker {
    accounts: Vec<Account>,
    transactions: Vec<Transaction>,
    input_type: TransactionType,
    input_amount: String,
    input_description: String,
    input_account_idx: usize,
    new_account_name: String,
    new_account_icon: String,
    narrow_tab: NarrowTab,
    filter_account_idx: Option<usize>,
}

/// Recording a transaction from the form, with the given amount, id and
/// time, took the tracker from `before` to `after` (`added` tells whether
/// it was recorded): what `add_transaction_with` states.
pub open spec fn transaction_recorded(
    before: FinanceTracker,
    after: FinanceTracker,
    amount_bits: Option<u64>,
    id: u128,
    now: UtcTime,
    added: bool,
) -> bool {
    &&& (added == (amount_bits is Some && before.input_account_idx_spec()
            < before.accounts_view().len()))
    &&& (added ==> after.transactions_view() == before.transactions_view().push(
            TransactionModel {
                id,
                transaction_type: before.input_type_spec(),
                amount_bits: amount_bits->0,
                description: before.input_description_spec(),
                account_id: before.accounts_view()[before.input_account_idx_spec() as int].id,
                created_at: now,
            }))
    &&& (added ==> after.input_amount_spec() == Seq::<char>::empty()
            && after.input_description_spec() == Seq::<char>::empty())
    &&& (!added ==> after == before)
    &&& (after.accounts_view() == before.accounts_view())
    &&& (after.input_type_spec() == before.input_type_spec())
    &&& (after.input_account_idx_spec() == before.input_account_idx_spec())
    &&& (after.new_account_name_spec() == before.new_account_name_spec())
    &&& (after.new_account_icon_spec() == before.new_account_icon_spec())
    &&& (after.filter_account_idx_spec() == before.filter_account_idx_spec())
    &&& (after.narrow_tab_spec() == before.narrow_tab_spec())
}

/// Adding the account typed in the form, with the given id, took the
/// tracker from `before` to `after`: what `add_account_with` states.
pub open spec fn account_recorded(before: FinanceTracker, after: FinanceTracker, id: u128, added: bool) -> bool {
    &&& (added == (trim_spec(before.new_account_name_spec()).len() > 0))
    &&& (added ==> after.accounts_view() == before.accounts_view().push(
                AccountModel {
                    id,
                    name: trim_spec(before.new_account_name_spec()),
                    icon: if trim_spec(before.new_account_icon_spec()).len() == 0 {
                        default_icon()
                    } else {
                        trim_spec(before.new_account_icon_spec())
                    },
                }))
    &&& (added ==> after.new_account_name_spec() == Seq::<char>::empty()
                && after.new_account_icon_spec() == default_icon())
    &&& (!added ==> after == before)
    &&& (after.transactions_view() == before.transactions_view())
    &&& (after.input_account_idx_spec() == before.input_account_idx_spec())
    &&& (after.filter_account_idx_spec() == before.filter_account_idx_spec())
}

/// A span of creation times that the history shows: from `from` on
/// (inclusive) and before `until` (exclusive); `None` leaves a side open.
#[derive(PartialEq, Eq, Clone, Copy, Debug, Structural)]
pub struct TimeRange {
    pub from: Option<UtcTime>,
    pub until: Option<UtcTime>,
}

/// An instant lies in a time range.
pub open spec fn in_time_range(t: UtcTime, range: TimeRange) -> bool {
    &&& match range.from {
        Some(f) => !earlier(t, f),
        None => true,
    }
    &&& match range.until {
        Some(u) => earlier(t, u),
        None => true,
    }
}

pub fn is_in_time_range(t: UtcTime, range: TimeRange) -> (r: bool)
    ensures
        r == in_time_range(t, range),
{
    let after_from = match range.from {
        Some(f) => !is_earlier(t, f),
        None => true,
    };
    let before_until = match range.until {
        Some(u) => is_earlier(t, u),
        None => true,
    };
    after_from && before_until
}

impl TimeRange {
    /// Every instant.
    pub fn all() -> (r: Self)
        ensures
            r.from is None && r.until is None,
    {
        TimeRange { from: None, until: None }
    }

    /// The last `days` days up to `now`: from `days * 86400` seconds before
    /// `now` on, open at the end; open at both ends where that start is
    /// before the first second an `i64` counts.
    pub fn last_days(now: UtcTime, days: u32) -> (r: Self)
        ensures
            r.until is None,
            now.secs - days * 86400 >= i64::MIN ==> r.from == Some(
                UtcTime { secs: (now.secs - days * 86400) as i64, nanos: now.nanos },
            ),
            now.secs - days * 86400 < i64::MIN ==> r.from is None,
    {
        let span: i64 = days as i64 * 86400;
        match now.secs.checked_sub(span) {
            Some(start) => TimeRange { from: Some(UtcTime { secs: start, nanos: now.nanos }), until: None },
            None => TimeRange { from: None, until: None },
        }
    }
}

/// The positions of `order` whose transactions lie in the range, in order.
pub open spec fn in_range_positions(txs: Seq<TransactionModel>, order: Seq<usize>, range: TimeRange) -> Seq<usize> {
    order.filter(|k: usize| in_time_range(txs[k as int].created_at, range))
}

/// The UTC calendar date of a transaction (`None` where `chrono` holds no
/// date for its instant).
pub open spec fn day_of(t: TransactionModel) -> Option<CivilDate> {
    if in_chrono_range(t.created_at.secs, t.created_at.nanos) {
        Some(utc_calendar_day(t.created_at.secs, t.created_at.nanos).date)
    } else {
        None
    }
}

/// A run of history rows that share a calendar day.
pub struct DayGroup {
    pub date: Option<CivilDate>,
    pub members: Vec<usize>,
}

pub struct DayGroupModel {
    pub date: Option<CivilDate>,
    pub members: Seq<usize>,
}

impl View for DayGroup {
    type V = DayGroupModel;

    open spec fn view(&self) -> DayGroupModel {
        DayGroupModel { date: self.date, members: self.members@ }
    }
}

/// The rows of the groups, one group after the other.
pub open spec fn rows_of(groups: Seq<DayGroupModel>) -> Seq<usize>
    decreases groups.len(),
{
    if groups.len() == 0 {
        Seq::empty()
    } else {
        rows_of(groups.drop_last()) + groups.last().members
    }
}

/// `groups` cut `order` into maximal runs of rows on the same day: read one
/// after the other they give `order`, no group is empty, all rows of a group
/// are on its day, and neighbouring groups are on different days.
pub open spec fn day_runs(groups: Seq<DayGroupModel>, txs: Seq<TransactionModel>, order: Seq<usize>) -> bool {
    &&& rows_of(groups) == order
    &&& forall|g: int| 0 <= g < groups.len() ==> (#[trigger] groups[g]).members.len() > 0
    &&& forall|g: int, i: int|
        0 <= g < groups.len() && 0 <= i < groups[g].members.len() ==> day_of(
            txs[#[trigger] groups[g].members[i] as int],
        ) == groups[g].date
    &&& forall|g: int| 0 <= g < groups.len() - 1 ==> (#[trigger] groups[g]).date != groups[g + 1].date
}

/// `order` lists no transaction above a newer one.
pub open spec fn newest_first(txs: Seq<TransactionModel>, order: Seq<usize>) -> bool {
    forall|i: int, j: int|
        0 <= i < j < order.len() ==> !earlier(
            txs[#[trigger] order[i] as int].created_at,
            txs[#[trigger] order[j] as int].created_at,
        )
}

/// Every listed transaction has a calendar date.
pub open spec fn all_dated(txs: Seq<TransactionModel>, order: Seq<usize>) -> bool {
    forall|j: int| 0 <= j < order.len() ==> day_of(txs[#[trigger] order[j] as int]) is Some
}

/// Each group has a date and the dates fall strictly from one group to the
/// next: no calendar day heads two groups.
pub open spec fn days_descending(groups: Seq<DayGroupModel>) -> bool {
    &&& forall|g: int| 0 <= g < groups.len() ==> (#[trigger] groups[g]).date is Some
    &&& forall|g1: int, g2: int|
        0 <= g1 < g2 < groups.len() ==> #[trigger] groups[g1].date != #[trigger] groups[g2].date
            && date_le(groups[g2].date->0, groups[g1].date->0)
}

/// Keeping some rows of a list that lists no transaction above a newer one
/// keeps that property; every kept row comes from the list.
proof fn lemma_filter_newest_first(txs: Seq<TransactionModel>, s: Seq<usize>, p: spec_fn(usize) -> bool)
    requires
        newest_first(txs, s),
    ensures
        newest_first(txs, s.filter(p)),
        forall|i: int|
            0 <= i < s.filter(p).len() ==> exists|q: int| 0 <= q < s.len() && s[q] == #[trigger] s.filter(p)[i],
    decreases s.len(),
{
    reveal(Seq::filter);
    if s.len() > 0 {
        let sub = s.drop_last();
        assert forall|i: int, j: int| 0 <= i < j < sub.len() implies !earlier(
            txs[#[trigger] sub[i] as int].created_at,
            txs[#[trigger] sub[j] as int].created_at,
        ) by {
            assert(sub[i] == s[i] && sub[j] == s[j]);
        }
        lemma_filter_newest_first(txs, sub, p);
        let f = sub.filter(p);
        assert forall|i: int| 0 <= i < f.len() implies exists|q: int| 0 <= q < s.len() - 1 && s[q] == #[trigger] f[i] by {
            let q = choose|q: int| 0 <= q < sub.len() && sub[q] == f[i];
            assert(s[q] == sub[q]);
        }
        if p(s.last()) {
            let g = f.push(s.last());
            assert(s.filter(p) == g);
            assert forall|i: int, j: int| 0 <= i < j < g.len() implies !earlier(
                txs[#[trigger] g[i] as int].created_at,
                txs[#[trigger] g[j] as int].created_at,
            ) by {
                if j < f.len() {
                    assert(g[i] == f[i] && g[j] == f[j]);
                } else {
                    let q = choose|q: int| 0 <= q < s.len() - 1 && s[q] == #[trigger] f[i];
                    assert(g[i] == s[q] && g[j] == s[s.len() - 1]);
                }
            }
            assert forall|i: int| 0 <= i < g.len() implies exists|q: int| 0 <= q < s.len() && s[q] == #[trigger] g[i] by {
                if i < f.len() {
                    assert(g[i] == f[i]);
                } else {
                    assert(s[s.len() - 1] == g[i]);
                }
            }
        }
    }
}

/// The history, under any time range, lists no transaction above a newer
/// one; so when each of its transactions has a calendar date, its day groups
/// ([`FinanceTracker::day_groups`]) fall day by day, one group per day.
pub proof fn law_history_newest_first(
    txs: Seq<TransactionModel>,
    filter: Option<u128>,
    h: Seq<usize>,
    range: TimeRange,
)
    requires
        is_history_order(txs, filter, h),
    ensures
        newest_first(txs, h),
        newest_first(txs, in_range_positions(txs, h, range)),
{
    assert forall|i: int, j: int| 0 <= i < j < h.len() implies !earlier(
        txs[#[trigger] h[i] as int].created_at,
        txs[#[trigger] h[j] as int].created_at,
    ) by {
        assert(listed_before(txs, h[i] as int, h[j] as int));
    }
    lemma_filter_newest_first(txs, h, |k: usize| in_time_range(txs[k as int].created_at, range));
}

/// Adding a row to the last run, on that run's day, keeps the runs.
proof fn lemma_day_runs_extend(
    before: Seq<DayGroupModel>,
    now: Seq<DayGroupModel>,
    txs: Seq<TransactionModel>,
    prefix: Seq<usize>,
    k: usize,
)
    requires
        day_runs(before, txs, prefix),
        before.len() > 0,
        now.len() == before.len(),
        now.drop_last() == before.drop_last(),
        now.last().date == before.last().date,
        now.last().members == before.last().members.push(k),
        day_of(txs[k as int]) == before.last().date,
    ensures
        day_runs(now, txs, prefix.push(k)),
{
    assert(rows_of(before) == rows_of(before.drop_last()) + before.last().members);
    assert(now.drop_last() == before.drop_last());
    assert(rows_of(now) == rows_of(now.drop_last()) + now.last().members);
    assert(rows_of(now) =~= prefix.push(k));
    assert forall|g: int| 0 <= g < now.len() implies (#[trigger] now[g]).members.len() > 0 by {
        if g < now.len() - 1 {
            assert(now[g] == now.drop_last()[g]);
        }
    }
    assert forall|g: int, j: int|
        0 <= g < now.len() && 0 <= j < now[g].members.len() implies day_of(
            txs[#[trigger] now[g].members[j] as int],
        ) == now[g].date by {
        if g < now.len() - 1 {
            assert(now[g] == now.drop_last()[g]);
            assert(before[g] == before.drop_last()[g]);
        } else if j < before.last().members.len() {
            assert(now[g].members[j] == before[g].members[j]);
        }
    }
    assert forall|g: int| 0 <= g < now.len() - 1 implies (#[trigger] now[g]).date != now[g + 1].date by {
        assert(now[g] == now.drop_last()[g]);
        assert(before[g] == before.drop_last()[g]);
        if g + 1 < now.len() - 1 {
            assert(now[g + 1] == now.drop_last()[g + 1]);
            assert(before[g + 1] == before.drop_last()[g + 1]);
        }
    }
}

/// Opening a new run for a row on another day than the last run keeps the
/// runs.
proof fn lemma_day_runs_open(
    before: Seq<DayGroupModel>,
    now: Seq<DayGroupModel>,
    txs: Seq<TransactionModel>,
    prefix: Seq<usize>,
    k: usize,
)
    requires
        day_runs(before, txs, prefix),
        now.len() == before.len() + 1,
        now.drop_last() == before,
        now.last().members == seq![k],
        now.last().date == day_of(txs[k as int]),
        before.len() > 0 ==> before.last().date != day_of(txs[k as int]),
    ensures
        day_runs(now, txs, prefix.push(k)),
{
    assert(rows_of(now) == rows_of(now.drop_last()) + now.last().members);
    assert(rows_of(now) =~= prefix.push(k));
    assert forall|g: int| 0 <= g < now.len() implies (#[trigger] now[g]).members.len() > 0 by {
        if g < now.len() - 1 {
            assert(now[g] == now.drop_last()[g]);
        }
    }
    assert forall|g: int, j: int|
        0 <= g < now.len() && 0 <= j < now[g].members.len() implies day_of(
            txs[#[trigger] now[g].members[j] as int],
        ) == now[g].date by {
        if g < now.len() - 1 {
            assert(now[g] == now.drop_last()[g]);
        }
    }
    assert forall|g: int| 0 <= g < now.len() - 1 implies (#[trigger] now[g]).date != now[g + 1].date by {
        assert(now[g] == now.drop_last()[g]);
        if g + 1 < now.len() - 1 {
            assert(now[g + 1] == now.drop_last()[g + 1]);
        } else {
            assert(before.last() == before[g]);
        }
    }
}

/// The icon an account gets when none is typed.
pub open spec fn default_icon() -> Seq<char> {
    "💰"@
}

/// The account id that the history filter selects, if it selects an existing
/// account.
pub open spec fn filter_id(accounts: Seq<AccountModel>, filter_idx: Option<usize>) -> Option<u128> {
    match filter_idx {
        Some(i) => if i < accounts.len() {
            Some(accounts[i as int].id)
        } else {
            None
        },
        None => None,
    }
}

/// The history shows the transaction under the filter.
pub open spec fn shown_under(filter: Option<u128>, t: TransactionModel) -> bool {
    match filter {
        None => true,
        Some(id) => t.account_id == id,
    }
}

/// In the history, the transaction at `a` is listed above the one at `b`:
/// it is newer, or as new and recorded earlier.
pub open spec fn listed_before(txs: Seq<TransactionModel>, a: int, b: int) -> bool {
    earlier(txs[b].created_at, txs[a].created_at) || (txs[a].created_at == txs[b].created_at && a
        < b)
}

/// `order` lists exactly the positions of the shown transactions, newest
/// first, equally new ones in the order they were recorded.
pub open spec fn is_history_order(
    txs: Seq<TransactionModel>,
    filter: Option<u128>,
    order: Seq<usize>,
) -> bool {
    &&& forall|i: int| 0 <= i < order.len() ==> (#[trigger] order[i]) < txs.len() && shown_under(filter, txs[order[i] as int])
    &&& forall|k: int| 0 <= k < txs.len() && shown_under(filter, #[trigger] txs[k]) ==> order.contains(k as usize)
    &&& forall|i: int, j: int| 0 <= i < j < order.len() ==> listed_before(txs, #[trigger] order[i] as int, #[trigger] order[j] as int)
}

/// The transactions that remain when an account is deleted.
pub open spec fn without_account(txs: Seq<TransactionModel>, id: u128) -> Seq<TransactionModel> {
    txs.filter(|t: TransactionModel| t.account_id != id)
}

impl FinanceTracker {
    pub closed spec fn accounts_view(&self) -> Seq<AccountModel> {
        self.accounts@.map_values(|a: Account| a@)
    }

    pub closed spec fn transactions_view(&self) -> Seq<TransactionModel> {
        self.transactions@.map_values(|t: Transaction| t@)
    }

    pub closed spec fn input_type_spec(&self) -> TransactionType {
        self.input_type
    }

    pub closed spec fn input_amount_spec(&self) -> Seq<char> {
        self.input_amount@
    }

    pub closed spec fn input_description_spec(&self) -> Seq<char> {
        self.input_description@
    }

    pub closed spec fn input_account_idx_spec(&self) -> usize {
        self.input_account_idx
    }

    pub closed spec fn new_account_name_spec(&self) -> Seq<char> {
        self.new_account_name@
    }

    pub closed spec fn new_account_icon_spec(&self) -> Seq<char> {
        self.new_account_icon@
    }

    pub closed spec fn narrow_tab_spec(&self) -> NarrowTab {
        self.narrow_tab
    }

    pub closed spec fn filter_account_idx_spec(&self) -> Option<usize> {
        self.filter_account_idx
    }

    /// A tracker holding the given accounts and transactions, its forms empty
    /// (the new-account icon preset), the first account selected for new
    /// transactions and no history filter.
    pub fn with_data(accounts: Vec<Account>, transactions: Vec<Transaction>) -> (r: Self)
        ensures
            r.accounts_view() == accounts@.map_values(|a: Account| a@),
            r.transactions_view() == transactions@.map_values(|t: Transaction| t@),
            r.input_type_spec() == TransactionType::Receive,
            r.input_amount_spec() == Seq::<char>::empty(),
            r.input_description_spec() == Seq::<char>::empty(),
            r.input_account_idx_spec() == 0,
            r.new_account_name_spec() == Seq::<char>::empty(),
            r.new_account_icon_spec() == default_icon(),
            r.narrow_tab_spec() == NarrowTab::Accounts,
            r.filter_account_idx_spec() is None,
    {
        FinanceTracker {
            accounts,
            transactions,
            input_type: TransactionType::Receive,
            input_amount: String::new(),
            input_description: String::new(),
            input_account_idx: 0,
            new_account_name: String::new(),
            new_account_icon: String::from_str("💰"),
            narrow_tab: NarrowTab::Accounts,
            filter_account_idx: None,
        }
    }

    /// A fresh tracker: three accounts (Cash, Credit Card, Bank) with new
    /// random ids, no transactions.
    pub fn new() -> (r: Self)
        ensures
            r.accounts_view().len() == 3,
            r.accounts_view()[0].name == "Cash"@ && r.accounts_view()[0].icon == "💵"@,
            r.accounts_view()[1].name == "Credit Card"@ && r.accounts_view()[1].icon == "💳"@,
            r.accounts_view()[2].name == "Bank"@ && r.accounts_view()[2].icon == "🏦"@,
            r.transactions_view().len() == 0,
            r.input_type_spec() == TransactionType::Receive,
            r.input_amount_spec() == Seq::<char>::empty(),
            r.input_description_spec() == Seq::<char>::empty(),
            r.input_account_idx_spec() == 0,
            r.new_account_name_spec() == Seq::<char>::empty(),
            r.new_account_icon_spec() == default_icon(),
            r.narrow_tab_spec() == NarrowTab::Accounts,
            r.filter_account_idx_spec() is None,
    {
        let mut accounts: Vec<Account> = Vec::new();
        accounts.push(
            Account { id: new_v4_id(), name: String::from_str("Cash"), icon: String::from_str("💵") },
        );
        accounts.push(
            Account {
                id: new_v4_id(),
                name: String::from_str("Credit Card"),
                icon: String::from_str("💳"),
            },
        );
        accounts.push(
            Account { id: new_v4_id(), name: String::from_str("Bank"), icon: String::from_str("🏦") },
        );
        FinanceTracker::with_data(accounts, Vec::new())
    }

    /// Record a transaction from the form, with the given id and time. Nothing
    /// happens when the amount is missing (not a positive number) or no
    /// account is selected; otherwise the transaction (type, amount,
    /// description and selected account from the form) is appended and the
    /// amount and description fields are cleared.
    pub fn add_transaction_with(&mut self, amount_bits: Option<u64>, id: u128, now: UtcTime) -> (added: bool)
        ensures
            transaction_recorded(*old(self), *final(self), amount_bits, id, now, added),
    {
        let amount = match amount_bits {
            Some(a) => a,
            None => return false,
        };
        if self.input_account_idx >= self.accounts.len() {
            return false;
        }
        let account_id = self.accounts[self.input_account_idx].id;
        let description = self.input_description.clone();
        let ghost before = self.transactions@;
        self.transactions.push(
            Transaction {
                id,
                transaction_type: self.input_type,
                amount_bits: amount,
                description,
                account_id,
                created_at: now,
            },
        );
        assert(self.transactions@.map_values(|t: Transaction| t@) =~= before.map_values(
            |t: Transaction| t@,
        ).push(self.transactions@.last()@));
        self.input_amount = String::new();
        self.input_description = String::new();
        true
    }

    /// Record a transaction from the form ("Add"), with a new random id and
    /// the current time; see [`Self::add_transaction_with`].
    pub fn try_add_transaction(&mut self, amount_bits: Option<u64>) -> (added: bool)
        ensures
            exists|id: u128, now: UtcTime|
                #[trigger] transaction_recorded(*old(self), *final(self), amount_bits, id, now, added)
                    && now.nanos < 1_000_000_000,
            added == (amount_bits is Some && old(self).input_account_idx_spec()
                < old(self).accounts_view().len()),
    {
        let id = new_v4_id();
        let now = utc_now();
        self.add_transaction_with(amount_bits, id, now)
    }

    /// Add the account typed in the form, with the given id. Nothing happens
    /// when the trimmed name is empty; otherwise the account (trimmed name,
    /// trimmed icon or the default icon) is appended, the name field cleared
    /// and the icon field reset to the default icon.
    pub fn add_account_with(&mut self, id: u128) -> (added: bool)
        ensures
            account_recorded(*old(self), *final(self), id, added),
    {
        let name = trim(self.new_account_name.as_str());
        if name.as_str().is_empty() {
            return false;
        }
        let trimmed_icon = trim(self.new_account_icon.as_str());
        let icon = if trimmed_icon.as_str().is_empty() {
            String::from_str("💰")
        } else {
            trimmed_icon
        };
        let ghost before = self.accounts@;
        self.accounts.push(Account { id, name, icon });
        assert(self.accounts@.map_values(|a: Account| a@) =~= before.map_values(|a: Account| a@).push(
            self.accounts@.last()@,
        ));
        self.new_account_name = String::new();
        self.new_account_icon = String::from_str("💰");
        true
    }

    /// Add the account typed in the form ("Add Account") with a new random
    /// id; see [`Self::add_account_with`].
    pub fn try_add_account(&mut self) -> (added: bool)
        ensures
            exists|id: u128| #[trigger] account_recorded(*old(self), *final(self), id, added),
            added == (trim_spec(old(self).new_account_name_spec()).len() > 0),
    {
        let id = new_v4_id();
        self.add_account_with(id)
    }

    /// Delete the account at `idx` together with all of its transactions;
    /// when the account selected for new transactions no longer exists, the
    /// last account is selected instead.
    pub fn delete_account(&mut self, idx: usize)
        requires
            idx < old(self).accounts_view().len(),
        ensures
            final(self).accounts_view() == old(self).accounts_view().remove(idx as int),
            final(self).transactions_view() == without_account(
                old(self).transactions_view(),
                old(self).accounts_view()[idx as int].id,
            ),
            final(self).input_account_idx_spec() == (if old(self).input_account_idx_spec()
                >= final(self).accounts_view().len() && final(self).accounts_view().len() > 0 {
                (final(self).accounts_view().len() - 1) as usize
            } else {
                old(self).input_account_idx_spec()
            }),
            final(self).filter_account_idx_spec() == old(self).filter_account_idx_spec(),
            final(self).input_type_spec() == old(self).input_type_spec(),
            final(self).input_amount_spec() == old(self).input_amount_spec(),
            final(self).input_description_spec() == old(self).input_description_spec(),
    {
        let aid = self.accounts[idx].id;
        self.retain_transactions_not_of(aid);
        let ghost before = self.accounts@;
        self.accounts.remove(idx);
        assert(self.accounts@.map_values(|a: Account| a@) =~= before.map_values(|a: Account| a@).remove(
            idx as int,
        ));
        if self.input_account_idx >= self.accounts.len() && self.accounts.len() > 0 {
            self.input_account_idx = self.accounts.len() - 1;
        }
    }

    /// Keep only the transactions that do not belong to the account.
    fn retain_transactions_not_of(&mut self, aid: u128)
        ensures
            final(self).transactions_view() == without_account(old(self).transactions_view(), aid),
            final(self).accounts@ == old(self).accounts@,
            final(self).input_account_idx == old(self).input_account_idx,
            final(self).filter_account_idx == old(self).filter_account_idx,
            final(self).input_type == old(self).input_type,
            final(self).input_amount == old(self).input_amount,
            final(self).input_description == old(self).input_description,
    {
        let mut rest: Vec<Transaction> = Vec::new();
        std::mem::swap(&mut rest, &mut self.transactions);
        let n = rest.len();
        let ghost all = rest@;
        let ghost all_view = all.map_values(|t: Transaction| t@);
        let mut kept: Vec<Transaction> = Vec::new();
        let mut i: usize = 0;
        while i < n
            invariant
                i <= n == all.len(),
                rest@ == all.subrange(i as int, n as int),
                all_view == all.map_values(|t: Transaction| t@),
                kept@.map_values(|t: Transaction| t@) == without_account(all_view.take(i as int), aid),
            decreases n - i,
        {
            let t = rest.remove(0);
            proof {
                let m = all_view.take(i + 1);
                assert(m.drop_last() =~= all_view.take(i as int));
                assert(m.last() == t@);
                reveal(Seq::filter);
            }
            if t.account_id != aid {
                let ghost k = kept@;
                kept.push(t);
                assert(kept@.map_values(|x: Transaction| x@) =~= k.map_values(|x: Transaction| x@).push(
                    t@,
                ));
            }
            i += 1;
            assert(rest@ =~= all.subrange(i as int, n as int));
        }
        assert(all_view.take(n as int) =~= all_view);
        self.transactions = kept;
    }

    /// Delete the transaction at `idx`, when there is one.
    pub fn delete_transaction(&mut self, idx: usize)
        ensures
            final(self).transactions_view() == (if idx < old(self).transactions_view().len() {
                old(self).transactions_view().remove(idx as int)
            } else {
                old(self).transactions_view()
            }),
            final(self).accounts_view() == old(self).accounts_view(),
    {
        if idx < self.transactions.len() {
            let ghost before = self.transactions@;
            self.transactions.remove(idx);
            assert(self.transactions@.map_values(|t: Transaction| t@) =~= before.map_values(
                |t: Transaction| t@,
            ).remove(idx as int));
        }
    }

    /// The id of the account that the history filter selects, if any.
    pub fn filter_account_id(&self) -> (r: Option<u128>)
        ensures
            r == filter_id(self.accounts_view(), self.filter_account_idx_spec()),
    {
        match self.filter_account_idx {
            Some(i) => if i < self.accounts.len() {
                Some(self.accounts[i].id)
            } else {
                None
            },
            None => None,
        }
    }

    /// Record a transaction from the form at a chosen creation time (the
    /// form's date and time), with a new random id; see
    /// [`Self::add_transaction_with`].
    pub fn try_add_transaction_at(&mut self, amount_bits: Option<u64>, created_at: UtcTime) -> (added: bool)
        ensures
            exists|id: u128| #[trigger] transaction_recorded(*old(self), *final(self), amount_bits, id, created_at, added),
            added == (amount_bits is Some && old(self).input_account_idx_spec()
                < old(self).accounts_view().len()),
    {
        let id = new_v4_id();
        self.add_transaction_with(amount_bits, id, created_at)
    }

    /// The history as listed under a time range: the rows of
    /// [`Self::history_order`] whose transactions were created in the range,
    /// in the same order.
    pub fn history_in_range(&self, range: TimeRange) -> (r: Vec<usize>)
        ensures
            exists|h: Seq<usize>|
                is_history_order(
                    self.transactions_view(),
                    filter_id(self.accounts_view(), self.filter_account_idx_spec()),
                    h,
                ) && r@ == #[trigger] in_range_positions(self.transactions_view(), h, range),
    {
        let order = self.history_order();
        let ghost txs = self.transactions_view();
        let mut r: Vec<usize> = Vec::new();
        proof {
            reveal(Seq::filter);
            assert(order@.take(0) =~= Seq::<usize>::empty());
        }
        let mut i: usize = 0;
        while i < order.len()
            invariant
                i <= order@.len(),
                txs == self.transactions_view(),
                is_history_order(txs, filter_id(self.accounts_view(), self.filter_account_idx_spec()), order@),
                r@ == in_range_positions(txs, order@.take(i as int), range),
            decreases order@.len() - i,
        {
            let k = order[i];
            proof {
                reveal(Seq::filter);
                assert(order@.take(i + 1).drop_last() =~= order@.take(i as int));
                assert(order@[i as int] < txs.len());
            }
            let t = self.transactions[k].created_at;
            proof {
                assert(txs[k as int].created_at == t);
            }
            if is_in_time_range(t, range) {
                r.push(k);
            }
            i += 1;
        }
        proof {
            assert(order@.take(order@.len() as int) =~= order@);
        }
        r
    }

    /// Cut listed history rows into runs of the same UTC calendar day, the
    /// day headings of the list.
    pub fn day_groups(&self, order: &Vec<usize>) -> (r: Vec<DayGroup>)
        requires
            forall|i: int| 0 <= i < order@.len() ==> #[trigger] order@[i] < self.transactions_view().len(),
        ensures
            day_runs(r@.map_values(|g: DayGroup| g@), self.transactions_view(), order@),
            newest_first(self.transactions_view(), order@) && all_dated(self.transactions_view(), order@)
                ==> days_descending(r@.map_values(|g: DayGroup| g@)),
    {
        let ghost txs = self.transactions_view();
        let ghost sorted = newest_first(txs, order@) && all_dated(txs, order@);
        let mut groups: Vec<DayGroup> = Vec::new();
        let mut i: usize = 0;
        proof {
            assert(order@.take(0) =~= Seq::<usize>::empty());
            assert(groups@.map_values(|g: DayGroup| g@) =~= Seq::<DayGroupModel>::empty());
        }
        while i < order.len()
            invariant
                i <= order@.len(),
                txs == self.transactions_view(),
                sorted == (newest_first(txs, order@) && all_dated(txs, order@)),
                forall|j: int| 0 <= j < order@.len() ==> #[trigger] order@[j] < txs.len(),
                day_runs(groups@.map_values(|g: DayGroup| g@), txs, order@.take(i as int)),
                sorted ==> forall|g: int|
                    0 <= g < groups@.len() ==> (#[trigger] groups@[g]).date is Some && valid_date(
                        groups@[g].date->0,
                    ),
                sorted ==> forall|g1: int, g2: int|
                    0 <= g1 < g2 < groups@.len() ==> day_number((#[trigger] groups@[g2]).date->0)
                        < day_number((#[trigger] groups@[g1]).date->0),
                sorted ==> forall|g: int, j: int|
                    0 <= g < groups@.len() && i <= j < order@.len() ==> day_number(
                        (#[trigger] groups@[g]).date->0,
                    ) >= txs[#[trigger] order@[j] as int].created_at.secs as int / 86_400,
            decreases order@.len() - i,
        {
            let k = order[i];
            let ghost before = groups@.map_values(|g: DayGroup| g@);
            let ghost old_groups = groups@;
            let date = match calendar_day_of(self.transactions[k].created_at) {
                Some(c) => Some(c.date),
                None => None,
            };
            proof {
                assert(txs[k as int] == self.transactions@[k as int]@);
                assert(date == day_of(txs[k as int]));
                assert(order@.take(i + 1) =~= order@.take(i as int).push(k));
                if sorted {
                    assert(day_of(txs[order@[i as int] as int]) is Some);
                    assert forall|j: int| i < j < order@.len() implies day_number(date->0)
                        >= txs[#[trigger] order@[j] as int].created_at.secs as int / 86_400 by {
                        assert(!earlier(
                            txs[order@[i as int] as int].created_at,
                            txs[order@[j] as int].created_at,
                        ));
                        vstd::arithmetic::div_mod::lemma_div_is_ordered(
                            txs[order@[j] as int].created_at.secs as int,
                            txs[k as int].created_at.secs as int,
                            86_400,
                        );
                    }
                }
            }
            let n = groups.len();
            if n > 0 && groups[n - 1].date == date {
                let mut last = groups.remove(n - 1);
                last.members.push(k);
                groups.push(last);
                proof {
                    let now = groups@.map_values(|g: DayGroup| g@);
                    assert(now.drop_last() =~= before.drop_last());
                    assert(now.last().members == before.last().members.push(k));
                    lemma_day_runs_extend(before, now, txs, order@.take(i as int), k);
                    assert forall|g: int| 0 <= g < groups@.len() implies groups@[g].date
                        == old_groups[g].date by {
                        if g < n - 1 {
                            assert(groups@[g] == old_groups[g]);
                        }
                    }
                }
            } else {
                let mut members: Vec<usize> = Vec::new();
                members.push(k);
                groups.push(DayGroup { date, members });
                proof {
                    let now = groups@.map_values(|g: DayGroup| g@);
                    assert(now.drop_last() =~= before);
                    assert(now.last().members =~= seq![k]);
                    lemma_day_runs_open(before, now, txs, order@.take(i as int), k);
                    assert forall|g: int| 0 <= g < n implies groups@[g] == old_groups[g] by {}
                    if sorted && n > 0 {
                        let last = old_groups[n - 1].date->0;
                        assert(day_number(last) >= txs[order@[i as int] as int].created_at.secs as int
                            / 86_400);
                        lemma_day_number_injective(last, date->0);
                        assert(day_number(date->0) < day_number(last));
                    }
                }
            }
            i += 1;
        }
        proof {
            assert(order@.take(order@.len() as int) =~= order@);
            let gm = groups@.map_values(|g: DayGroup| g@);
            if sorted {
                assert forall|g1: int, g2: int| 0 <= g1 < g2 < gm.len() implies #[trigger] gm[g1].date
                    != #[trigger] gm[g2].date && date_le(gm[g2].date->0, gm[g1].date->0) by {
                    let a = groups@[g1].date->0;
                    let b = groups@[g2].date->0;
                    assert(day_number(b) < day_number(a));
                    if !date_le(b, a) {
                        lemma_day_number_strict(a, b);
                    }
                }
                assert forall|g: int| 0 <= g < gm.len() implies (#[trigger] gm[g]).date is Some by {
                    assert(gm[g] == groups@[g]@);
                }
            }
        }
        groups
    }


    /// The positions of the transactions the history lists, in the order it
    /// lists them: those of the filtered account (all when no account is
    /// filtered), newest first, equally new ones in recording order.
    pub fn history_order(&self) -> (r: Vec<usize>)
        ensures
            is_history_order(
                self.transactions_view(),
                filter_id(self.accounts_view(), self.filter_account_idx_spec()),
                r@,
            ),
    {
        let filter = self.filter_account_id();
        let ghost txs = self.transactions_view();
        let n = self.transactions.len();
        let mut order: Vec<usize> = Vec::new();
        let mut k: usize = 0;
        while k < n
            invariant
                k <= n == txs.len(),
                txs == self.transactions_view(),
                forall|i: int| 0 <= i < order@.len() ==> (#[trigger] order@[i]) < k && shown_under(filter, txs[order@[i] as int]),
                forall|q: int| 0 <= q < k && shown_under(filter, #[trigger] txs[q]) ==> order@.contains(q as usize),
                forall|i: int, j: int| 0 <= i < j < order@.len() ==> listed_before(txs, #[trigger] order@[i] as int, #[trigger] order@[j] as int),
            decreases n - k,
        {
            let t = &self.transactions[k];
            assert(txs[k as int] == t@);
            let shown = match filter {
                None => true,
                Some(id) => t.account_id == id,
            };
            if shown {
                let created = t.created_at;
                let mut p: usize = 0;
                while p < order.len() && !is_earlier(self.transactions[order[p]].created_at, created)
                    invariant
                        p <= order@.len(),
                        k < n == txs.len(),
                        txs == self.transactions_view(),
                        created == txs[k as int].created_at,
                        forall|i: int| 0 <= i < order@.len() ==> (#[trigger] order@[i]) < k,
                        forall|i: int| 0 <= i < p ==> !earlier(txs[(#[trigger] order@[i]) as int].created_at, created),
                    decreases order@.len() - p,
                {
                    assert(txs[order@[p as int] as int] == self.transactions@[order@[p as int] as int]@);
                    p += 1;
                }
                proof {
                    if p < order@.len() {
                        assert(txs[order@[p as int] as int] == self.transactions@[order@[p as int] as int]@);
                    }
                }
                let ghost before = order@;
                order.insert(p, k);
                proof {
                    assert(order@ == before.insert(p as int, k));
                    assert forall|i: int, j: int| 0 <= i < j < order@.len() implies listed_before(txs, #[trigger] order@[i] as int, #[trigger] order@[j] as int) by {
                        if j < p {
                        } else if i < p && j == p {
                            assert(!earlier(txs[before[i] as int].created_at, created));
                        } else if i < p && j > p {
                            assert(order@[j] == before[j - 1]);
                        } else if i == p {
                            assert(order@[j] == before[j - 1]);
                            assert(earlier(txs[before[p as int] as int].created_at, created));
                            assert(listed_before(txs, before[p as int] as int, before[j - 1] as int) || j - 1 == p);
                        } else {
                            assert(order@[i] == before[i - 1]);
                            assert(order@[j] == before[j - 1]);
                        }
                    }
                    assert forall|q: int| 0 <= q < k + 1 && shown_under(filter, #[trigger] txs[q]) implies order@.contains(q as usize) by {
                        if q < k {
                            let w = choose|w: int| 0 <= w < before.len() && before[w] == q as usize;
                            if w < p {
                                assert(order@[w] == q as usize);
                            } else {
                                assert(order@[w + 1] == q as usize);
                            }
                        } else {
                            assert(order@[p as int] == k);
                        }
                    }
                }
            }
            k += 1;
        }
        order
    }

    /// Replace the data with what was loaded from storage, unless nothing was
    /// loaded at all (then the current data stays).
    pub fn apply_loaded(&mut self, accounts: Vec<Account>, transactions: Vec<Transaction>)
        ensures
            (accounts@.len() > 0 || transactions@.len() > 0) ==> final(self).accounts_view()
                == accounts@.map_values(|a: Account| a@) && final(self).transactions_view()
                == transactions@.map_values(|t: Transaction| t@),
            (accounts@.len() == 0 && transactions@.len() == 0) ==> final(self).accounts_view() == old(
                self,
            ).accounts_view() && final(self).transactions_view() == old(self).transactions_view(),
            final(self).input_account_idx_spec() == old(self).input_account_idx_spec(),
            final(self).filter_account_idx_spec() == old(self).filter_account_idx_spec(),
    {
        if accounts.len() > 0 || transactions.len() > 0 {
            self.accounts = accounts;
            self.transactions = transactions;
        }
    }

    pub fn accounts(&self) -> (r: &Vec<Account>)
        ensures
            r@.map_values(|a: Account| a@) == self.accounts_view(),
    {
        &self.accounts
    }

    pub fn transactions(&self) -> (r: &Vec<Transaction>)
        ensures
            r@.map_values(|t: Transaction| t@) == self.transactions_view(),
    {
        &self.transactions
    }

    pub fn input_type(&self) -> (r: TransactionType)
        ensures
            r == self.input_type_spec(),
    {
        self.input_type
    }

    pub fn set_input_type(&mut self, t: TransactionType)
        ensures
            final(self).input_type_spec() == t,
            final(self).accounts_view() == old(self).accounts_view(),
            final(self).transactions_view() == old(self).transactions_view(),
    {
        self.input_type = t;
    }

    pub fn input_amount(&self) -> (r: &str)
        ensures
            r@ == self.input_amount_spec(),
    {
        self.input_amount.as_str()
    }

    pub fn set_input_amount(&mut self, text: &str)
        ensures
            final(self).input_amount_spec() == text@,
            final(self).accounts_view() == old(self).accounts_view(),
            final(self).transactions_view() == old(self).transactions_view(),
    {
        self.input_amount = String::from_str(text);
    }

    pub fn input_description(&self) -> (r: &str)
        ensures
            r@ == self.input_description_spec(),
    {
        self.input_description.as_str()
    }

    pub fn set_input_description(&mut self, text: &str)
        ensures
            final(self).input_description_spec() == text@,
            final(self).accounts_view() == old(self).accounts_view(),
            final(self).transactions_view() == old(self).transactions_view(),
            final(self).input_account_idx_spec() == old(self).input_account_idx_spec(),
            final(self).input_type_spec() == old(self).input_type_spec(),
    {
        self.input_description = String::from_str(text);
    }

    pub fn input_account_idx(&self) -> (r: usize)
        ensures
            r == self.input_account_idx_spec(),
    {
        self.input_account_idx
    }

    pub fn set_input_account_idx(&mut self, idx: usize)
        ensures
            final(self).input_account_idx_spec() == idx,
            final(self).accounts_view() == old(self).accounts_view(),
            final(self).transactions_view() == old(self).transactions_view(),
            final(self).input_type_spec() == old(self).input_type_spec(),
            final(self).input_description_spec() == old(self).input_description_spec(),
    {
        self.input_account_idx = idx;
    }

    pub fn new_account_name(&self) -> (r: &str)
        ensures
            r@ == self.new_account_name_spec(),
    {
        self.new_account_name.as_str()
    }

    pub fn set_new_account_name(&mut self, text: &str)
        ensures
            final(self).new_account_name_spec() == text@,
            final(self).new_account_icon_spec() == old(self).new_account_icon_spec(),
            final(self).accounts_view() == old(self).accounts_view(),
            final(self).transactions_view() == old(self).transactions_view(),
    {
        self.new_account_name = String::from_str(text);
    }

    pub fn new_account_icon(&self) -> (r: &str)
        ensures
            r@ == self.new_account_icon_spec(),
    {
        self.new_account_icon.as_str()
    }

    pub fn set_new_account_icon(&mut self, text: &str)
        ensures
            final(self).new_account_icon_spec() == text@,
            final(self).new_account_name_spec() == old(self).new_account_name_spec(),
            final(self).accounts_view() == old(self).accounts_view(),
            final(self).transactions_view() == old(self).transactions_view(),
    {
        self.new_account_icon = String::from_str(text);
    }

    pub fn narrow_tab(&self) -> (r: NarrowTab)
        ensures
            r == self.narrow_tab_spec(),
    {
        self.narrow_tab
    }

    pub fn set_narrow_tab(&mut self, tab: NarrowTab)
        ensures
            final(self).narrow_tab_spec() == tab,
            final(self).accounts_view() == old(self).accounts_view(),
            final(self).transactions_view() == old(self).transactions_view(),
    {
        self.narrow_tab = tab;
    }

    pub fn filter_account_idx(&self) -> (r: Option<usize>)
        ensures
            r == self.filter_account_idx_spec(),
    {
        self.filter_account_idx
    }

    pub fn set_filter_account_idx(&mut self, idx: Option<usize>)
        ensures
            final(self).filter_account_idx_spec() == idx,
            final(self).accounts_view() == old(self).accounts_view(),
            final(self).transactions_view() == old(self).transactions_view(),
    {
        self.filter_account_idx = idx;
    }
}

// ---------------------------------------------------------------------------
// Laws
// ---------------------------------------------------------------------------

/// Some account has the id.
pub open spec fn has_account(accounts: Seq<AccountModel>, id: u128) -> bool {
    exists|a: int| 0 <= a < accounts.len() && #[trigger] accounts[a].id == id
}

/// Every transaction belongs to one of the accounts.
pub open spec fn all_tied(accounts: Seq<AccountModel>, txs: Seq<TransactionModel>) -> bool {
    forall|k: int| 0 <= k < txs.len() ==> has_account(accounts, (#[trigger] txs[k]).account_id)
}

/// What a filter keeps was in the sequence.
proof fn lemma_filter_kept_from<A>(s: Seq<A>, pred: spec_fn(A) -> bool, i: int)
    requires
        0 <= i < s.filter(pred).len(),
    ensures
        s.contains(s.filter(pred)[i]),
    decreases s.len(),
{
    reveal(Seq::filter);
    if s.len() > 0 {
        let init = s.drop_last();
        if pred(s.last()) && i == init.filter(pred).len() {
            assert(s.filter(pred)[i] == s.last());
            assert(s[s.len() - 1] == s.last());
        } else {
            assert(s.filter(pred)[i] == init.filter(pred)[i]);
            lemma_filter_kept_from(init, pred, i);
            let j = choose|j: int| 0 <= j < init.len() && init[j] == init.filter(pred)[i];
            assert(s[j] == init[j]);
        }
    }
}

/// Deleting an account, with its transactions, keeps every remaining
/// transaction tied to an account that still exists.
pub proof fn law_delete_account_keeps_ties(accounts: Seq<AccountModel>, txs: Seq<TransactionModel>, idx: int)
    requires
        all_tied(accounts, txs),
        0 <= idx < accounts.len(),
    ensures
        all_tied(accounts.remove(idx), without_account(txs, accounts[idx].id)),
{
    broadcast use vstd::seq_lib::group_filter_ensures;

    let id = accounts[idx].id;
    let w = without_account(txs, id);
    let rest = accounts.remove(idx);
    assert forall|k: int| 0 <= k < w.len() implies has_account(rest, (#[trigger] w[k]).account_id) by {
        lemma_filter_kept_from(txs, |t: TransactionModel| t.account_id != id, k);
        assert(txs.contains(w[k]) && w[k].account_id != id);
        let j = choose|j: int| 0 <= j < txs.len() && txs[j] == w[k];
        assert(has_account(accounts, txs[j].account_id));
        let a = choose|a: int| 0 <= a < accounts.len() && #[trigger] accounts[a].id == txs[j].account_id;
        assert(a != idx);
        if a < idx {
            assert(rest[a] == accounts[a]);
            assert(rest[a].id == w[k].account_id);
        } else {
            assert(rest[a - 1] == accounts[a]);
            assert(rest[a - 1].id == w[k].account_id);
        }
    }
}

/// After an account is deleted, no remaining transaction refers to it, and
/// every transaction of another account is kept.
pub proof fn law_delete_account_cascades(txs: Seq<TransactionModel>, id: u128)
    ensures
        forall|i: int| 0 <= i < without_account(txs, id).len() ==> (#[trigger] without_account(txs, id)[i]).account_id != id,
        forall|t: TransactionModel| txs.contains(t) && t.account_id != id ==> without_account(txs, id).contains(t),
{
    broadcast use vstd::seq_lib::group_filter_ensures;

    let w = without_account(txs, id);
    assert forall|i: int| 0 <= i < w.len() implies (#[trigger] w[i]).account_id != id by {
        assert(w.contains(w[i]));
    }
}

/// The history lists each shown transaction exactly once, and its order is
/// fully determined: an order satisfying [`is_history_order`] holds no
/// position twice, and any two such orders for the same data are the same.
pub proof fn law_history_order_unique(
    txs: Seq<TransactionModel>,
    filter: Option<u128>,
    a: Seq<usize>,
    b: Seq<usize>,
)
    requires
        is_history_order(txs, filter, a),
        is_history_order(txs, filter, b),
    ensures
        a.no_duplicates(),
        a == b,
{
    assert forall|i: int, j: int| 0 <= i < a.len() && 0 <= j < a.len() && i != j implies a[i] != a[j] by {
        if i < j {
            assert(listed_before(txs, a[i] as int, a[j] as int));
        } else {
            assert(listed_before(txs, a[j] as int, a[i] as int));
        }
    }
    assert forall|x: usize| a.contains(x) <==> b.contains(x) by {
        if a.contains(x) {
            let w = choose|w: int| 0 <= w < a.len() && a[w] == x;
            assert(shown_under(filter, txs[a[w] as int]));
        }
        if b.contains(x) {
            let w = choose|w: int| 0 <= w < b.len() && b[w] == x;
            assert(shown_under(filter, txs[b[w] as int]));
        }
    }
    lemma_sorted_same_elements_equal(txs, a, b);
}

/// Listed strictly in history order.
pub open spec fn strictly_listed(txs: Seq<TransactionModel>, s: Seq<usize>) -> bool {
    forall|i: int, j: int| 0 <= i < j < s.len() ==> listed_before(txs, #[trigger] s[i] as int, #[trigger] s[j] as int)
}

/// Two strictly ordered listings of the same positions are equal.
proof fn lemma_sorted_same_elements_equal(txs: Seq<TransactionModel>, a: Seq<usize>, b: Seq<usize>)
    requires
        strictly_listed(txs, a),
        strictly_listed(txs, b),
        forall|x: usize| a.contains(x) <==> b.contains(x),
    ensures
        a == b,
    decreases a.len(),
{
    if a.len() == 0 {
        if b.len() > 0 {
            assert(b.contains(b[0]));
        }
        assert(b =~= a);
    } else if b.len() == 0 {
        assert(a.contains(a[0]));
    } else {
        let x = a[0];
        let y = b[0];
        assert(a.contains(x));
        assert(b.contains(y));
        if x != y {
            let iy = choose|i: int| 0 <= i < a.len() && a[i] == y;
            let jx = choose|j: int| 0 <= j < b.len() && b[j] == x;
            assert(listed_before(txs, a[0] as int, a[iy] as int));
            assert(listed_before(txs, b[0] as int, b[jx] as int));
        }
        let a2 = a.drop_first();
        let b2 = b.drop_first();
        assert forall|i: int, j: int| 0 <= i < j < a2.len() implies listed_before(txs, #[trigger] a2[i] as int, #[trigger] a2[j] as int) by {
            assert(a2[i] == a[i + 1] && a2[j] == a[j + 1]);
        }
        assert forall|i: int, j: int| 0 <= i < j < b2.len() implies listed_before(txs, #[trigger] b2[i] as int, #[trigger] b2[j] as int) by {
            assert(b2[i] == b[i + 1] && b2[j] == b[j + 1]);
        }
        assert forall|z: usize| a2.contains(z) <==> b2.contains(z) by {
            if a2.contains(z) {
                let w = choose|w: int| 0 <= w < a2.len() && a2[w] == z;
                assert(a[w + 1] == z);
                assert(listed_before(txs, a[0] as int, a[w + 1] as int));
                assert(a.contains(z));
                let v = choose|v: int| 0 <= v < b.len() && b[v] == z;
                if v == 0 {
                    assert(z == x);
                }
                assert(v > 0);
                assert(b2[v - 1] == z);
            }
            if b2.contains(z) {
                let w = choose|w: int| 0 <= w < b2.len() && b2[w] == z;
                assert(b[w + 1] == z);
                assert(listed_before(txs, b[0] as int, b[w + 1] as int));
                assert(b.contains(z));
                let v = choose|v: int| 0 <= v < a.len() && a[v] == z;
                if v == 0 {
                    assert(z == y);
                }
                assert(v > 0);
                assert(a2[v - 1] == z);
            }
        }
        lemma_sorted_same_elements_equal(txs, a2, b2);
        assert(a =~= b) by {
            assert forall|i: int| 0 <= i < a.len() implies a[i] == b[i] by {
                if i > 0 {
                    assert(a[i] == a2[i - 1]);
                    assert(b[i] == b2[i - 1]);
                }
            }
        }
    }
}

} // verus!
