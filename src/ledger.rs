//! The ledger of client accounts and the five transaction handlers.

use rand::Rng;
use std::collections::HashMap;
use vstd::prelude::*;
use crate::record::{Record, TxKind};

verus! {

/// The mathematical state of one client's account.
pub struct Account {
    pub history: Seq<Record>,
    pub available: int,
    pub held: int,
    pub total: int,
    pub locked: bool,
}

/// An account as it is created on a client's first deposit or withdrawal.
pub open spec fn fresh_account() -> Account {
    Account { history: Seq::empty(), available: 0, held: 0, total: 0, locked: false }
}

/// A balance must stay within the range of `i64`; a change that would leave
/// it is refused and leaves the balances as they were.
pub open spec fn fits(x: int) -> bool {
    i64::MIN <= x <= i64::MAX
}

/// Whether `r` is the transaction `tx` that a lookup is after; with
/// `skip_disputes`, a dispute record never is.
pub open spec fn is_target(r: Record, tx: u32, skip_disputes: bool) -> bool {
    r.tx == tx && !(skip_disputes && r.kind == TxKind::Dispute)
}

/// The first record of `h`, in history order, that is the transaction `tx`.
pub open spec fn find_tx(h: Seq<Record>, tx: u32, skip_disputes: bool) -> Option<Record>
    decreases h.len(),
{
    if h.len() == 0 {
        None
    } else if is_target(h[0], tx, skip_disputes) {
        Some(h[0])
    } else {
        find_tx(h.drop_first(), tx, skip_disputes)
    }
}

/// A deposit on an unlocked account: the amount, where present and where the
/// sums fit, goes to available and total funds; the record joins the history.
pub open spec fn credit(a: Account, r: Record) -> Account {
    let b = match r.amount {
        Some(x) => if fits(a.available + x) && fits(a.total + x) {
            Account { available: a.available + x, total: a.total + x, ..a }
        } else {
            a
        },
        None => a,
    };
    Account { history: b.history.push(r), ..b }
}

/// A withdrawal on an unlocked account: the amount, where present and not more
/// than the available funds, leaves available and total funds; the record
/// joins the history either way.
pub open spec fn debit(a: Account, r: Record) -> Account {
    let b = match r.amount {
        Some(x) => if x <= a.available && fits(a.available - x) && fits(a.total - x) {
            Account { available: a.available - x, total: a.total - x, ..a }
        } else {
            a
        },
        None => a,
    };
    Account { history: b.history.push(r), ..b }
}

/// A dispute on an unlocked account whose history holds the transaction:
/// its amount moves from available to held funds.
pub open spec fn hold(a: Account, r: Record) -> Account
    recommends
        find_tx(a.history, r.tx, false) is Some,
{
    let t = find_tx(a.history, r.tx, false)->Some_0;
    let b = match t.amount {
        Some(x) => if fits(a.available - x) && fits(a.held + x) {
            Account { available: a.available - x, held: a.held + x, ..a }
        } else {
            a
        },
        None => a,
    };
    Account { history: b.history.push(r), ..b }
}

/// A resolve on an unlocked account whose history holds the transaction (not
/// counting dispute records): its amount moves from held back to available.
pub open spec fn release(a: Account, r: Record) -> Account
    recommends
        find_tx(a.history, r.tx, true) is Some,
{
    let t = find_tx(a.history, r.tx, true)->Some_0;
    let b = match t.amount {
        Some(x) => if fits(a.available + x) && fits(a.held - x) {
            Account { available: a.available + x, held: a.held - x, ..a }
        } else {
            a
        },
        None => a,
    };
    Account { history: b.history.push(r), ..b }
}

/// A chargeback on an unlocked account whose history holds the transaction:
/// its amount leaves held and total funds, and the account is locked. The
/// chargeback record does not join the history.
pub open spec fn reverse(a: Account, r: Record) -> Account
    recommends
        find_tx(a.history, r.tx, false) is Some,
{
    let t = find_tx(a.history, r.tx, false)->Some_0;
    let b = match t.amount {
        Some(x) => if fits(a.total - x) && fits(a.held - x) {
            Account { total: a.total - x, held: a.held - x, ..a }
        } else {
            a
        },
        None => a,
    };
    Account { locked: true, ..b }
}

/// The ledger after a deposit record.
pub open spec fn deposit_effect(m: Map<u16, Account>, r: Record) -> Map<u16, Account> {
    match r.client {
        None => m,
        Some(id) => if !m.contains_key(id) {
            m.insert(id, credit(fresh_account(), r))
        } else if m[id].locked {
            m
        } else {
            m.insert(id, credit(m[id], r))
        },
    }
}

/// The ledger after a withdrawal record. A client without an account gets a
/// fresh one that records the withdrawal and moves no funds.
pub open spec fn withdrawal_effect(m: Map<u16, Account>, r: Record) -> Map<u16, Account> {
    match r.client {
        None => m,
        Some(id) => if !m.contains_key(id) {
            m.insert(id, Account { history: seq![r], ..fresh_account() })
        } else if m[id].locked {
            m
        } else {
            m.insert(id, debit(m[id], r))
        },
    }
}

/// The ledger after a dispute record.
pub open spec fn dispute_effect(m: Map<u16, Account>, r: Record) -> Map<u16, Account> {
    match r.client {
        None => m,
        Some(id) => if m.contains_key(id) && !m[id].locked && find_tx(
            m[id].history,
            r.tx,
            false,
        ) is Some {
            m.insert(id, hold(m[id], r))
        } else {
            m
        },
    }
}

/// The ledger after a resolve record.
pub open spec fn resolve_effect(m: Map<u16, Account>, r: Record) -> Map<u16, Account> {
    match r.client {
        None => m,
        Some(id) => if m.contains_key(id) && !m[id].locked && find_tx(
            m[id].history,
            r.tx,
            true,
        ) is Some {
            m.insert(id, release(m[id], r))
        } else {
            m
        },
    }
}

/// The ledger after a chargeback record.
pub open spec fn chargeback_effect(m: Map<u16, Account>, r: Record) -> Map<u16, Account> {
    match r.client {
        None => m,
        Some(id) => if m.contains_key(id) && !m[id].locked && find_tx(
            m[id].history,
            r.tx,
            false,
        ) is Some {
            m.insert(id, reverse(m[id], r))
        } else {
            m
        },
    }
}

/// The ledger after one record, dispatched by its kind; a record of unknown
/// kind leaves it as it was.
pub open spec fn step(m: Map<u16, Account>, r: Record) -> Map<u16, Account> {
    match r.kind {
        TxKind::Deposit => deposit_effect(m, r),
        TxKind::Withdrawal => withdrawal_effect(m, r),
        TxKind::Dispute => dispute_effect(m, r),
        TxKind::Resolve => resolve_effect(m, r),
        TxKind::Chargeback => chargeback_effect(m, r),
        TxKind::Unknown => m,
    }
}

/// The ledger after the records of `rs`, in order.
pub open spec fn replay(m: Map<u16, Account>, rs: Seq<Record>) -> Map<u16, Account>
    decreases rs.len(),
{
    if rs.len() == 0 {
        m
    } else {
        step(replay(m, rs.drop_last()), rs.last())
    }
}

/// The state of one client's account.
pub struct ClientInfo {
    pub history: Vec<Record>,
    pub available_funds: i64,
    pub held_funds: i64,
    pub total_funds: i64,
    pub locked: bool,
}

impl View for ClientInfo {
    type V = Account;

    open spec fn view(&self) -> Account {
        Account {
            history: self.history@,
            available: self.available_funds as int,
            held: self.held_funds as int,
            total: self.total_funds as int,
            locked: self.locked,
        }
    }
}

/// `a + b` where it fits in an `i64`.
fn checked_sum(a: i64, b: i64) -> (r: Option<i64>)
    ensures
        r == (if fits(a + b) { Some((a + b) as i64) } else { None::<i64> }),
{
    let s: i128 = a as i128 + b as i128;
    if i64::MIN as i128 <= s && s <= i64::MAX as i128 {
        Some(s as i64)
    } else {
        None
    }
}

/// `a - b` where it fits in an `i64`.
fn checked_difference(a: i64, b: i64) -> (r: Option<i64>)
    ensures
        r == (if fits(a - b) { Some((a - b) as i64) } else { None::<i64> }),
{
    let s: i128 = a as i128 - b as i128;
    if i64::MIN as i128 <= s && s <= i64::MAX as i128 {
        Some(s as i64)
    } else {
        None
    }
}

/// The first record of `history` that is the transaction `tx`; with
/// `skip_disputes`, dispute records are passed over.
pub fn find_in_history(history: &Vec<Record>, tx: u32, skip_disputes: bool) -> (r: Option<Record>)
    ensures
        r == find_tx(history@, tx, skip_disputes),
{
    let mut i: usize = 0;
    assert(history@.subrange(0, history@.len() as int) =~= history@);
    while i < history.len()
        invariant
            i <= history@.len(),
            find_tx(history@, tx, skip_disputes) == find_tx(
                history@.subrange(i as int, history@.len() as int),
                tx,
                skip_disputes,
            ),
        decreases history@.len() - i,
    {
        let r = history[i];
        let ghost rest = history@.subrange(i as int, history@.len() as int);
        assert(rest.drop_first() =~= history@.subrange(i + 1, history@.len() as int));
        if r.tx == tx && !(skip_disputes && r.kind == TxKind::Dispute) {
            return Some(r);
        }
        i += 1;
    }
    assert(history@.subrange(i as int, history@.len() as int).len() == 0);
    None
}

impl ClientInfo {
    /// An account with no history, zero balances, unlocked.
    pub fn new() -> (c: ClientInfo)
        ensures
            c@ == fresh_account(),
    {
        ClientInfo {
            history: Vec::new(),
            available_funds: 0,
            held_funds: 0,
            total_funds: 0,
            locked: false,
        }
    }

    /// Applies a deposit to this account.
    pub fn credit(&mut self, r: Record)
        ensures
            final(self)@ == credit(old(self)@, r),
    {
        if let Some(x) = r.amount {
            match (checked_sum(self.available_funds, x), checked_sum(self.total_funds, x)) {
                (Some(a), Some(t)) => {
                    self.available_funds = a;
                    self.total_funds = t;
                },
                _ => {},
            }
        }
        self.history.push(r);
    }

    /// Applies a withdrawal to this account.
    pub fn debit(&mut self, r: Record)
        ensures
            final(self)@ == debit(old(self)@, r),
    {
        if let Some(x) = r.amount {
            if x <= self.available_funds {
                match (
                    checked_difference(self.available_funds, x),
                    checked_difference(self.total_funds, x),
                ) {
                    (Some(a), Some(t)) => {
                        self.available_funds = a;
                        self.total_funds = t;
                    },
                    _ => {},
                }
            }
        }
        self.history.push(r);
    }

    /// Applies a dispute of the transaction `t` of this account's history.
    pub fn hold(&mut self, r: Record, t: Record)
        requires
            find_tx(old(self).history@, r.tx, false) == Some(t),
        ensures
            final(self)@ == hold(old(self)@, r),
    {
        if let Some(x) = t.amount {
            match (checked_difference(self.available_funds, x), checked_sum(self.held_funds, x)) {
                (Some(a), Some(h)) => {
                    self.available_funds = a;
                    self.held_funds = h;
                },
                _ => {},
            }
        }
        self.history.push(r);
    }

    /// Applies a resolve of the transaction `t` of this account's history.
    pub fn release(&mut self, r: Record, t: Record)
        requires
            find_tx(old(self).history@, r.tx, true) == Some(t),
        ensures
            final(self)@ == release(old(self)@, r),
    {
        if let Some(x) = t.amount {
            match (checked_sum(self.available_funds, x), checked_difference(self.held_funds, x)) {
                (Some(a), Some(h)) => {
                    self.available_funds = a;
                    self.held_funds = h;
                },
                _ => {},
            }
        }
        self.history.push(r);
    }

    /// Applies a chargeback of the transaction `t` of this account's history.
    pub fn reverse(&mut self, r: Record, t: Record)
        requires
            find_tx(old(self).history@, r.tx, false) == Some(t),
        ensures
            final(self)@ == reverse(old(self)@, r),
    {
        if let Some(x) = t.amount {
            match (checked_difference(self.total_funds, x), checked_difference(self.held_funds, x)) {
                (Some(tt), Some(h)) => {
                    self.total_funds = tt;
                    self.held_funds = h;
                },
                _ => {},
            }
        }
        self.locked = true;
    }
}

/// What a record did, or why it changed no balance.
#[derive(Clone, Copy, Debug, PartialEq, Eq, Structural)]
pub enum Notice {
    /// The record moved funds or locked the account as its kind says.
    Applied,
    /// The record's kind is unknown; it was dropped.
    UnknownKind,
    /// The record has no client id; it was ignored.
    NoClient,
    /// A dispute, resolve or chargeback for a client without an account.
    NoAccount,
    /// A withdrawal by a client without an account: an empty account was
    /// opened for it.
    FirstWithdrawal,
    /// The client's account is locked.
    Locked,
    /// The referenced transaction is not in the client's history.
    TxNotFound,
    /// The record, or the transaction that it references, has no amount.
    MissingAmount,
    /// A withdrawal of more than the available funds.
    Overdraft,
    /// The new balances would not fit in an `i64`.
    OutOfRange,
}

/// A move of funds is applied where both new balances fit.
pub open spec fn range_notice(ok: bool) -> Notice {
    if ok {
        Notice::Applied
    } else {
        Notice::OutOfRange
    }
}

/// What a record does to an unlocked account `a`.
pub open spec fn account_notice(a: Account, r: Record) -> Notice {
    match r.kind {
        TxKind::Deposit => match r.amount {
            None => Notice::MissingAmount,
            Some(x) => range_notice(fits(a.available + x) && fits(a.total + x)),
        },
        TxKind::Withdrawal => match r.amount {
            None => Notice::MissingAmount,
            Some(x) => if x > a.available {
                Notice::Overdraft
            } else {
                range_notice(fits(a.available - x) && fits(a.total - x))
            },
        },
        TxKind::Dispute => match find_tx(a.history, r.tx, false) {
            None => Notice::TxNotFound,
            Some(t) => match t.amount {
                None => Notice::MissingAmount,
                Some(x) => range_notice(fits(a.available - x) && fits(a.held + x)),
            },
        },
        TxKind::Resolve => match find_tx(a.history, r.tx, true) {
            None => Notice::TxNotFound,
            Some(t) => match t.amount {
                None => Notice::MissingAmount,
                Some(x) => range_notice(fits(a.available + x) && fits(a.held - x)),
            },
        },
        TxKind::Chargeback => match find_tx(a.history, r.tx, false) {
            None => Notice::TxNotFound,
            Some(t) => match t.amount {
                None => Notice::MissingAmount,
                Some(x) => range_notice(fits(a.total - x) && fits(a.held - x)),
            },
        },
        TxKind::Unknown => Notice::UnknownKind,
    }
}

/// What the record `r` does to the ledger `m`.
pub open spec fn notice_of(m: Map<u16, Account>, r: Record) -> Notice {
    if r.kind == TxKind::Unknown {
        Notice::UnknownKind
    } else {
        match r.client {
            None => Notice::NoClient,
            Some(id) => if !m.contains_key(id) {
                match r.kind {
                    TxKind::Deposit => if r.amount is None {
                        Notice::MissingAmount
                    } else {
                        Notice::Applied
                    },
                    TxKind::Withdrawal => Notice::FirstWithdrawal,
                    _ => Notice::NoAccount,
                }
            } else if m[id].locked {
                Notice::Locked
            } else {
                account_notice(m[id], r)
            },
        }
    }
}

/// Every client id has an account: no id is left to hand out.
pub open spec fn is_full(m: Map<u16, Account>) -> bool {
    forall|id: u16| m.contains_key(id)
}

/// `r` is `rs` with a client id filled in where one was missing, and with
/// no other change.
pub open spec fn fills(r: Record, rs: Record) -> bool {
    &&& r.kind == rs.kind
    &&& r.tx == rs.tx
    &&& r.amount == rs.amount
    &&& rs.client is Some ==> r.client == rs.client
}

/// What one row of the output says of a client's account.
#[derive(Clone, Copy, Debug, PartialEq, Eq, Structural)]
pub struct OutputInfo {
    pub client: u16,
    pub available: i64,
    pub held: i64,
    pub total: i64,
    pub locked: bool,
}

/// The output row of client `id` with account `a`.
pub open spec fn output_of(id: u16, a: Account) -> OutputInfo {
    OutputInfo {
        client: id,
        available: a.available as i64,
        held: a.held as i64,
        total: a.total as i64,
        locked: a.locked,
    }
}

/// How many random draws the allocator makes before it scans for a free id.
const RANDOM_DRAWS: u32 = 4096;

/// Relies on rand::thread_rng and rand::Rng::gen: a randomly drawn `u16`, of
/// which nothing is promised.
#[verifier::external_body]
fn gen_random_id() -> (r: u16) {
    rand::thread_rng().gen()
}

/// The accounts of all clients seen so far, keyed by client id.
pub struct Ledger {
    accounts: HashMap<u16, ClientInfo>,
    /// The client ids in the order of their first account creation.
    order: Vec<u16>,
}

impl Ledger {
    /// The account of each client.
    pub closed spec fn view(&self) -> Map<u16, Account> {
        Map::new(|k: u16| self.accounts@.contains_key(k), |k: u16| self.accounts@[k]@)
    }

    /// The client ids in the order in which their accounts were created.
    pub closed spec fn ids(&self) -> Seq<u16> {
        self.order@
    }

    /// The ids list each client with an account exactly once.
    pub closed spec fn wf(&self) -> bool {
        &&& self.order@.no_duplicates()
        &&& forall|i: int| 0 <= i < self.order@.len() ==> self.accounts@.contains_key(#[trigger] self.order@[i])
        &&& forall|k: u16| self.accounts@.contains_key(k) ==> #[trigger] self.order@.contains(k)
    }

    /// An empty ledger.
    pub fn new() -> (l: Ledger)
        ensures
            l.wf(),
            l@ == Map::<u16, Account>::empty(),
    {
        let l = Ledger { accounts: HashMap::new(), order: Vec::new() };
        assert(l@ =~= Map::<u16, Account>::empty());
        l
    }

    /// Whether `id` has an account.
    pub fn contains(&self, id: u16) -> (r: bool)
        ensures
            r == self@.contains_key(id),
    {
        self.accounts.contains_key(&id)
    }

    /// The output row of client `id`, where it has an account.
    pub fn balance_of(&self, id: u16) -> (r: Option<OutputInfo>)
        ensures
            r == (if self@.contains_key(id) {
                Some(output_of(id, self@[id]))
            } else {
                None::<OutputInfo>
            }),
    {
        match self.accounts.get(&id) {
            Some(info) => Some(
                OutputInfo {
                    client: id,
                    available: info.available_funds,
                    held: info.held_funds,
                    total: info.total_funds,
                    locked: info.locked,
                },
            ),
            None => None,
        }
    }

    /// What the record would do to this ledger, or why it would change no
    /// balance.
    pub fn notice(&self, r: Record) -> (n: Notice)
        ensures
            n == notice_of(self@, r),
    {
        if r.kind == TxKind::Unknown {
            return Notice::UnknownKind;
        }
        let id = match r.client {
            None => {
                return Notice::NoClient;
            },
            Some(id) => id,
        };
        let info = match self.accounts.get(&id) {
            None => {
                return match r.kind {
                    TxKind::Deposit => if r.amount.is_none() {
                        Notice::MissingAmount
                    } else {
                        Notice::Applied
                    },
                    TxKind::Withdrawal => Notice::FirstWithdrawal,
                    _ => Notice::NoAccount,
                };
            },
            Some(info) => info,
        };
        assert(self@[id] == info@);
        if info.locked {
            return Notice::Locked;
        }
        match r.kind {
            TxKind::Deposit => match r.amount {
                None => Notice::MissingAmount,
                Some(x) => match (
                    checked_sum(info.available_funds, x),
                    checked_sum(info.total_funds, x),
                ) {
                    (Some(_), Some(_)) => Notice::Applied,
                    _ => Notice::OutOfRange,
                },
            },
            TxKind::Withdrawal => match r.amount {
                None => Notice::MissingAmount,
                Some(x) => if x > info.available_funds {
                    Notice::Overdraft
                } else {
                    match (
                        checked_difference(info.available_funds, x),
                        checked_difference(info.total_funds, x),
                    ) {
                        (Some(_), Some(_)) => Notice::Applied,
                        _ => Notice::OutOfRange,
                    }
                },
            },
            TxKind::Dispute => match find_in_history(&info.history, r.tx, false) {
                None => Notice::TxNotFound,
                Some(t) => match t.amount {
                    None => Notice::MissingAmount,
                    Some(x) => match (
                        checked_difference(info.available_funds, x),
                        checked_sum(info.held_funds, x),
                    ) {
                        (Some(_), Some(_)) => Notice::Applied,
                        _ => Notice::OutOfRange,
                    },
                },
            },
            TxKind::Resolve => match find_in_history(&info.history, r.tx, true) {
                None => Notice::TxNotFound,
                Some(t) => match t.amount {
                    None => Notice::MissingAmount,
                    Some(x) => match (
                        checked_sum(info.available_funds, x),
                        checked_difference(info.held_funds, x),
                    ) {
                        (Some(_), Some(_)) => Notice::Applied,
                        _ => Notice::OutOfRange,
                    },
                },
            },
            TxKind::Chargeback => match find_in_history(&info.history, r.tx, false) {
                None => Notice::TxNotFound,
                Some(t) => match t.amount {
                    None => Notice::MissingAmount,
                    Some(x) => match (
                        checked_difference(info.total_funds, x),
                        checked_difference(info.held_funds, x),
                    ) {
                        (Some(_), Some(_)) => Notice::Applied,
                        _ => Notice::OutOfRange,
                    },
                },
            },
            TxKind::Unknown => Notice::UnknownKind,
        }
    }

    /// Takes the account of `id` out of the map, to be put back by `put_back`.
    fn take(&mut self, id: u16) -> (r: Option<ClientInfo>)
        ensures
            final(self).order == old(self).order,
            final(self).accounts@ == old(self).accounts@.remove(id),
            match r {
                Some(c) => old(self).accounts@.contains_key(id) && c == old(self).accounts@[id],
                None => !old(self).accounts@.contains_key(id),
            },
    {
        self.accounts.remove(&id)
    }

    /// Puts the account of a client that had one back, with its new state:
    /// the ledger is well formed but for the account of `id`, taken out.
    fn put_back(&mut self, id: u16, c: ClientInfo)
        requires
            forall|i: int| 0 <= i < old(self).order@.len() ==> (#[trigger] old(self).order@[i] == id
                || old(self).accounts@.contains_key(old(self).order@[i])),
            forall|k: u16| #[trigger] old(self).accounts@.contains_key(k) ==> old(self).order@.contains(k),
            old(self).order@.no_duplicates(),
            old(self).order@.contains(id),
        ensures
            final(self).wf(),
            final(self)@ == old(self)@.insert(id, c@),
            final(self).order == old(self).order,
    {
        self.accounts.insert(id, c);
        assert(self@ =~= old(self)@.insert(id, c@));
    }

    /// Creates the account of a client that had none.
    fn create(&mut self, id: u16, c: ClientInfo)
        requires
            old(self).wf(),
            !old(self)@.contains_key(id),
        ensures
            final(self).wf(),
            final(self)@ == old(self)@.insert(id, c@),
            final(self).order@ == old(self).order@.push(id),
    {
        self.accounts.insert(id, c);
        self.order.push(id);
        assert forall|i: int| 0 <= i < self.order@.len() implies self.accounts@.contains_key(
            #[trigger] self.order@[i],
        ) by {
            if i < old(self).order@.len() {
                assert(old(self).accounts@.contains_key(old(self).order@[i]));
            }
        }
        assert forall|k: u16| self.accounts@.contains_key(k) implies #[trigger] self.order@.contains(k) by {
            if k != id {
                assert(old(self).order@.contains(k));
                let j = choose|j: int| 0 <= j < old(self).order@.len() && old(self).order@[j] == k;
                assert(self.order@[j] == k);
            } else {
                assert(self.order@[self.order@.len() - 1] == id);
            }
        }
        assert(self@ =~= old(self)@.insert(id, c@));
    }

    /// Applies a deposit record.
    pub fn handle_deposit(&mut self, record: Record)
        requires
            old(self).wf(),
        ensures
            final(self).wf(),
            final(self)@ == deposit_effect(old(self)@, record),
    {
        if let Some(id) = record.client {
            match self.take(id) {
                Some(mut info) => {
                    assert(old(self)@[id] == info@);
                    if !info.locked {
                        info.credit(record);
                    }
                    self.put_back(id, info);
                    assert(self@ =~= deposit_effect(old(self)@, record));
                },
                None => {
                    let mut info = ClientInfo::new();
                    info.credit(record);
                    self.create(id, info);
                },
            }
        }
    }

    /// Applies a withdrawal record.
    pub fn handle_withdrawal(&mut self, record: Record)
        requires
            old(self).wf(),
        ensures
            final(self).wf(),
            final(self)@ == withdrawal_effect(old(self)@, record),
    {
        if let Some(id) = record.client {
            match self.take(id) {
                Some(mut info) => {
                    assert(old(self)@[id] == info@);
                    if !info.locked {
                        info.debit(record);
                    }
                    self.put_back(id, info);
                    assert(self@ =~= withdrawal_effect(old(self)@, record));
                },
                None => {
                    let mut info = ClientInfo::new();
                    info.history.push(record);
                    assert(info@ == Account { history: seq![record], ..fresh_account() }) by {
                        assert(info.history@ =~= seq![record]);
                    }
                    self.create(id, info);
                },
            }
        }
    }

    /// Applies a dispute record.
    pub fn handle_dispute(&mut self, record: Record)
        requires
            old(self).wf(),
        ensures
            final(self).wf(),
            final(self)@ == dispute_effect(old(self)@, record),
    {
        if let Some(id) = record.client {
            match self.take(id) {
                Some(mut info) => {
                    assert(old(self)@[id] == info@);
                    if !info.locked {
                        if let Some(t) = find_in_history(&info.history, record.tx, false) {
                            info.hold(record, t);
                        }
                    }
                    self.put_back(id, info);
                    assert(self@ =~= dispute_effect(old(self)@, record));
                },
                None => {
                    assert(self@ =~= old(self)@);
                },
            }
        }
    }

    /// Applies a resolve record.
    pub fn handle_resolve(&mut self, record: Record)
        requires
            old(self).wf(),
        ensures
            final(self).wf(),
            final(self)@ == resolve_effect(old(self)@, record),
    {
        if let Some(id) = record.client {
            match self.take(id) {
                Some(mut info) => {
                    assert(old(self)@[id] == info@);
                    if !info.locked {
                        if let Some(t) = find_in_history(&info.history, record.tx, true) {
                            info.release(record, t);
                        }
                    }
                    self.put_back(id, info);
                    assert(self@ =~= resolve_effect(old(self)@, record));
                },
                None => {
                    assert(self@ =~= old(self)@);
                },
            }
        }
    }

    /// Applies a chargeback record.
    pub fn handle_chargeback(&mut self, record: Record)
        requires
            old(self).wf(),
        ensures
            final(self).wf(),
            final(self)@ == chargeback_effect(old(self)@, record),
    {
        if let Some(id) = record.client {
            match self.take(id) {
                Some(mut info) => {
                    assert(old(self)@[id] == info@);
                    if !info.locked {
                        if let Some(t) = find_in_history(&info.history, record.tx, false) {
                            info.reverse(record, t);
                        }
                    }
                    self.put_back(id, info);
                    assert(self@ =~= chargeback_effect(old(self)@, record));
                },
                None => {
                    assert(self@ =~= old(self)@);
                },
            }
        }
    }

    /// An id that no account has yet, drawn at random; after many colliding
    /// draws, the smallest free id. `None` only where every id is taken.
    pub fn generate_new_client_id(&self) -> (r: Option<u16>)
        ensures
            match r {
                Some(id) => !self@.contains_key(id),
                None => is_full(self@),
            },
    {
        let mut draws: u32 = 0;
        while draws < RANDOM_DRAWS
            decreases RANDOM_DRAWS - draws,
        {
            let id = gen_random_id();
            if !self.accounts.contains_key(&id) {
                return Some(id);
            }
            draws += 1;
        }
        let mut c: u32 = 0;
        while c <= 0xffff
            invariant
                c <= 0x10000,
                forall|id: u16| (id as u32) < c ==> #[trigger] self@.contains_key(id),
            decreases 0x10000 - c,
        {
            let id = c as u16;
            if !self.accounts.contains_key(&id) {
                return Some(id);
            }
            c += 1;
        }
        None
    }

    /// Applies a record whose client id is settled, dispatched by its kind.
    pub fn handle_record(&mut self, record: Record)
        requires
            old(self).wf(),
        ensures
            final(self).wf(),
            final(self)@ == step(old(self)@, record),
    {
        match record.kind {
            TxKind::Deposit => self.handle_deposit(record),
            TxKind::Withdrawal => self.handle_withdrawal(record),
            TxKind::Dispute => self.handle_dispute(record),
            TxKind::Resolve => self.handle_resolve(record),
            TxKind::Chargeback => self.handle_chargeback(record),
            TxKind::Unknown => {},
        }
    }

    /// Applies a record. A record without a client id is given one that no
    /// account has; it keeps none only where every id is taken, and then
    /// changes nothing. Returns the record as it was applied, and what it did.
    pub fn process_record(&mut self, record: Record) -> (out: (Record, Notice))
        requires
            old(self).wf(),
        ensures
            final(self).wf(),
            fills(out.0, record),
            record.client is None ==> match out.0.client {
                Some(id) => !old(self)@.contains_key(id),
                None => is_full(old(self)@),
            },
            final(self)@ == step(old(self)@, out.0),
            out.1 == notice_of(old(self)@, out.0),
    {
        let mut applied = record;
        if record.client.is_none() {
            applied.client = self.generate_new_client_id();
        }
        let n = self.notice(applied);
        self.handle_record(applied);
        (applied, n)
    }

    /// Applies the records in order, as `process_record` does each. Returns
    /// the records as they were applied.
    pub fn process_all(&mut self, records: &Vec<Record>) -> (applied: Vec<Record>)
        requires
            old(self).wf(),
        ensures
            final(self).wf(),
            applied@.len() == records@.len(),
            forall|i: int| 0 <= i < records@.len() ==> fills(#[trigger] applied@[i], records@[i]),
            final(self)@ == replay(old(self)@, applied@),
    {
        let mut applied: Vec<Record> = Vec::new();
        let mut i: usize = 0;
        while i < records.len()
            invariant
                self.wf(),
                i <= records@.len(),
                applied@.len() == i,
                forall|j: int| 0 <= j < i ==> fills(#[trigger] applied@[j], records@[j]),
                self@ == replay(old(self)@, applied@),
            decreases records@.len() - i,
        {
            let ghost before = applied@;
            let (a, _) = self.process_record(records[i]);
            applied.push(a);
            assert(applied@.drop_last() =~= before);
            i += 1;
        }
        applied
    }

    /// One output row per client, in the order in which the accounts were
    /// created.
    pub fn snapshot(&self) -> (rows: Vec<OutputInfo>)
        requires
            self.wf(),
        ensures
            rows@.len() == self.ids().len(),
            forall|i: int| 0 <= i < rows@.len() ==> #[trigger] rows@[i] == output_of(
                self.ids()[i],
                self@[self.ids()[i]],
            ),
            self.ids().no_duplicates(),
            forall|id: u16| self@.contains_key(id) <==> self.ids().contains(id),
    {
        let mut rows: Vec<OutputInfo> = Vec::new();
        let mut i: usize = 0;
        while i < self.order.len()
            invariant
                self.wf(),
                i <= self.order@.len(),
                rows@.len() == i,
                forall|j: int| 0 <= j < i ==> #[trigger] rows@[j] == output_of(
                    self.order@[j],
                    self@[self.order@[j]],
                ),
            decreases self.order@.len() - i,
        {
            let id = self.order[i];
            assert(self.accounts@.contains_key(self.order@[i as int]));
            let info = self.accounts.get(&id).unwrap();
            rows.push(
                OutputInfo {
                    client: id,
                    available: info.available_funds,
                    held: info.held_funds,
                    total: info.total_funds,
                    locked: info.locked,
                },
            );
            i += 1;
        }
        assert forall|id: u16| self.ids().contains(id) implies self@.contains_key(id) by {
            let j = choose|j: int| 0 <= j < self.order@.len() && self.order@[j] == id;
            assert(self.accounts@.contains_key(self.order@[j]));
        }
        rows
    }
}

} // verus!
