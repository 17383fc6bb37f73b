//! Laws of the ledger, proved over the spec functions that the handlers'
//! contracts use.

use vstd::prelude::*;
use crate::ledger::{Account, Notice, find_tx, fits, fills, notice_of, replay, step};
use crate::record::{Record, TxKind};

verus! {

/// Two deposits, of `a` then `b`, for a client without an account leave it
/// with `a + b` available and in total, nothing held, unlocked.
pub proof fn lemma_deposits_add(m: Map<u16, Account>, r1: Record, r2: Record, id: u16, a: i64, b: i64)
    requires
        !m.contains_key(id),
        r1.kind == TxKind::Deposit,
        r2.kind == TxKind::Deposit,
        r1.client == Some(id),
        r2.client == Some(id),
        r1.amount == Some(a),
        r2.amount == Some(b),
        fits(a + b),
    ensures
        ({
            let acc = step(step(m, r1), r2)[id];
            &&& step(step(m, r1), r2).contains_key(id)
            &&& acc.available == a + b
            &&& acc.total == a + b
            &&& acc.held == 0
            &&& !acc.locked
        }),
{
}

/// A withdrawal from an unlocked account takes the amount from available and
/// total funds where it is not more than the available funds (and the new
/// balances fit), and leaves them as they were where it is more.
pub proof fn lemma_withdrawal_respects_available(m: Map<u16, Account>, r: Record, id: u16, x: i64)
    requires
        m.contains_key(id),
        !m[id].locked,
        r.kind == TxKind::Withdrawal,
        r.client == Some(id),
        r.amount == Some(x),
    ensures
        ({
            let acc = step(m, r)[id];
            &&& x > m[id].available ==> acc.available == m[id].available && acc.total
                == m[id].total && acc.held == m[id].held
            &&& x <= m[id].available && fits(m[id].available - x) && fits(m[id].total - x)
                ==> acc.available == m[id].available - x && acc.total == m[id].total - x
                && acc.held == m[id].held
        }),
{
}

/// A dispute of a transaction of amount `x` in an unlocked account's history
/// moves `x` from available to held funds and leaves the total as it was.
pub proof fn lemma_dispute_holds(m: Map<u16, Account>, r: Record, id: u16, t: Record, x: i64)
    requires
        m.contains_key(id),
        !m[id].locked,
        r.kind == TxKind::Dispute,
        r.client == Some(id),
        find_tx(m[id].history, r.tx, false) == Some(t),
        t.amount == Some(x),
        fits(m[id].available - x),
        fits(m[id].held + x),
    ensures
        ({
            let acc = step(m, r)[id];
            &&& acc.available == m[id].available - x
            &&& acc.held == m[id].held + x
            &&& acc.total == m[id].total
            &&& !acc.locked
        }),
{
}

/// A resolve of a transaction of amount `x` in an unlocked account's history
/// (dispute records aside) moves `x` from held back to available funds and
/// leaves the total as it was.
pub proof fn lemma_resolve_releases(m: Map<u16, Account>, r: Record, id: u16, t: Record, x: i64)
    requires
        m.contains_key(id),
        !m[id].locked,
        r.kind == TxKind::Resolve,
        r.client == Some(id),
        find_tx(m[id].history, r.tx, true) == Some(t),
        t.amount == Some(x),
        fits(m[id].available + x),
        fits(m[id].held - x),
    ensures
        ({
            let acc = step(m, r)[id];
            &&& acc.available == m[id].available + x
            &&& acc.held == m[id].held - x
            &&& acc.total == m[id].total
            &&& !acc.locked
        }),
{
}

/// A dispute then a resolve of the same transaction give back the balances
/// that the account had before the dispute.
pub proof fn lemma_resolve_reverses_dispute(m: Map<u16, Account>, d: Record, r: Record, id: u16, x: i64)
    requires
        m.contains_key(id),
        !m[id].locked,
        d.kind == TxKind::Dispute,
        r.kind == TxKind::Resolve,
        d.client == Some(id),
        r.client == Some(id),
        d.tx == r.tx,
        fits(m[id].available),
        fits(m[id].held),
        find_tx(m[id].history, d.tx, false) == find_tx(m[id].history, d.tx, true),
        find_tx(m[id].history, d.tx, false) matches Some(t) && t.amount == Some(x),
        fits(m[id].available - x),
        fits(m[id].held + x),
    ensures
        ({
            let acc = step(step(m, d), r)[id];
            &&& acc.available == m[id].available
            &&& acc.held == m[id].held
            &&& acc.total == m[id].total
            &&& !acc.locked
        }),
{
    let t = find_tx(m[id].history, d.tx, false)->Some_0;
    let m1 = step(m, d);
    lemma_find_extends(m[id].history, d, d.tx, true);
    assert(find_tx(m1[id].history, r.tx, true) == Some(t));
}

/// Appending a record keeps the first match of a lookup that already had one.
pub proof fn lemma_find_extends(h: Seq<Record>, r: Record, tx: u32, skip_disputes: bool)
    requires
        find_tx(h, tx, skip_disputes) is Some,
    ensures
        find_tx(h.push(r), tx, skip_disputes) == find_tx(h, tx, skip_disputes),
    decreases h.len(),
{
    assert(h.len() > 0);
    if !crate::ledger::is_target(h[0], tx, skip_disputes) {
        assert(h.push(r).drop_first() =~= h.drop_first().push(r));
        lemma_find_extends(h.drop_first(), r, tx, skip_disputes);
    }
}

/// A chargeback of a transaction of amount `x` in an unlocked account's
/// history takes `x` from held and total funds and locks the account.
pub proof fn lemma_chargeback_locks(m: Map<u16, Account>, r: Record, id: u16, t: Record, x: i64)
    requires
        m.contains_key(id),
        !m[id].locked,
        r.kind == TxKind::Chargeback,
        r.client == Some(id),
        find_tx(m[id].history, r.tx, false) == Some(t),
        t.amount == Some(x),
        fits(m[id].total - x),
        fits(m[id].held - x),
    ensures
        ({
            let acc = step(m, r)[id];
            &&& acc.available == m[id].available
            &&& acc.held == m[id].held - x
            &&& acc.total == m[id].total - x
            &&& acc.locked
        }),
{
}

/// A locked account is never changed again: any record for its client leaves
/// the ledger as it was.
pub proof fn lemma_locked_is_frozen(m: Map<u16, Account>, r: Record, id: u16)
    requires
        m.contains_key(id),
        m[id].locked,
        r.client == Some(id),
    ensures
        step(m, r) == m,
{
}

/// A dispute, resolve or chargeback of a transaction that the client's
/// history does not hold, or for a client without an account, changes
/// nothing.
pub proof fn lemma_unknown_tx_is_noop(m: Map<u16, Account>, r: Record, id: u16)
    requires
        r.kind == TxKind::Dispute || r.kind == TxKind::Resolve || r.kind == TxKind::Chargeback,
        r.client == Some(id),
        m.contains_key(id) ==> forall|i: int|
            0 <= i < m[id].history.len() ==> (#[trigger] m[id].history[i]).tx != r.tx,
    ensures
        step(m, r) == m,
{
    if m.contains_key(id) {
        lemma_find_none(m[id].history, r.tx, false);
        lemma_find_none(m[id].history, r.tx, true);
    }
}

/// A lookup finds nothing in a history without the transaction.
pub proof fn lemma_find_none(h: Seq<Record>, tx: u32, skip_disputes: bool)
    requires
        forall|i: int| 0 <= i < h.len() ==> (#[trigger] h[i]).tx != tx,
    ensures
        find_tx(h, tx, skip_disputes) is None,
    decreases h.len(),
{
    if h.len() > 0 {
        assert(h[0].tx != tx);
        assert forall|i: int| 0 <= i < h.drop_first().len() implies (#[trigger] h.drop_first()[i]).tx
            != tx by {
            assert(h.drop_first()[i] == h[i + 1]);
        }
        lemma_find_none(h.drop_first(), tx, skip_disputes);
    }
}

/// A record that is refused (unknown kind, no client id, no account to act
/// on, a locked account, a transaction that is not in the history) leaves the
/// ledger as it was.
pub proof fn lemma_refused_is_noop(m: Map<u16, Account>, r: Record)
    requires
        notice_of(m, r) == Notice::UnknownKind || notice_of(m, r) == Notice::NoClient
            || notice_of(m, r) == Notice::NoAccount || notice_of(m, r) == Notice::Locked
            || notice_of(m, r) == Notice::TxNotFound,
    ensures
        step(m, r) == m,
{
}

/// A record of unknown kind changes nothing.
pub proof fn lemma_unknown_kind_is_dropped(m: Map<u16, Account>, r: Record)
    requires
        r.kind == TxKind::Unknown,
    ensures
        step(m, r) == m,
{
}

/// A deposit or withdrawal creates its client's account, so an id given to
/// one record without a client, fresh at the time, and an id later given to
/// the next such record, fresh then, differ; and the second was fresh before
/// the first record too.
pub proof fn lemma_fresh_ids_differ(m: Map<u16, Account>, r: Record, id1: u16, id2: u16)
    requires
        !m.contains_key(id1),
        r.client == Some(id1),
        r.kind == TxKind::Deposit || r.kind == TxKind::Withdrawal,
        !step(m, r).contains_key(id2),
    ensures
        id1 != id2,
        !m.contains_key(id2),
{
    assert(step(m, r).contains_key(id1));
}

/// Two runs over the same records, each filling in the missing client ids,
/// end in the same ledger where every record carries its client id.
pub proof fn lemma_replay_deterministic(
    m: Map<u16, Account>,
    records: Seq<Record>,
    run1: Seq<Record>,
    run2: Seq<Record>,
)
    requires
        forall|i: int| 0 <= i < records.len() ==> (#[trigger] records[i]).client is Some,
        run1.len() == records.len(),
        run2.len() == records.len(),
        forall|i: int| 0 <= i < records.len() ==> fills(#[trigger] run1[i], records[i]),
        forall|i: int| 0 <= i < records.len() ==> fills(#[trigger] run2[i], records[i]),
    ensures
        replay(m, run1) == replay(m, run2),
        run1 == records,
{
    assert(run1 =~= records);
    assert(run2 =~= records);
}

} // verus!
