use vstd::prelude::*;

use crate::account::AccountState;
use crate::amount::Amount;
use crate::crypto::PublicIdentity;
use crate::ids::{AccountId, AssetId, TicketId, TxId};
use crate::ledger::{
    after_genesis, genesis_refusal, genesis_tx_bytes, lemma_genesis_account,
    lemma_genesis_preserves_wf, lemma_open_accepted, lemma_open_preserves_wf,
    lemma_open_then_read, lemma_opened_account, lemma_opened_keeps, lemma_opened_members,
    lemma_register_preserves_wf, lemma_registered_account, lemma_settle_accepted,
    lemma_settle_preserves_wf, lemma_settle_then_read, lemma_settled_account, lemma_settled_keeps,
    lemma_settled_members, open_refusal, opened, opened_ticket, register_refusal, registered,
    settle_refusal, settled, state_digest_bytes, LedgerView, TicketState,
};
use crate::table::{fits_at, lemma_fits_unique};
use crate::release::{release_tx_bytes, SignedRelease};
use crate::ticket::{ticket_tx_bytes, SignedTicket};

verus! {

broadcast use crate::ids::group_id_views;

/// An operation that changes the ledger: registering an identity, crediting
/// new supply, opening a signed ticket, or settling one by a signed release.
#[derive(Copy, Clone, Debug, PartialEq, Eq)]
pub enum LedgerOp {
    Register(PublicIdentity),
    Genesis(AccountId, Amount),
    Open(SignedTicket),
    Settle(SignedRelease),
}

/// The ledger of a network and an asset before any operation.
pub open spec fn empty_ledger(network_id: u32, asset: AssetId) -> LedgerView {
    LedgerView {
        network_id,
        asset,
        accounts: Seq::empty(),
        tickets: Seq::empty(),
        seen: Seq::empty(),
        total_supply: Amount::of(0),
        journal: Seq::empty(),
    }
}

/// `w` is `v` after the ledger accepted `op`.
pub open spec fn applied(v: LedgerView, op: LedgerOp, w: LedgerView) -> bool {
    match op {
        LedgerOp::Register(identity) => register_refusal(v, identity) is None && registered(
            v,
            identity,
            w,
        ),
        LedgerOp::Genesis(account, amount) => genesis_refusal(v, account, amount) is None && w
            == after_genesis(
            v,
            account,
            amount,
            TxId::from_view(genesis_tx_bytes(account, amount, v.journal.len() as usize)),
        ),
        LedgerOp::Open(s) => open_refusal(v, s) is None && opened(
            v,
            s,
            TxId::from_view(ticket_tx_bytes(s)),
            w,
        ),
        LedgerOp::Settle(s) => settle_refusal(v, s) is None && settled(
            v,
            s,
            TxId::from_view(release_tx_bytes(s)),
            w,
        ),
    }
}

/// `v` is the ledger of `network_id` and `asset` after the accepted
/// operations `ops`, in order.
pub open spec fn reachable(network_id: u32, asset: AssetId, ops: Seq<LedgerOp>, v: LedgerView) -> bool
    decreases ops.len(),
{
    if ops.len() == 0 {
        v == empty_ledger(network_id, asset)
    } else {
        exists|u: LedgerView|
            reachable(network_id, asset, ops.drop_last(), u) && #[trigger] applied(u, ops.last(), v)
    }
}

/// The new supply that an operation credits.
pub open spec fn op_supply(op: LedgerOp) -> nat {
    match op {
        LedgerOp::Genesis(_, amount) => amount.spec_units(),
        _ => 0,
    }
}

/// Whether an operation registers account `x`.
pub open spec fn op_registers(op: LedgerOp, x: AccountId) -> bool {
    op matches LedgerOp::Register(identity) && identity.account == x
}

/// The tickets that an operation opens for payer `x`: one or none.
pub open spec fn op_tickets_of(op: LedgerOp, x: AccountId) -> nat {
    if op matches LedgerOp::Open(s) && s.terms.payer == x {
        1
    } else {
        0
    }
}

/// The releases that an operation settles for signer `x`: one or none.
pub open spec fn op_releases_of(op: LedgerOp, x: AccountId) -> nat {
    if op matches LedgerOp::Settle(s) && s.signer.account == x {
        1
    } else {
        0
    }
}

/// Whether an operation opens ticket `id`.
pub open spec fn op_opens(op: LedgerOp, id: TicketId) -> bool {
    op matches LedgerOp::Open(s) && s.terms.ticket_id == id
}

/// Whether an operation settles ticket `id`.
pub open spec fn op_settles(op: LedgerOp, id: TicketId) -> bool {
    op matches LedgerOp::Settle(s) && s.request.ticket_id == id
}

/// The supply credited by a sequence of operations.
pub open spec fn genesis_total(ops: Seq<LedgerOp>) -> nat
    decreases ops.len(),
{
    if ops.len() == 0 {
        0
    } else {
        genesis_total(ops.drop_last()) + op_supply(ops.last())
    }
}

/// The number of tickets that a sequence of operations opens for payer `x`.
pub open spec fn tickets_opened_by(ops: Seq<LedgerOp>, x: AccountId) -> nat
    decreases ops.len(),
{
    if ops.len() == 0 {
        0
    } else {
        tickets_opened_by(ops.drop_last(), x) + op_tickets_of(ops.last(), x)
    }
}

/// The number of releases that a sequence of operations settles for signer `x`.
pub open spec fn releases_signed_by(ops: Seq<LedgerOp>, x: AccountId) -> nat
    decreases ops.len(),
{
    if ops.len() == 0 {
        0
    } else {
        releases_signed_by(ops.drop_last(), x) + op_releases_of(ops.last(), x)
    }
}

/// Whether some operation of the sequence opens ticket `id`.
pub open spec fn ever_opened(ops: Seq<LedgerOp>, id: TicketId) -> bool
    decreases ops.len(),
{
    ops.len() > 0 && (ever_opened(ops.drop_last(), id) || op_opens(ops.last(), id))
}

/// Whether some operation of the sequence settles ticket `id`.
pub open spec fn ever_settled(ops: Seq<LedgerOp>, id: TicketId) -> bool
    decreases ops.len(),
{
    ops.len() > 0 && (ever_settled(ops.drop_last(), id) || op_settles(ops.last(), id))
}

/// The last signed ticket of the sequence that opens ticket `id`.
pub open spec fn opening(ops: Seq<LedgerOp>, id: TicketId) -> SignedTicket
    decreases ops.len(),
{
    if ops.len() == 0 {
        arbitrary()
    } else {
        match ops.last() {
            LedgerOp::Open(s) => if s.terms.ticket_id == id {
                s
            } else {
                opening(ops.drop_last(), id)
            },
            _ => opening(ops.drop_last(), id),
        }
    }
}

/// The state of ticket `id` after the sequence of operations: the terms and
/// route of the ticket that opened it, settled once a release settled it.
pub open spec fn ticket_after(ops: Seq<LedgerOp>, id: TicketId) -> TicketState {
    TicketState {
        id,
        terms: opening(ops, id).terms,
        route_plan: opening(ops, id).route_plan,
        settled: ever_settled(ops, id),
    }
}

/// The ledger that the accepted operations `ops` leave, from the empty ledger
/// of `network_id` and `asset`.
#[verifier::opaque]
pub open spec fn ledger_after(network_id: u32, asset: AssetId, ops: Seq<LedgerOp>) -> LedgerView {
    choose|v: LedgerView| reachable(network_id, asset, ops, v)
}

/// An operation leaves at most one ledger.
proof fn lemma_applied_unique(v: LedgerView, op: LedgerOp, w1: LedgerView, w2: LedgerView)
    requires
        applied(v, op, w1),
        applied(v, op, w2),
    ensures
        w1 == w2,
{
    match op {
        LedgerOp::Register(identity) => {
            let state = AccountState {
                id: identity.account,
                identity,
                balance: Amount::of(0),
                next_ticket_nonce: 0,
                next_release_nonce: 0,
            };
            let p1 = choose|p: int|
                fits_at(v.account_ids(), p, identity.account) && w1 == (LedgerView {
                    accounts: v.accounts.insert(p, state),
                    ..v
                });
            let p2 = choose|p: int|
                fits_at(v.account_ids(), p, identity.account) && w2 == (LedgerView {
                    accounts: v.accounts.insert(p, state),
                    ..v
                });
            lemma_fits_unique(v.account_ids(), p1, p2, identity.account);
        },
        LedgerOp::Genesis(..) => {},
        LedgerOp::Open(s) => {
            let tx = TxId::from_view(ticket_tx_bytes(s));
            let p1 = choose|p: int|
                fits_at(v.ticket_ids(), p, s.terms.ticket_id) && w1.tickets == v.tickets.insert(p, opened_ticket(s));
            let p2 = choose|p: int|
                fits_at(v.ticket_ids(), p, s.terms.ticket_id) && w2.tickets == v.tickets.insert(p, opened_ticket(s));
            lemma_fits_unique(v.ticket_ids(), p1, p2, s.terms.ticket_id);
            let q1 = choose|q: int| fits_at(v.seen, q, tx) && w1.seen == v.seen.insert(q, tx);
            let q2 = choose|q: int| fits_at(v.seen, q, tx) && w2.seen == v.seen.insert(q, tx);
            lemma_fits_unique(v.seen, q1, q2, tx);
        },
        LedgerOp::Settle(s) => {
            let tx = TxId::from_view(release_tx_bytes(s));
            let q1 = choose|q: int| fits_at(v.seen, q, tx) && w1.seen == v.seen.insert(q, tx);
            let q2 = choose|q: int| fits_at(v.seen, q, tx) && w2.seen == v.seen.insert(q, tx);
            lemma_fits_unique(v.seen, q1, q2, tx);
        },
    }
}

/// The ledger is a function of its history: the same accepted operations
/// leave the same ledger, the one that `ledger_after` names, and so the same
/// state digest.
pub proof fn lemma_history_determines_ledger(
    network_id: u32,
    asset: AssetId,
    ops: Seq<LedgerOp>,
    v: LedgerView,
)
    requires
        reachable(network_id, asset, ops, v),
    ensures
        ledger_after(network_id, asset, ops) == v,
        state_digest_bytes(ledger_after(network_id, asset, ops)) == state_digest_bytes(v),
{
    reveal(ledger_after);
    lemma_reachable_unique(network_id, asset, ops, v, ledger_after(network_id, asset, ops));
}

/// Two ledgers reached by the same operations are equal.
proof fn lemma_reachable_unique(
    network_id: u32,
    asset: AssetId,
    ops: Seq<LedgerOp>,
    v1: LedgerView,
    v2: LedgerView,
)
    requires
        reachable(network_id, asset, ops, v1),
        reachable(network_id, asset, ops, v2),
    ensures
        v1 == v2,
    decreases ops.len(),
{
    if ops.len() > 0 {
        let prefix = ops.drop_last();
        let op = ops.last();
        let u1 = choose|u: LedgerView| reachable(network_id, asset, prefix, u) && #[trigger] applied(u, op, v1);
        let u2 = choose|u: LedgerView| reachable(network_id, asset, prefix, u) && #[trigger] applied(u, op, v2);
        lemma_reachable_unique(network_id, asset, prefix, u1, u2);
        lemma_applied_unique(u1, op, v1, v2);
    }
}

/// Extending a history by one accepted operation.
pub proof fn lemma_reachable_push(
    network_id: u32,
    asset: AssetId,
    ops: Seq<LedgerOp>,
    v: LedgerView,
    op: LedgerOp,
    w: LedgerView,
)
    requires
        reachable(network_id, asset, ops, v),
        applied(v, op, w),
    ensures
        reachable(network_id, asset, ops.push(op), w),
{
    assert(ops.push(op).drop_last() =~= ops);
    assert(ops.push(op).last() == op);
}

/// What one accepted operation does to a well-formed ledger.
proof fn lemma_step(v: LedgerView, op: LedgerOp, w: LedgerView)
    requires
        v.wf(),
        applied(v, op, w),
    ensures
        w.wf(),
        w.network_id == v.network_id,
        w.asset == v.asset,
        w.total_supply.spec_units() == v.total_supply.spec_units() + op_supply(op),
        forall|x: AccountId| #[trigger]
            w.has_account(x) <==> v.has_account(x) || op_registers(op, x),
        forall|x: AccountId| #[trigger]
            op_registers(op, x) ==> !v.has_account(x) && w.account(x).next_ticket_nonce == 0
                && w.account(x).next_release_nonce == 0,
        forall|x: AccountId|
            #![trigger w.account(x)]
            v.has_account(x) ==> w.account(x).next_ticket_nonce == v.account(x).next_ticket_nonce
                + op_tickets_of(op, x) && w.account(x).next_release_nonce
                == v.account(x).next_release_nonce + op_releases_of(op, x),
        forall|x: AccountId| #[trigger]
            op_tickets_of(op, x) + op_releases_of(op, x) > 0 ==> v.has_account(x),
        forall|id: TicketId| #[trigger]
            w.has_ticket(id) <==> v.has_ticket(id) || op_opens(op, id),
        forall|id: TicketId| #[trigger]
            op_opens(op, id) ==> !v.has_ticket(id) && (op matches LedgerOp::Open(s) && w.ticket(id)
                == opened_ticket(s)),
        forall|id: TicketId|
            #![trigger w.ticket(id)]
            v.has_ticket(id) ==> w.ticket(id) == (if op_settles(op, id) {
                TicketState { settled: true, ..v.ticket(id) }
            } else {
                v.ticket(id)
            }),
        forall|id: TicketId| #[trigger] op_settles(op, id) ==> v.has_ticket(id),
{
    match op {
        LedgerOp::Register(identity) => {
            lemma_register_preserves_wf(v, identity, w);
            assert forall|x: AccountId| #[trigger]
                w.has_account(x) <==> v.has_account(x) || op_registers(op, x) by {
                lemma_registered_account(v, identity, w, x);
            }
            assert forall|x: AccountId|
                #![trigger w.account(x)]
                v.has_account(x) implies w.account(x).next_ticket_nonce
                == v.account(x).next_ticket_nonce + op_tickets_of(op, x) && w.account(x).next_release_nonce
                == v.account(x).next_release_nonce + op_releases_of(op, x) by {
                lemma_registered_account(v, identity, w, x);
            }
            lemma_registered_account(v, identity, w, identity.account);
            assert(w.ticket_ids() == v.ticket_ids());
        },
        LedgerOp::Genesis(account, amount) => {
            let tx = TxId::from_view(genesis_tx_bytes(account, amount, v.journal.len() as usize));
            lemma_genesis_preserves_wf(v, account, amount, tx);
            assert forall|x: AccountId|
                #![trigger w.account(x)]
                v.has_account(x) implies w.account(x).next_ticket_nonce
                == v.account(x).next_ticket_nonce + op_tickets_of(op, x) && w.account(x).next_release_nonce
                == v.account(x).next_release_nonce + op_releases_of(op, x) by {
                lemma_genesis_account(v, account, amount, tx, x);
            }
            assert(v.has_account(account));
            lemma_genesis_account(v, account, amount, tx, account);
            assert(w.ticket_ids() == v.ticket_ids());
        },
        LedgerOp::Open(s) => {
            let tx = TxId::from_view(ticket_tx_bytes(s));
            lemma_open_accepted(v, s);
            lemma_open_preserves_wf(v, s, tx, w);
            lemma_open_then_read(v, s, tx, w);
            lemma_opened_members(v, s, tx, w);
            lemma_opened_keeps(v, s, tx, w, s.terms.ticket_id);
            assert forall|x: AccountId|
                #![trigger w.account(x)]
                v.has_account(x) implies w.account(x).next_ticket_nonce
                == v.account(x).next_ticket_nonce + op_tickets_of(op, x) && w.account(x).next_release_nonce
                == v.account(x).next_release_nonce + op_releases_of(op, x) by {
                lemma_opened_account(v, s, tx, w, x);
            }
            assert forall|id: TicketId| #![trigger w.ticket(id)] v.has_ticket(id) implies w.ticket(id) == (if op_settles(
                op,
                id,
            ) {
                TicketState { settled: true, ..v.ticket(id) }
            } else {
                v.ticket(id)
            }) by {
                lemma_opened_keeps(v, s, tx, w, id);
            }
        },
        LedgerOp::Settle(s) => {
            let tx = TxId::from_view(release_tx_bytes(s));
            lemma_settle_accepted(v, s);
            lemma_settle_preserves_wf(v, s, tx, w);
            lemma_settle_then_read(v, s, tx, w);
            lemma_settled_members(v, s, tx, w);
            assert forall|x: AccountId|
                #![trigger w.account(x)]
                v.has_account(x) implies w.account(x).next_ticket_nonce
                == v.account(x).next_ticket_nonce + op_tickets_of(op, x) && w.account(x).next_release_nonce
                == v.account(x).next_release_nonce + op_releases_of(op, x) by {
                lemma_settled_account(v, s, tx, w, x);
            }
            assert forall|id: TicketId| #![trigger w.ticket(id)] v.has_ticket(id) implies w.ticket(id) == (if op_settles(
                op,
                id,
            ) {
                TicketState { settled: true, ..v.ticket(id) }
            } else {
                v.ticket(id)
            }) by {
                lemma_settled_keeps(v, s, tx, w, id);
            }
            lemma_settled_keeps(v, s, tx, w, s.request.ticket_id);
        },
    }
}

/// What a ledger is after any sequence of accepted operations: it is well
/// formed; its total supply is the sum of the genesis credits; each
/// registered account's ticket nonce counts the tickets it opened and its
/// release nonce the releases it signed (an unregistered identifier has done
/// neither); a ticket is on the ledger exactly when an operation opened it,
/// with the terms and route it was opened with, and it is settled exactly
/// when a release settled it.
pub proof fn lemma_history(network_id: u32, asset: AssetId, ops: Seq<LedgerOp>, v: LedgerView)
    requires
        reachable(network_id, asset, ops, v),
    ensures
        v.wf(),
        v.network_id == network_id,
        v.asset == asset,
        v.total_supply.spec_units() == genesis_total(ops),
        forall|x: AccountId|
            #![trigger v.account(x)]
            v.has_account(x) ==> v.account(x).next_ticket_nonce == tickets_opened_by(ops, x)
                && v.account(x).next_release_nonce == releases_signed_by(ops, x),
        forall|x: AccountId|
            #![trigger tickets_opened_by(ops, x)]
            #![trigger releases_signed_by(ops, x)]
            !v.has_account(x) ==> tickets_opened_by(ops, x) == 0 && releases_signed_by(ops, x) == 0,
        forall|id: TicketId| #[trigger] v.has_ticket(id) <==> ever_opened(ops, id),
        forall|id: TicketId| #![trigger v.ticket(id)] v.has_ticket(id) ==> v.ticket(id) == ticket_after(ops, id),
        forall|id: TicketId| #![trigger ever_settled(ops, id)] !v.has_ticket(id) ==> !ever_settled(ops, id),
    decreases ops.len(),
{
    if ops.len() == 0 {
        Amount::lemma_of(0);
        assert(v.account_ids() =~= Seq::<AccountId>::empty());
        assert(v.ticket_ids() =~= Seq::<TicketId>::empty());
    } else {
        let prefix = ops.drop_last();
        let op = ops.last();
        let u = choose|u: LedgerView| reachable(network_id, asset, prefix, u) && #[trigger] applied(u, op, v);
        lemma_history(network_id, asset, prefix, u);
        lemma_step(u, op, v);
        assert forall|x: AccountId|
            #![trigger v.account(x)]
            v.has_account(x) implies v.account(x).next_ticket_nonce == tickets_opened_by(ops, x)
            && v.account(x).next_release_nonce == releases_signed_by(ops, x) by {
            assert(tickets_opened_by(ops, x) == tickets_opened_by(prefix, x) + op_tickets_of(op, x));
            assert(releases_signed_by(ops, x) == releases_signed_by(prefix, x) + op_releases_of(op, x));
            if !u.has_account(x) {
                assert(op_registers(op, x));
            }
        }
        assert forall|x: AccountId|
            #![trigger tickets_opened_by(ops, x)]
            #![trigger releases_signed_by(ops, x)]
            !v.has_account(x) implies tickets_opened_by(ops, x) == 0 && releases_signed_by(ops, x) == 0 by {
            assert(tickets_opened_by(ops, x) == tickets_opened_by(prefix, x) + op_tickets_of(op, x));
            assert(releases_signed_by(ops, x) == releases_signed_by(prefix, x) + op_releases_of(op, x));
            assert(op_tickets_of(op, x) + op_releases_of(op, x) == 0);
        }
        assert forall|id: TicketId| #[trigger] v.has_ticket(id) <==> ever_opened(ops, id) by {
            assert(ever_opened(ops, id) == (ever_opened(prefix, id) || op_opens(op, id)));
        }
        assert forall|id: TicketId| #![trigger v.ticket(id)] v.has_ticket(id) implies v.ticket(id) == ticket_after(ops, id) by {
            assert(ever_settled(ops, id) == (ever_settled(prefix, id) || op_settles(op, id)));
            if op_opens(op, id) {
                assert(!ever_settled(prefix, id));
                assert(!op_settles(op, id));
            } else {
                assert(u.has_ticket(id));
                assert(opening(ops, id) == opening(prefix, id));
            }
        }
        assert forall|id: TicketId| #![trigger ever_settled(ops, id)] !v.has_ticket(id) implies !ever_settled(ops, id) by {
            assert(ever_settled(ops, id) == (ever_settled(prefix, id) || op_settles(op, id)));
        }
    }
}

} // verus!
