use vstd::prelude::*;
use vstd::string::StringSliceAdditionalSpecFns;

use crate::account::AccountState;
use crate::amount::{Amount, MAX_LEDGER_UNITS};
use crate::codec::{
    append_byte, append_text, append_two, lemma_cancel_suffix, lemma_decimal_injective,
    lemma_middle_equal, lemma_split_equal, text,
    CanonicalJson,
};
use crate::crypto::{identity_consistent, PublicIdentity};
use crate::error::{outcome, policy_error, PolicyRule, Refusal, VertexError, VertexResult};
use crate::ids::{digest_of_one, lemma_account_json_injective, AccountId, AssetId, Digest, TicketId, TxId};
use crate::history::{applied, empty_ledger, LedgerOp};
use crate::journal::{JournalEntry, JournalOp};
use crate::release::{release_signature_refusal, release_tx_bytes, SignedRelease};
use crate::route::{charge_units, route_digest_bytes, route_refusal, RoutePlan};
use crate::table::{fits_at, keys_sorted, lemma_sorted_unique, Table};
use crate::ticket::{ticket_signature_refusal, ticket_tx_bytes, SignedTicket, TicketTerms};

verus! {

broadcast use crate::ids::group_id_views;

/// A ticket opened on the ledger: its signed terms and route, and whether it
/// has been settled.
#[derive(Copy, Clone, Debug, PartialEq, Eq)]
pub struct TicketState {
    pub id: TicketId,
    pub terms: TicketTerms,
    pub route_plan: RoutePlan,
    pub settled: bool,
}

/// The ledger as a mathematical value: accounts in increasing identifier
/// order, tickets in increasing identifier order, processed transactions in
/// increasing byte order, the total supply and the journal.
pub struct LedgerView {
    pub network_id: u32,
    pub asset: AssetId,
    pub accounts: Seq<AccountState>,
    pub tickets: Seq<TicketState>,
    pub seen: Seq<TxId>,
    pub total_supply: Amount,
    pub journal: Seq<JournalEntry>,
}

/// The sum of the balances of a sequence of accounts.
pub open spec fn sum_balances(s: Seq<AccountState>) -> nat
    decreases s.len(),
{
    if s.len() == 0 {
        0
    } else {
        sum_balances(s.drop_last()) + s.last().balance.spec_units()
    }
}

/// The units that a ticket keeps locked: its amount until it is settled.
pub open spec fn locked_units(t: TicketState) -> nat {
    if t.settled {
        0
    } else {
        t.terms.amount.spec_units()
    }
}

/// The units locked by a sequence of tickets.
pub open spec fn sum_locked(s: Seq<TicketState>) -> nat
    decreases s.len(),
{
    if s.len() == 0 {
        0
    } else {
        sum_locked(s.drop_last()) + locked_units(s.last())
    }
}

/// The result of adding two amounts of `a` and `b` units with range checks.
pub open spec fn add_refusal(a: nat, b: nat) -> Option<VertexError> {
    if a + b > u128::MAX {
        Some(VertexError::AmountOverflow)
    } else if a + b > MAX_LEDGER_UNITS {
        Some(VertexError::AmountOutOfRange { value: (a + b) as u128, max: MAX_LEDGER_UNITS })
    } else {
        None
    }
}

impl LedgerView {
    /// The identifiers of the registered accounts, in order.
    pub open spec fn account_ids(self) -> Seq<AccountId> {
        self.accounts.map_values(|a: AccountState| a.id)
    }

    /// The identifiers of the tickets, in order.
    pub open spec fn ticket_ids(self) -> Seq<TicketId> {
        self.tickets.map_values(|t: TicketState| t.id)
    }

    /// Whether account `id` is registered.
    pub open spec fn has_account(self, id: AccountId) -> bool {
        self.account_ids().contains(id)
    }

    /// The position of account `id`.
    pub open spec fn account_index(self, id: AccountId) -> int {
        self.account_ids().index_of(id)
    }

    /// The registered account with identifier `id`.
    pub open spec fn account(self, id: AccountId) -> AccountState {
        self.accounts[self.account_index(id)]
    }

    /// Whether ticket `id` is on the ledger.
    pub open spec fn has_ticket(self, id: TicketId) -> bool {
        self.ticket_ids().contains(id)
    }

    /// The position of ticket `id`.
    pub open spec fn ticket_index(self, id: TicketId) -> int {
        self.ticket_ids().index_of(id)
    }

    /// The open or settled ticket with identifier `id`.
    pub open spec fn ticket(self, id: TicketId) -> TicketState {
        self.tickets[self.ticket_index(id)]
    }

    /// Whether a transaction with identifier bytes `tx` has been processed.
    pub open spec fn has_seen(self, tx: Seq<u8>) -> bool {
        self.seen.contains(TxId::from_view(tx))
    }

    /// The sum of all liquid balances.
    pub open spec fn liquid(self) -> nat {
        sum_balances(self.accounts)
    }

    /// The sum of the amounts of all unsettled tickets.
    pub open spec fn locked(self) -> nat {
        sum_locked(self.tickets)
    }

    /// Supply conservation: liquid balances plus locked amounts equal the total supply.
    pub open spec fn conserved(self) -> bool {
        self.liquid() + self.locked() == self.total_supply.spec_units()
    }

    /// What every ticket on the ledger satisfies: its route charges fit in its
    /// amount, and every party it pays is a registered account.
    pub open spec fn ticket_valid(self, t: TicketState) -> bool {
        &&& charge_units(t.route_plan) <= t.terms.amount.spec_units()
        &&& self.has_account(t.terms.beneficiary)
        &&& self.has_account(t.route_plan.fee_recipient)
        &&& (t.route_plan.rebate_recipient matches Some(r) ==> self.has_account(r))
    }

    /// The invariant of every ledger: identifiers sorted and unique, the total
    /// supply within range and conserved, and every ticket valid.
    pub open spec fn wf(self) -> bool {
        &&& keys_sorted(self.account_ids())
        &&& keys_sorted(self.ticket_ids())
        &&& keys_sorted(self.seen)
        &&& self.total_supply.spec_units() <= MAX_LEDGER_UNITS
        &&& self.conserved()
        &&& forall|i: int| 0 <= i < self.tickets.len() ==> self.ticket_valid(#[trigger] self.tickets[i])
    }

    /// The ledger with the balance of account `id` set to `units`.
    pub open spec fn with_balance(self, id: AccountId, units: nat) -> LedgerView {
        let i = self.account_index(id);
        LedgerView {
            accounts: self.accounts.update(i, AccountState { balance: Amount::of(units), ..self.accounts[i] }),
            ..self
        }
    }

    /// Why crediting `amount` to account `id` fails, if it does.
    pub open spec fn credit_refusal(self, id: AccountId, amount: Amount) -> Option<VertexError> {
        if !self.has_account(id) {
            Some(VertexError::AccountNotFound(id))
        } else {
            add_refusal(self.account(id).balance.spec_units(), amount.spec_units())
        }
    }

    /// The ledger after crediting `amount` to account `id`.
    pub open spec fn credited(self, id: AccountId, amount: Amount) -> LedgerView {
        self.with_balance(id, self.account(id).balance.spec_units() + amount.spec_units())
    }
}

// ---------------------------------------------------------------------------
// Sums
// ---------------------------------------------------------------------------

proof fn lemma_sum_balances_update(s: Seq<AccountState>, i: int, x: AccountState)
    requires
        0 <= i < s.len(),
    ensures
        sum_balances(s.update(i, x)) + s[i].balance.spec_units() == sum_balances(s)
            + x.balance.spec_units(),
    decreases s.len(),
{
    if i == s.len() - 1 {
        assert(s.update(i, x).drop_last() =~= s.drop_last());
    } else {
        lemma_sum_balances_update(s.drop_last(), i, x);
        assert(s.update(i, x).drop_last() =~= s.drop_last().update(i, x));
    }
}

proof fn lemma_sum_balances_insert(s: Seq<AccountState>, p: int, x: AccountState)
    requires
        0 <= p <= s.len(),
    ensures
        sum_balances(s.insert(p, x)) == sum_balances(s) + x.balance.spec_units(),
    decreases s.len(),
{
    if p == s.len() {
        assert(s.insert(p, x).drop_last() =~= s);
    } else {
        lemma_sum_balances_insert(s.drop_last(), p, x);
        assert(s.insert(p, x).drop_last() =~= s.drop_last().insert(p, x));
    }
}

proof fn lemma_sum_balances_bound(s: Seq<AccountState>, i: int)
    requires
        0 <= i < s.len(),
    ensures
        s[i].balance.spec_units() <= sum_balances(s),
    decreases s.len(),
{
    if i < s.len() - 1 {
        lemma_sum_balances_bound(s.drop_last(), i);
    }
}

proof fn lemma_sum_locked_update(s: Seq<TicketState>, i: int, x: TicketState)
    requires
        0 <= i < s.len(),
    ensures
        sum_locked(s.update(i, x)) + locked_units(s[i]) == sum_locked(s) + locked_units(x),
    decreases s.len(),
{
    if i == s.len() - 1 {
        assert(s.update(i, x).drop_last() =~= s.drop_last());
    } else {
        lemma_sum_locked_update(s.drop_last(), i, x);
        assert(s.update(i, x).drop_last() =~= s.drop_last().update(i, x));
    }
}

proof fn lemma_sum_locked_insert(s: Seq<TicketState>, p: int, x: TicketState)
    requires
        0 <= p <= s.len(),
    ensures
        sum_locked(s.insert(p, x)) == sum_locked(s) + locked_units(x),
    decreases s.len(),
{
    if p == s.len() {
        assert(s.insert(p, x).drop_last() =~= s);
    } else {
        lemma_sum_locked_insert(s.drop_last(), p, x);
        assert(s.insert(p, x).drop_last() =~= s.drop_last().insert(p, x));
    }
}

proof fn lemma_sum_locked_bound(s: Seq<TicketState>, i: int)
    requires
        0 <= i < s.len(),
    ensures
        locked_units(s[i]) <= sum_locked(s),
    decreases s.len(),
{
    if i < s.len() - 1 {
        lemma_sum_locked_bound(s.drop_last(), i);
    }
}

/// Why registering `identity` is refused, if it is.
pub open spec fn register_refusal(v: LedgerView, identity: PublicIdentity) -> Option<Refusal> {
    if !identity_consistent(identity) {
        Some(Refusal::Error(VertexError::IdentityMismatch(identity.account)))
    } else if v.has_account(identity.account) {
        Some(Refusal::Error(VertexError::AccountAlreadyExists(identity.account)))
    } else {
        None
    }
}

/// `w` is `v` with a fresh account for `identity` inserted in identifier order.
pub open spec fn registered(v: LedgerView, identity: PublicIdentity, w: LedgerView) -> bool {
    exists|p: int|
        fits_at(v.account_ids(), p, identity.account) && w == (LedgerView {
            accounts: v.accounts.insert(
                p,
                AccountState {
                    id: identity.account,
                    identity,
                    balance: Amount::of(0),
                    next_ticket_nonce: 0,
                    next_release_nonce: 0,
                },
            ),
            ..v
        })
}

/// Why a genesis credit of `amount` to `account` is refused, if it is.
pub open spec fn genesis_refusal(v: LedgerView, account: AccountId, amount: Amount) -> Option<
    Refusal,
> {
    if v.credit_refusal(account, amount) is Some {
        Some(Refusal::Error(v.credit_refusal(account, amount)->Some_0))
    } else if add_refusal(v.total_supply.spec_units(), amount.spec_units()) is Some {
        Some(Refusal::Error(add_refusal(v.total_supply.spec_units(), amount.spec_units())->Some_0))
    } else {
        None
    }
}

/// The canonical JSON of a genesis credit's identifying tuple.
pub open spec fn genesis_json(account: AccountId, amount: Amount, position: usize) -> Seq<u8> {
    (account, amount, position).json()
}

/// The bytes of the transaction identifier of a genesis credit recorded at
/// journal position `position`.
pub open spec fn genesis_tx_bytes(account: AccountId, amount: Amount, position: usize) -> Seq<u8> {
    digest_of_one("vertex-genesis-credit-v1".spec_bytes(), genesis_json(account, amount, position))
}

/// The tuple that a genesis credit's transaction identifier hashes commits to
/// the credited account, the amount and the journal position: two credits
/// that differ in any one of them hash different tuples.
pub proof fn lemma_genesis_json_commits(
    account: AccountId,
    amount: Amount,
    position: usize,
    other_account: AccountId,
    other_amount: Amount,
    other_position: usize,
)
    ensures
        genesis_json(other_account, amount, position) == genesis_json(account, amount, position)
            ==> other_account == account,
        genesis_json(account, other_amount, position) == genesis_json(account, amount, position)
            ==> other_amount.spec_units() == amount.spec_units(),
        genesis_json(account, amount, other_position) == genesis_json(account, amount, position)
            ==> other_position == position,
{
    let open = text("[");
    let comma = text(",");
    let close = text("]");
    if genesis_json(other_account, amount, position) == genesis_json(account, amount, position) {
        let t = comma + amount.json() + comma + position.json() + close;
        assert(genesis_json(other_account, amount, position) =~= open + other_account.json() + t);
        assert(genesis_json(account, amount, position) =~= open + account.json() + t);
        lemma_middle_equal(open, other_account.json(), account.json(), t);
        lemma_account_json_injective(other_account, account);
    }
    if genesis_json(account, other_amount, position) == genesis_json(account, amount, position) {
        let h = open + account.json() + comma;
        let t = comma + position.json() + close;
        assert(genesis_json(account, other_amount, position) =~= h + other_amount.json() + t);
        assert(genesis_json(account, amount, position) =~= h + amount.json() + t);
        lemma_middle_equal(h, other_amount.json(), amount.json(), t);
        lemma_decimal_injective(other_amount.spec_units(), amount.spec_units());
    }
    if genesis_json(account, amount, other_position) == genesis_json(account, amount, position) {
        let h = open + account.json() + comma + amount.json() + comma;
        assert(genesis_json(account, amount, other_position) =~= h + other_position.json() + close);
        assert(genesis_json(account, amount, position) =~= h + position.json() + close);
        lemma_middle_equal(h, other_position.json(), position.json(), close);
        lemma_decimal_injective(other_position as nat, position as nat);
    }
}

/// The ledger after a genesis credit: the balance and the total supply both
/// grow by `amount`, and the journal records the credit.
pub open spec fn after_genesis(v: LedgerView, account: AccountId, amount: Amount, tx: TxId) -> LedgerView {
    LedgerView {
        total_supply: Amount::of(v.total_supply.spec_units() + amount.spec_units()),
        journal: v.journal.push(
            JournalEntry { tx_id: tx, op: JournalOp::GenesisCredit { account, amount } },
        ),
        ..v.credited(account, amount)
    }
}

/// The running sum of balances, with the range check applied at each step.
pub open spec fn liquid_check(s: Seq<AccountState>) -> Result<nat, VertexError>
    decreases s.len(),
{
    if s.len() == 0 {
        Ok(0)
    } else {
        match liquid_check(s.drop_last()) {
            Err(e) => Err(e),
            Ok(p) => match add_refusal(p, s.last().balance.spec_units()) {
                Some(e) => Err(e),
                None => Ok(p + s.last().balance.spec_units()),
            },
        }
    }
}

/// The running sum of unsettled ticket amounts, with the range check applied at each step.
pub open spec fn locked_check(s: Seq<TicketState>) -> Result<nat, VertexError>
    decreases s.len(),
{
    if s.len() == 0 {
        Ok(0)
    } else {
        match locked_check(s.drop_last()) {
            Err(e) => Err(e),
            Ok(p) => if s.last().settled {
                Ok(p)
            } else {
                match add_refusal(p, s.last().terms.amount.spec_units()) {
                    Some(e) => Err(e),
                    None => Ok(p + s.last().terms.amount.spec_units()),
                }
            },
        }
    }
}

/// What the conservation check reports for a ledger.
pub open spec fn conservation_refusal(v: LedgerView) -> Option<VertexError> {
    match liquid_check(v.accounts) {
        Err(e) => Some(e),
        Ok(l) => match locked_check(v.tickets) {
            Err(e) => Some(e),
            Ok(k) => match add_refusal(l, k) {
                Some(e) => Some(e),
                None => if l + k != v.total_supply.spec_units() {
                    Some(
                        VertexError::Conservation {
                            asset: v.asset,
                            expected: v.total_supply,
                            observed: Amount::of(l + k),
                        },
                    )
                } else {
                    None
                },
            },
        },
    }
}

proof fn lemma_liquid_check(s: Seq<AccountState>)
    requires
        sum_balances(s) <= MAX_LEDGER_UNITS,
    ensures
        liquid_check(s) == Ok::<nat, VertexError>(sum_balances(s)),
    decreases s.len(),
{
    if s.len() > 0 {
        lemma_liquid_check(s.drop_last());
    }
}

proof fn lemma_locked_check(s: Seq<TicketState>)
    requires
        sum_locked(s) <= MAX_LEDGER_UNITS,
    ensures
        locked_check(s) == Ok::<nat, VertexError>(sum_locked(s)),
    decreases s.len(),
{
    if s.len() > 0 {
        lemma_locked_check(s.drop_last());
    }
}

proof fn lemma_liquid_check_err(s: Seq<AccountState>, i: int, j: int)
    requires
        0 <= i <= j <= s.len(),
        liquid_check(s.take(i)) is Err,
    ensures
        liquid_check(s.take(j)) == liquid_check(s.take(i)),
    decreases j - i,
{
    if j > i {
        lemma_liquid_check_err(s, i, j - 1);
        assert(s.take(j).drop_last() =~= s.take(j - 1));
    }
}

proof fn lemma_locked_check_err(s: Seq<TicketState>, i: int, j: int)
    requires
        0 <= i <= j <= s.len(),
        locked_check(s.take(i)) is Err,
    ensures
        locked_check(s.take(j)) == locked_check(s.take(i)),
    decreases j - i,
{
    if j > i {
        lemma_locked_check_err(s, i, j - 1);
        assert(s.take(j).drop_last() =~= s.take(j - 1));
    }
}

/// A well-formed ledger passes the conservation check.
pub proof fn lemma_wf_passes_conservation(v: LedgerView)
    requires
        v.wf(),
    ensures
        conservation_refusal(v) is None,
{
    lemma_liquid_check(v.accounts);
    lemma_locked_check(v.tickets);
}

proof fn lemma_contains_insert<T>(s: Seq<T>, p: int, k: T, x: T)
    requires
        0 <= p <= s.len(),
        s.contains(x),
    ensures
        s.insert(p, k).contains(x),
{
    let j = choose|j: int| 0 <= j < s.len() && s[j] == x;
    if j < p {
        assert(s.insert(p, k)[j] == x);
    } else {
        assert(s.insert(p, k)[j + 1] == x);
    }
}

impl CanonicalJson for (AccountId, Amount, usize) {
    open spec fn json(&self) -> Seq<u8> {
        text("[") + self.0.json() + text(",") + self.1.json() + text(",") + self.2.json() + text("]")
    }

    fn write_json(&self, out: &mut Vec<u8>) {
        let mut buf: Vec<u8> = Vec::new();
        append_text(&mut buf, "[");
        assert(buf@ =~= text("["));
        self.0.write_json(&mut buf);
        append_text(&mut buf, ",");
        self.1.write_json(&mut buf);
        append_text(&mut buf, ",");
        self.2.write_json(&mut buf);
        append_text(&mut buf, "]");
        assert(buf@ == self.json());
        out.append(&mut buf);
    }
}


/// Why opening a signed ticket is refused, if it is. The checks run in this
/// order: the payer's signature; the network; the asset; that the ticket is
/// new; that the beneficiary, operator, fee recipient and rebate recipient are
/// registered; the route against the payer's policy; that the payer is
/// registered, uses its next ticket nonce and can cover the amount; that the
/// transaction is new; and that the payer's nonce can advance.
#[verifier::opaque]
pub open spec fn open_refusal(v: LedgerView, s: SignedTicket) -> Option<Refusal> {
    let terms = s.terms;
    let plan = s.route_plan;
    let payer = v.account(terms.payer);
    if ticket_signature_refusal(s) is Some {
        Some(Refusal::Error(ticket_signature_refusal(s)->Some_0))
    } else if terms.network_id != v.network_id {
        Some(Refusal::Policy(PolicyRule::WrongNetwork))
    } else if terms.asset != v.asset {
        Some(Refusal::Error(VertexError::AssetMismatch { expected: v.asset, received: terms.asset }))
    } else if v.has_ticket(terms.ticket_id) {
        Some(Refusal::Error(VertexError::TicketAlreadyExists(terms.ticket_id)))
    } else if !v.has_account(terms.beneficiary) {
        Some(Refusal::Error(VertexError::AccountNotFound(terms.beneficiary)))
    } else if !v.has_account(plan.operator) {
        Some(Refusal::Error(VertexError::AccountNotFound(plan.operator)))
    } else if !v.has_account(plan.fee_recipient) {
        Some(Refusal::Error(VertexError::AccountNotFound(plan.fee_recipient)))
    } else if plan.rebate_recipient is Some && !v.has_account(plan.rebate_recipient->Some_0) {
        Some(Refusal::Error(VertexError::AccountNotFound(plan.rebate_recipient->Some_0)))
    } else if route_refusal(plan, terms.route_policy, terms.amount) is Some {
        route_refusal(plan, terms.route_policy, terms.amount)
    } else if !v.has_account(terms.payer) {
        Some(Refusal::Error(VertexError::AccountNotFound(terms.payer)))
    } else if payer.next_ticket_nonce != terms.payer_nonce {
        Some(
            Refusal::Error(
                VertexError::NonceMismatch {
                    account: terms.payer,
                    expected: payer.next_ticket_nonce,
                    received: terms.payer_nonce,
                },
            ),
        )
    } else if payer.balance.spec_units() < terms.amount.spec_units() {
        Some(
            Refusal::Error(
                VertexError::InsufficientFunds {
                    account: terms.payer,
                    available: payer.balance,
                    required: terms.amount,
                },
            ),
        )
    } else if v.has_seen(ticket_tx_bytes(s)) {
        Some(Refusal::Error(VertexError::DuplicateTransaction(TxId::from_view(ticket_tx_bytes(s)))))
    } else if payer.next_ticket_nonce == u64::MAX {
        Some(Refusal::Error(VertexError::NonceOverflow))
    } else {
        None
    }
}

/// The state of a ticket just opened from signed terms.
pub open spec fn opened_ticket(s: SignedTicket) -> TicketState {
    TicketState { id: s.terms.ticket_id, terms: s.terms, route_plan: s.route_plan, settled: false }
}

/// `w` is `v` after opening the signed ticket as transaction `tx`: the payer's
/// balance drops by the amount and its ticket nonce advances, the unsettled
/// ticket and the transaction are added in identifier order, and the journal
/// records the debit.
pub open spec fn opened(v: LedgerView, s: SignedTicket, tx: TxId, w: LedgerView) -> bool {
    let terms = s.terms;
    let payer = v.account(terms.payer);
    &&& tx@ == ticket_tx_bytes(s)
    &&& w.network_id == v.network_id
    &&& w.asset == v.asset
    &&& w.total_supply == v.total_supply
    &&& w.accounts == v.accounts.update(
        v.account_index(terms.payer),
        AccountState {
            balance: Amount::of((payer.balance.spec_units() - terms.amount.spec_units()) as nat),
            next_ticket_nonce: (payer.next_ticket_nonce + 1) as u64,
            ..payer
        },
    )
    &&& exists|p: int|
        fits_at(v.ticket_ids(), p, s.terms.ticket_id) && w.tickets == v.tickets.insert(p, opened_ticket(s))
    &&& exists|q: int| fits_at(v.seen, q, tx) && w.seen == v.seen.insert(q, tx)
    &&& w.journal == v.journal.push(
        JournalEntry {
            tx_id: tx,
            op: JournalOp::TicketDebit {
                account: terms.payer,
                ticket_id: terms.ticket_id,
                amount: terms.amount,
            },
        },
    )
}


/// Why settling a signed release is refused, if it is. The checks run in this
/// order: the beneficiary's signature; the network; that the ticket exists and
/// is unsettled; that the signer is the ticket's beneficiary; that the observed
/// route digest is the digest of the route registered with the ticket; that
/// the signer uses its next release nonce; that the transaction is new; and
/// that the signer's release nonce can advance.
#[verifier::opaque]
pub open spec fn settle_refusal(v: LedgerView, s: SignedRelease) -> Option<Refusal> {
    let req = s.request;
    let t = v.ticket(req.ticket_id);
    let signer = v.account(s.signer.account);
    if release_signature_refusal(s) is Some {
        Some(Refusal::Error(release_signature_refusal(s)->Some_0))
    } else if req.network_id != v.network_id {
        Some(Refusal::Policy(PolicyRule::WrongNetwork))
    } else if !v.has_ticket(req.ticket_id) {
        Some(Refusal::Error(VertexError::TicketNotFound(req.ticket_id)))
    } else if t.settled {
        Some(Refusal::Error(VertexError::TicketSettled(t.id)))
    } else if s.signer.account != t.terms.beneficiary {
        Some(
            Refusal::Error(
                VertexError::UnauthorizedReleaseSigner {
                    expected: t.terms.beneficiary,
                    received: s.signer.account,
                },
            ),
        )
    } else if req.observed_route_digest@ != route_digest_bytes(t.route_plan) {
        Some(
            Refusal::Error(
                VertexError::RouteDigestMismatch {
                    ticket_id: t.id,
                    expected: Digest::from_view(route_digest_bytes(t.route_plan)),
                    received: req.observed_route_digest,
                },
            ),
        )
    } else if signer.next_release_nonce != req.release_nonce {
        Some(
            Refusal::Error(
                VertexError::NonceMismatch {
                    account: s.signer.account,
                    expected: signer.next_release_nonce,
                    received: req.release_nonce,
                },
            ),
        )
    } else if v.has_seen(release_tx_bytes(s)) {
        Some(Refusal::Error(VertexError::DuplicateTransaction(TxId::from_view(release_tx_bytes(s)))))
    } else if signer.next_release_nonce == u64::MAX {
        Some(Refusal::Error(VertexError::NonceOverflow))
    } else {
        None
    }
}

/// Who receives a ticket's rebate: the route's rebate recipient, or else the beneficiary.
pub open spec fn rebate_target(t: TicketState) -> AccountId {
    match t.route_plan.rebate_recipient {
        Some(r) => r,
        None => t.terms.beneficiary,
    }
}

/// What the beneficiary receives: the ticket amount less the route charges.
pub open spec fn beneficiary_units(t: TicketState) -> nat {
    (t.terms.amount.spec_units() - charge_units(t.route_plan)) as nat
}

/// The ledger after paying out a ticket: the beneficiary, the fee recipient
/// and the rebate recipient are credited in that order.
pub open spec fn paid_out(v: LedgerView, t: TicketState) -> LedgerView {
    v.credited(t.terms.beneficiary, Amount::of(beneficiary_units(t))).credited(
        t.route_plan.fee_recipient,
        t.route_plan.operator_fee,
    ).credited(rebate_target(t), t.route_plan.rebate_amount)
}

/// `w` is `v` after settling the signed release as transaction `tx`: the
/// ticket is paid out and marked settled, the signer's release nonce
/// advances, the transaction is added in identifier order, and the journal
/// records the settlement.
pub open spec fn settled(v: LedgerView, s: SignedRelease, tx: TxId, w: LedgerView) -> bool {
    let t = v.ticket(s.request.ticket_id);
    let p = paid_out(v, t);
    let signer = p.account(s.signer.account);
    &&& tx@ == release_tx_bytes(s)
    &&& w.network_id == v.network_id
    &&& w.asset == v.asset
    &&& w.total_supply == v.total_supply
    &&& w.accounts == p.accounts.update(
        p.account_index(s.signer.account),
        AccountState { next_release_nonce: (signer.next_release_nonce + 1) as u64, ..signer },
    )
    &&& w.tickets == v.tickets.update(
        v.ticket_index(s.request.ticket_id),
        TicketState { settled: true, ..t },
    )
    &&& exists|q: int| fits_at(v.seen, q, tx) && w.seen == v.seen.insert(q, tx)
    &&& w.journal == v.journal.push(
        JournalEntry {
            tx_id: tx,
            op: JournalOp::TicketSettlement {
                ticket_id: t.id,
                beneficiary: t.terms.beneficiary,
                beneficiary_amount: Amount::of(beneficiary_units(t)),
                operator: t.route_plan.fee_recipient,
                operator_amount: t.route_plan.operator_fee,
                rebate_recipient: rebate_target(t),
                rebate_amount: t.route_plan.rebate_amount,
            },
        },
    )
}

/// Crediting a registered account keeps identifiers, tickets and the rest,
/// and grows the liquid sum by the amount, when the result stays in range.
proof fn lemma_credit_ok(v: LedgerView, id: AccountId, amount: Amount)
    requires
        keys_sorted(v.account_ids()),
        v.has_account(id),
        v.liquid() + amount.spec_units() <= MAX_LEDGER_UNITS,
    ensures
        v.credit_refusal(id, amount) is None,
        v.credited(id, amount).liquid() == v.liquid() + amount.spec_units(),
        v.credited(id, amount).account_ids() == v.account_ids(),
        v.credited(id, amount).tickets == v.tickets,
        v.credited(id, amount).seen == v.seen,
        v.credited(id, amount).total_supply == v.total_supply,
        v.credited(id, amount).network_id == v.network_id,
        v.credited(id, amount).asset == v.asset,
        v.credited(id, amount).journal == v.journal,
        v.credited(id, amount).accounts.len() == v.accounts.len(),
        forall|j: int|
            0 <= j < v.accounts.len() ==> #[trigger] v.credited(id, amount).accounts[j].next_release_nonce
                == v.accounts[j].next_release_nonce,
{
    let i = v.account_index(id);
    let w = v.credited(id, amount);
    lemma_sum_balances_bound(v.accounts, i);
    Amount::lemma_of(v.accounts[i].balance.spec_units() + amount.spec_units());
    lemma_sum_balances_update(v.accounts, i, w.accounts[i]);
    assert(w.account_ids() =~= v.account_ids());
}



/// What an accepted opening guarantees about the ledger it applies to.
proof fn lemma_open_facts(v: LedgerView, s: SignedTicket)
    requires
        v.wf(),
        open_refusal(v, s) is None,
    ensures
        ticket_signature_refusal(s) is None,
        s.terms.network_id == v.network_id,
        s.terms.asset == v.asset,
        !v.has_ticket(s.terms.ticket_id),
        v.has_account(s.terms.payer),
        v.account(s.terms.payer).next_ticket_nonce == s.terms.payer_nonce,
        v.account(s.terms.payer).next_ticket_nonce < u64::MAX,
        s.terms.amount.spec_units() <= v.account(s.terms.payer).balance.spec_units(),
        !v.has_seen(ticket_tx_bytes(s)),
        v.ticket_valid(opened_ticket(s)),
{
    reveal(open_refusal);
}

/// Opening a ticket keeps the ledger's invariant: identifiers stay sorted and
/// unique, every ticket stays valid, and liquid balances plus locked amounts
/// still equal the total supply (the amount moves from the payer's balance
/// into the ticket).
pub proof fn lemma_open_preserves_wf(v: LedgerView, s: SignedTicket, tx: TxId, w: LedgerView)
    requires
        v.wf(),
        open_refusal(v, s) is None,
        opened(v, s, tx, w),
    ensures
        w.wf(),
        w.liquid() + s.terms.amount.spec_units() == v.liquid(),
        w.locked() == v.locked() + s.terms.amount.spec_units(),
{
    lemma_open_facts(v, s);
    let terms = s.terms;
    let i = v.account_index(terms.payer);
    let payer = v.account(terms.payer);
    let updated = w.accounts[i];
    let p = choose|p: int|
        fits_at(v.ticket_ids(), p, s.terms.ticket_id) && w.tickets == v.tickets.insert(p, opened_ticket(s));
    let q = choose|q: int| fits_at(v.seen, q, tx) && w.seen == v.seen.insert(q, tx);
    assert(v.account_ids()[i] == terms.payer);
    assert(w.account_ids() =~= v.account_ids());
    assert(w.ticket_ids() =~= v.ticket_ids().insert(p, terms.ticket_id));
    crate::table::lemma_insert_sorted(v.ticket_ids(), p, terms.ticket_id);
    crate::table::lemma_insert_sorted(v.seen, q, tx);
    lemma_sum_balances_bound(v.accounts, i);
    Amount::lemma_of((payer.balance.spec_units() - terms.amount.spec_units()) as nat);
    lemma_sum_balances_update(v.accounts, i, updated);
    lemma_sum_locked_insert(v.tickets, p, opened_ticket(s));
    assert forall|k: int| 0 <= k < w.tickets.len() implies w.ticket_valid(#[trigger] w.tickets[k]) by {
        if k < p {
            assert(v.ticket_valid(v.tickets[k]));
        } else if k > p {
            assert(v.ticket_valid(v.tickets[k - 1]));
        }
    }
}


/// What an accepted settlement guarantees about the ledger it applies to.
proof fn lemma_settle_facts(v: LedgerView, s: SignedRelease)
    requires
        v.wf(),
        settle_refusal(v, s) is None,
    ensures
        v.has_ticket(s.request.ticket_id),
        !v.ticket(s.request.ticket_id).settled,
        s.signer.account == v.ticket(s.request.ticket_id).terms.beneficiary,
        v.has_account(s.signer.account),
        v.account(s.signer.account).next_release_nonce < u64::MAX,
        !v.has_seen(release_tx_bytes(s)),
        v.ticket_valid(v.ticket(s.request.ticket_id)),
{
    reveal(settle_refusal);
    let ti = v.ticket_index(s.request.ticket_id);
    assert(v.ticket_valid(v.tickets[ti]));
}

/// Settling a ticket keeps the ledger's invariant: the ticket's amount leaves
/// the locked sum and is paid out in full (beneficiary share, operator fee and
/// rebate), so liquid balances plus locked amounts still equal the total supply.
pub proof fn lemma_settle_preserves_wf(v: LedgerView, s: SignedRelease, tx: TxId, w: LedgerView)
    requires
        v.wf(),
        settle_refusal(v, s) is None,
        settled(v, s, tx, w),
    ensures
        w.wf(),
        w.liquid() == v.liquid() + v.ticket(s.request.ticket_id).terms.amount.spec_units(),
        w.locked() + v.ticket(s.request.ticket_id).terms.amount.spec_units() == v.locked(),
{
    reveal(settle_refusal);
    let ti = v.ticket_index(s.request.ticket_id);
    let t = v.ticket(s.request.ticket_id);
    let plan = t.route_plan;
    assert(v.ticket_ids()[ti] == s.request.ticket_id);
    assert(v.ticket_valid(v.tickets[ti]));
    lemma_sum_locked_bound(v.tickets, ti);
    Amount::lemma_of(beneficiary_units(t));
    let v1 = v.credited(t.terms.beneficiary, Amount::of(beneficiary_units(t)));
    lemma_credit_ok(v, t.terms.beneficiary, Amount::of(beneficiary_units(t)));
    let v2 = v1.credited(plan.fee_recipient, plan.operator_fee);
    lemma_credit_ok(v1, plan.fee_recipient, plan.operator_fee);
    lemma_credit_ok(v2, rebate_target(t), plan.rebate_amount);
    let pv = paid_out(v, t);
    let si = pv.account_index(s.signer.account);
    assert(pv.account_ids()[si] == s.signer.account);
    let updated = w.accounts[si];
    lemma_sum_balances_update(pv.accounts, si, updated);
    assert(w.account_ids() =~= v.account_ids());
    assert(w.ticket_ids() =~= v.ticket_ids());
    let q = choose|q: int| fits_at(v.seen, q, tx) && w.seen == v.seen.insert(q, tx);
    crate::table::lemma_insert_sorted(v.seen, q, tx);
    lemma_sum_locked_update(v.tickets, ti, w.tickets[ti]);
    assert forall|k: int| 0 <= k < w.tickets.len() implies w.ticket_valid(#[trigger] w.tickets[k]) by {
        assert(v.ticket_valid(v.tickets[k]));
    }
}


/// One member of the JSON object of accounts: the identifier, a colon, the account.
pub open spec fn account_member(a: AccountState) -> Seq<u8> {
    a.id.json().push(58u8) + a.json()
}

/// The comma-separated members of the JSON object of accounts.
pub open spec fn account_members(s: Seq<AccountState>) -> Seq<u8>
    decreases s.len(),
{
    if s.len() == 0 {
        Seq::empty()
    } else if s.len() == 1 {
        account_member(s[0])
    } else {
        account_members(s.drop_last()).push(44u8) + account_member(s.last())
    }
}

/// One member of the JSON object of tickets: the identifier, a colon, the ticket.
pub open spec fn ticket_member(t: TicketState) -> Seq<u8> {
    t.id.json().push(58u8) + t.json()
}

/// The comma-separated members of the JSON object of tickets.
pub open spec fn ticket_members(s: Seq<TicketState>) -> Seq<u8>
    decreases s.len(),
{
    if s.len() == 0 {
        Seq::empty()
    } else if s.len() == 1 {
        ticket_member(s[0])
    } else {
        ticket_members(s.drop_last()).push(44u8) + ticket_member(s.last())
    }
}

/// The comma-separated transaction identifiers of the JSON array of processed transactions.
pub open spec fn seen_items(s: Seq<TxId>) -> Seq<u8>
    decreases s.len(),
{
    if s.len() == 0 {
        Seq::empty()
    } else if s.len() == 1 {
        s[0].json()
    } else {
        seen_items(s.drop_last()).push(44u8) + s.last().json()
    }
}

/// The canonical JSON of the ledger's state: an array of the network, the
/// asset, the accounts by identifier, the tickets by identifier, the processed
/// transactions and the total supply. The journal is not part of it.
pub open spec fn state_json(v: LedgerView) -> Seq<u8> {
    seq![91u8] + v.network_id.json() + seq![44u8] + v.asset.json() + seq![44u8, 123u8]
        + account_members(v.accounts) + seq![125u8] + seq![44u8, 123u8] + ticket_members(v.tickets)
        + seq![125u8] + seq![44u8, 91u8] + seen_items(v.seen) + seq![93u8, 44u8]
        + v.total_supply.json() + seq![93u8]
}

/// Changing one account changes the members of the accounts' JSON object
/// unless that account's member stays the same.
proof fn lemma_account_members_update(s: Seq<AccountState>, i: int, x: AccountState)
    requires
        0 <= i < s.len(),
        account_members(s.update(i, x)) == account_members(s),
    ensures
        account_member(x) == account_member(s[i]),
    decreases s.len(),
{
    let u = s.update(i, x);
    if s.len() > 1 {
        let m = account_members(s.drop_last()).push(44u8);
        if i == s.len() - 1 {
            assert(u.drop_last() =~= s.drop_last());
            assert(account_members(u) == m + account_member(x));
            lemma_split_equal(m, account_member(x), m, account_member(s.last()));
        } else {
            assert(u.drop_last() =~= s.drop_last().update(i, x));
            let mu = account_members(u.drop_last()).push(44u8);
            assert(account_members(u) == mu + account_member(s.last()));
            lemma_cancel_suffix(mu, m, account_member(s.last()));
            assert(mu.drop_last() =~= account_members(u.drop_last()));
            assert(m.drop_last() =~= account_members(s.drop_last()));
            lemma_account_members_update(s.drop_last(), i, x);
        }
    }
}

/// The ledger's state encoding commits to every account's balance and
/// nonces: changing any one of them in one account changes the encoding,
/// and so the input of the state digest.
#[verifier::spinoff_prover]
pub proof fn lemma_state_json_commits_accounts(v: LedgerView, i: int, a: AccountState)
    requires
        0 <= i < v.accounts.len(),
        a.id == v.accounts[i].id,
        a.identity == v.accounts[i].identity,
    ensures
        state_json(LedgerView { accounts: v.accounts.update(i, a), ..v }) == state_json(v) ==> {
            &&& a.next_ticket_nonce == v.accounts[i].next_ticket_nonce && a.next_release_nonce
                == v.accounts[i].next_release_nonce ==> a.balance.spec_units()
                == v.accounts[i].balance.spec_units()
            &&& a.balance == v.accounts[i].balance && a.next_release_nonce
                == v.accounts[i].next_release_nonce ==> a.next_ticket_nonce
                == v.accounts[i].next_ticket_nonce
            &&& a.balance == v.accounts[i].balance && a.next_ticket_nonce
                == v.accounts[i].next_ticket_nonce ==> a.next_release_nonce
                == v.accounts[i].next_release_nonce
        },
{
    let w = LedgerView { accounts: v.accounts.update(i, a), ..v };
    if state_json(w) == state_json(v) {
        lemma_state_json_around_accounts(v);
        lemma_state_json_around_accounts(w);
        let h = seq![91u8] + v.network_id.json() + seq![44u8] + v.asset.json() + seq![44u8, 123u8];
        let t = seq![125u8] + seq![44u8, 123u8] + ticket_members(v.tickets) + seq![125u8] + seq![
            44u8,
            91u8,
        ] + seen_items(v.seen) + seq![93u8, 44u8] + v.total_supply.json() + seq![93u8];
        lemma_middle_equal(h, account_members(w.accounts), account_members(v.accounts), t);
        lemma_account_members_update(v.accounts, i, a);
        let pre = a.id.json().push(58u8);
        lemma_split_equal(pre, a.json(), pre, v.accounts[i].json());
        crate::account::lemma_account_json_commits(a, v.accounts[i]);
    }
}

/// The state encoding, grouped around the accounts' members.
#[verifier::spinoff_prover]
proof fn lemma_state_json_around_accounts(v: LedgerView)
    ensures
        state_json(v) == (seq![91u8] + v.network_id.json() + seq![44u8] + v.asset.json() + seq![
            44u8,
            123u8,
        ]) + account_members(v.accounts) + (seq![125u8] + seq![44u8, 123u8] + ticket_members(
            v.tickets,
        ) + seq![125u8] + seq![44u8, 91u8] + seen_items(v.seen) + seq![93u8, 44u8]
            + v.total_supply.json() + seq![93u8]),
{
    assert(state_json(v) =~= (seq![91u8] + v.network_id.json() + seq![44u8] + v.asset.json() + seq![
        44u8,
        123u8,
    ]) + account_members(v.accounts) + (seq![125u8] + seq![44u8, 123u8] + ticket_members(v.tickets)
        + seq![125u8] + seq![44u8, 91u8] + seen_items(v.seen) + seq![93u8, 44u8]
        + v.total_supply.json() + seq![93u8]));
}

/// The bytes of the digest of the ledger's state.
#[verifier::opaque]
pub open spec fn state_digest_bytes(v: LedgerView) -> Seq<u8> {
    digest_of_one("vertex-ledger-state-v3".spec_bytes(), state_json(v))
}

impl CanonicalJson for TicketState {
    open spec fn json(&self) -> Seq<u8> {
        text("{\"id\":") + self.id.json() + text(",\"terms\":") + self.terms.json() + text(
            ",\"route_plan\":",
        ) + self.route_plan.json() + text(",\"settled\":") + self.settled.json() + text("}")
    }

    fn write_json(&self, out: &mut Vec<u8>) {
        let mut buf: Vec<u8> = Vec::new();
        append_text(&mut buf, "{\"id\":");
        assert(buf@ =~= text("{\"id\":"));
        self.id.write_json(&mut buf);
        append_text(&mut buf, ",\"terms\":");
        self.terms.write_json(&mut buf);
        append_text(&mut buf, ",\"route_plan\":");
        self.route_plan.write_json(&mut buf);
        append_text(&mut buf, ",\"settled\":");
        self.settled.write_json(&mut buf);
        append_text(&mut buf, "}");
        assert(buf@ == self.json());
        out.append(&mut buf);
    }
}


/// A ticket that was opened can be read back: it is on the ledger, unsettled,
/// with the signed terms and route; the payer's ticket nonce has advanced by
/// one and its balance dropped by the amount; the transaction is recorded as
/// processed; and the total supply is unchanged.
pub proof fn lemma_open_then_read(v: LedgerView, s: SignedTicket, tx: TxId, w: LedgerView)
    requires
        v.wf(),
        open_refusal(v, s) is None,
        opened(v, s, tx, w),
    ensures
        w.has_ticket(s.terms.ticket_id),
        w.ticket(s.terms.ticket_id) == opened_ticket(s),
        w.has_account(s.terms.payer),
        w.account(s.terms.payer).next_ticket_nonce == v.account(s.terms.payer).next_ticket_nonce + 1,
        w.account(s.terms.payer).balance.spec_units() + s.terms.amount.spec_units()
            == v.account(s.terms.payer).balance.spec_units(),
        w.has_seen(ticket_tx_bytes(s)),
        w.total_supply == v.total_supply,
{
    lemma_open_facts(v, s);
    lemma_open_preserves_wf(v, s, tx, w);
    lemma_open_read_ticket(v, s, tx, w);
    lemma_open_read_payer(v, s, tx, w);
    lemma_open_read_seen(v, s, tx, w);
}

proof fn lemma_open_read_ticket(v: LedgerView, s: SignedTicket, tx: TxId, w: LedgerView)
    requires
        w.wf(),
        opened(v, s, tx, w),
    ensures
        w.has_ticket(s.terms.ticket_id),
        w.ticket(s.terms.ticket_id) == opened_ticket(s),
{
    let p = choose|p: int|
        fits_at(v.ticket_ids(), p, s.terms.ticket_id) && w.tickets == v.tickets.insert(p, opened_ticket(s));
    assert(w.ticket_ids()[p] == s.terms.ticket_id);
    crate::table::lemma_index_of_sorted(w.ticket_ids(), p);
}

proof fn lemma_open_read_payer(v: LedgerView, s: SignedTicket, tx: TxId, w: LedgerView)
    requires
        v.wf(),
        v.has_account(s.terms.payer),
        s.terms.amount.spec_units() <= v.account(s.terms.payer).balance.spec_units(),
        opened(v, s, tx, w),
    ensures
        w.has_account(s.terms.payer),
        w.account(s.terms.payer).next_ticket_nonce == (v.account(s.terms.payer).next_ticket_nonce
            + 1) as u64,
        w.account(s.terms.payer).balance.spec_units() + s.terms.amount.spec_units()
            == v.account(s.terms.payer).balance.spec_units(),
{
    let terms = s.terms;
    let i = v.account_index(terms.payer);
    assert(v.account_ids()[i] == terms.payer);
    assert(w.account_ids() =~= v.account_ids());
    crate::table::lemma_index_of_sorted(v.account_ids(), i);
    lemma_sum_balances_bound(v.accounts, i);
    Amount::lemma_of((v.account(terms.payer).balance.spec_units() - terms.amount.spec_units()) as nat);
}

proof fn lemma_open_read_seen(v: LedgerView, s: SignedTicket, tx: TxId, w: LedgerView)
    requires
        opened(v, s, tx, w),
    ensures
        w.has_seen(ticket_tx_bytes(s)),
{
    let q = choose|q: int| fits_at(v.seen, q, tx) && w.seen == v.seen.insert(q, tx);
    assert(w.seen[q] == tx);
    assert(TxId::from_view(ticket_tx_bytes(s)) == tx);
}

/// Opening the same signed ticket twice is refused the second time: the
/// ticket already exists.
pub proof fn lemma_open_replay_refused(v: LedgerView, s: SignedTicket, tx: TxId, w: LedgerView)
    requires
        v.wf(),
        open_refusal(v, s) is None,
        opened(v, s, tx, w),
    ensures
        open_refusal(w, s) == Some(Refusal::Error(VertexError::TicketAlreadyExists(s.terms.ticket_id))),
{
    lemma_open_then_read(v, s, tx, w);
    lemma_open_facts(v, s);
    reveal(open_refusal);
}

/// A settled ticket can be read back as settled; the signer's release nonce
/// has advanced by one; the transaction is recorded as processed; and the
/// total supply is unchanged.
pub proof fn lemma_settle_then_read(v: LedgerView, s: SignedRelease, tx: TxId, w: LedgerView)
    requires
        v.wf(),
        settle_refusal(v, s) is None,
        settled(v, s, tx, w),
    ensures
        w.has_ticket(s.request.ticket_id),
        w.ticket(s.request.ticket_id).settled,
        w.ticket(s.request.ticket_id).terms == v.ticket(s.request.ticket_id).terms,
        w.ticket(s.request.ticket_id) == (TicketState { settled: true, ..v.ticket(s.request.ticket_id) }),
        w.account_ids() == v.account_ids(),
        w.has_account(s.signer.account),
        w.account(s.signer.account).next_release_nonce == v.account(s.signer.account).next_release_nonce
            + 1,
        w.has_seen(release_tx_bytes(s)),
        w.total_supply == v.total_supply,
{
    reveal(settle_refusal);
    lemma_settle_facts(v, s);
    lemma_settle_preserves_wf(v, s, tx, w);
    let ti = v.ticket_index(s.request.ticket_id);
    assert(v.ticket_ids()[ti] == s.request.ticket_id);
    assert(w.ticket_ids() =~= v.ticket_ids());
    assert(w.ticket_ids()[ti] == s.request.ticket_id);
    crate::table::lemma_index_of_sorted(w.ticket_ids(), ti);
    let t = v.ticket(s.request.ticket_id);
    let plan = t.route_plan;
    lemma_sum_locked_bound(v.tickets, ti);
    Amount::lemma_of(beneficiary_units(t));
    let v1 = v.credited(t.terms.beneficiary, Amount::of(beneficiary_units(t)));
    lemma_credit_ok(v, t.terms.beneficiary, Amount::of(beneficiary_units(t)));
    let v2 = v1.credited(plan.fee_recipient, plan.operator_fee);
    lemma_credit_ok(v1, plan.fee_recipient, plan.operator_fee);
    lemma_credit_ok(v2, rebate_target(t), plan.rebate_amount);
    let pv = paid_out(v, t);
    let si = v.account_index(s.signer.account);
    assert(v.account_ids()[si] == s.signer.account);
    assert(pv.account_ids() == v.account_ids());
    assert(w.account_ids() =~= v.account_ids());
    assert(w.account_ids()[si] == s.signer.account);
    crate::table::lemma_index_of_sorted(w.account_ids(), si);
    let q = choose|q: int| fits_at(v.seen, q, tx) && w.seen == v.seen.insert(q, tx);
    assert(w.seen[q] == tx);
    assert(TxId::from_view(release_tx_bytes(s)) == tx);
}

/// Releasing the same ticket twice is refused the second time: the ticket is
/// already settled.
pub proof fn lemma_settle_replay_refused(v: LedgerView, s: SignedRelease, tx: TxId, w: LedgerView)
    requires
        v.wf(),
        settle_refusal(v, s) is None,
        settled(v, s, tx, w),
    ensures
        settle_refusal(w, s) == Some(
            Refusal::Error(VertexError::TicketSettled(s.request.ticket_id)),
        ),
{
    lemma_settle_then_read(v, s, tx, w);
    reveal(settle_refusal);
    let ti = v.ticket_index(s.request.ticket_id);
    assert(v.ticket_ids()[ti] == s.request.ticket_id);
    assert(w.ticket(s.request.ticket_id).id == s.request.ticket_id) by {
        let wi = w.ticket_index(s.request.ticket_id);
        assert(w.ticket_ids()[wi] == s.request.ticket_id);
    }
}

/// A settlement pays out exactly the ticket's amount: the beneficiary's share,
/// the operator fee and the rebate add up to it.
pub proof fn lemma_settlement_splits_amount(t: TicketState)
    requires
        charge_units(t.route_plan) <= t.terms.amount.spec_units(),
    ensures
        beneficiary_units(t) + t.route_plan.operator_fee.spec_units()
            + t.route_plan.rebate_amount.spec_units() == t.terms.amount.spec_units(),
{
}


/// Crediting `amount` to account `id` changes no other account, and adds the
/// amount to that account's balance.
pub proof fn lemma_credited_account(v: LedgerView, id: AccountId, amount: Amount, x: AccountId)
    requires
        keys_sorted(v.account_ids()),
        v.has_account(id),
        v.has_account(x),
        v.account(id).balance.spec_units() + amount.spec_units() <= MAX_LEDGER_UNITS,
    ensures
        v.credited(id, amount).has_account(x),
        v.credited(id, amount).account(x).balance.spec_units() == v.account(x).balance.spec_units()
            + if x == id {
            amount.spec_units()
        } else {
            0
        },
        v.credited(id, amount).account(x).next_ticket_nonce == v.account(x).next_ticket_nonce,
        v.credited(id, amount).account(x).next_release_nonce == v.account(x).next_release_nonce,
{
    let w = v.credited(id, amount);
    let i = v.account_index(id);
    let j = v.account_index(x);
    assert(v.account_ids()[i] == id);
    assert(v.account_ids()[j] == x);
    assert(w.account_ids() =~= v.account_ids());
    crate::table::lemma_index_of_sorted(v.account_ids(), j);
    Amount::lemma_of(v.account(id).balance.spec_units() + amount.spec_units());
    if x != id {
        assert(i != j);
    }
}

/// Registering an identity adds exactly its account, with an empty balance,
/// and changes no other account.
pub proof fn lemma_registered_account(v: LedgerView, identity: PublicIdentity, w: LedgerView, x: AccountId)
    requires
        keys_sorted(v.account_ids()),
        registered(v, identity, w),
    ensures
        !v.has_account(identity.account),
        w.has_account(x) == (v.has_account(x) || x == identity.account),
        v.has_account(x) ==> w.account(x) == v.account(x),
        w.account(identity.account).balance.spec_units() == 0,
        w.account(identity.account).next_ticket_nonce == 0,
        w.account(identity.account).next_release_nonce == 0,
        w.tickets == v.tickets,
        w.seen == v.seen,
        w.network_id == v.network_id,
        w.asset == v.asset,
        w.total_supply == v.total_supply,
{
    let p = choose|p: int|
        fits_at(v.account_ids(), p, identity.account) && w == (LedgerView {
            accounts: v.accounts.insert(
                p,
                AccountState {
                    id: identity.account,
                    identity,
                    balance: Amount::of(0),
                    next_ticket_nonce: 0,
                    next_release_nonce: 0,
                },
            ),
            ..v
        });
    crate::table::lemma_fits_absent(v.account_ids(), p, identity.account);
    assert(w.account_ids() =~= v.account_ids().insert(p, identity.account));
    crate::table::lemma_insert_sorted(v.account_ids(), p, identity.account);
    assert(w.account_ids()[p] == identity.account);
    crate::table::lemma_index_of_sorted(w.account_ids(), p);
    Amount::lemma_of(0);
    if v.has_account(x) {
        let j = v.account_index(x);
        assert(v.account_ids()[j] == x);
        crate::table::lemma_index_of_sorted(v.account_ids(), j);
        if j < p {
            assert(w.account_ids()[j] == x);
            crate::table::lemma_index_of_sorted(w.account_ids(), j);
        } else {
            assert(w.account_ids()[j + 1] == x);
            crate::table::lemma_index_of_sorted(w.account_ids(), j + 1);
        }
    }
    if w.has_account(x) && x != identity.account {
        let k = choose|k: int| 0 <= k < w.account_ids().len() && w.account_ids()[k] == x;
        if k < p {
            assert(v.account_ids()[k] == x);
        } else {
            assert(k != p);
            assert(v.account_ids()[k - 1] == x);
        }
    }
}

/// A genesis credit adds the amount to the credited account only.
pub proof fn lemma_genesis_account(v: LedgerView, account: AccountId, amount: Amount, tx: TxId, x: AccountId)
    requires
        v.wf(),
        genesis_refusal(v, account, amount) is None,
        v.has_account(x),
    ensures
        after_genesis(v, account, amount, tx).has_account(x),
        after_genesis(v, account, amount, tx).account(x).balance.spec_units() == v.account(x).balance.spec_units()
            + if x == account {
            amount.spec_units()
        } else {
            0
        },
        after_genesis(v, account, amount, tx).total_supply.spec_units() == v.total_supply.spec_units()
            + amount.spec_units(),
        after_genesis(v, account, amount, tx).account(x).next_ticket_nonce == v.account(x).next_ticket_nonce,
        after_genesis(v, account, amount, tx).account(x).next_release_nonce == v.account(x).next_release_nonce,
        after_genesis(v, account, amount, tx).tickets == v.tickets,
        after_genesis(v, account, amount, tx).seen == v.seen,
{
    lemma_credited_account(v, account, amount, x);
    Amount::lemma_of(v.total_supply.spec_units() + amount.spec_units());
    assert(after_genesis(v, account, amount, tx).account_ids() == v.credited(account, amount).account_ids());
}

/// Opening a ticket debits the payer's balance by the amount and advances its
/// ticket nonce; every other account is unchanged.
pub proof fn lemma_opened_account(v: LedgerView, s: SignedTicket, tx: TxId, w: LedgerView, x: AccountId)
    requires
        v.wf(),
        open_refusal(v, s) is None,
        opened(v, s, tx, w),
        v.has_account(x),
    ensures
        w.has_account(x),
        w.account(x).balance.spec_units() + (if x == s.terms.payer {
            s.terms.amount.spec_units()
        } else {
            0
        }) == v.account(x).balance.spec_units(),
        w.account(x).next_ticket_nonce == if x == s.terms.payer {
            (v.account(x).next_ticket_nonce + 1) as u64
        } else {
            v.account(x).next_ticket_nonce
        },
        w.account(x).next_release_nonce == v.account(x).next_release_nonce,
{
    lemma_open_facts(v, s);
    let i = v.account_index(s.terms.payer);
    let j = v.account_index(x);
    assert(v.account_ids()[i] == s.terms.payer);
    assert(v.account_ids()[j] == x);
    assert(w.account_ids() =~= v.account_ids());
    crate::table::lemma_index_of_sorted(v.account_ids(), j);
    lemma_sum_balances_bound(v.accounts, i);
    Amount::lemma_of((v.account(s.terms.payer).balance.spec_units() - s.terms.amount.spec_units()) as nat);
    if x != s.terms.payer {
        assert(i != j);
    }
}

/// The units that a settlement credits to account `x`: the beneficiary's
/// share, the operator fee and the rebate, for whichever of their recipients
/// `x` is.
pub open spec fn settlement_credit(t: TicketState, x: AccountId) -> nat {
    payout_credit(t.route_plan, t.terms.beneficiary, t.terms.amount, x)
}

/// The units that settling a ticket of `amount` for `beneficiary` over `route`
/// credits to account `x`.
pub open spec fn payout_credit(route: RoutePlan, beneficiary: AccountId, amount: Amount, x: AccountId) -> nat {
    (if x == beneficiary {
        (amount.spec_units() - charge_units(route)) as nat
    } else {
        0
    }) + (if x == route.fee_recipient {
        route.operator_fee.spec_units()
    } else {
        0
    }) + (if x == (match route.rebate_recipient {
        Some(r) => r,
        None => beneficiary,
    }) {
        route.rebate_amount.spec_units()
    } else {
        0
    })
}

/// Settling a ticket credits each account exactly its share of the payout and
/// advances the signer's release nonce.
pub proof fn lemma_settled_account(v: LedgerView, s: SignedRelease, tx: TxId, w: LedgerView, x: AccountId)
    requires
        v.wf(),
        settle_refusal(v, s) is None,
        settled(v, s, tx, w),
        v.has_account(x),
    ensures
        w.has_account(x),
        w.account(x).balance.spec_units() == v.account(x).balance.spec_units() + settlement_credit(
            v.ticket(s.request.ticket_id),
            x,
        ),
        w.account(x).next_ticket_nonce == v.account(x).next_ticket_nonce,
        w.account(x).next_release_nonce == if x == s.signer.account {
            (v.account(x).next_release_nonce + 1) as u64
        } else {
            v.account(x).next_release_nonce
        },
{
    lemma_settle_facts(v, s);
    let ti = v.ticket_index(s.request.ticket_id);
    let t = v.ticket(s.request.ticket_id);
    let plan = t.route_plan;
    assert(v.ticket_ids()[ti] == s.request.ticket_id);
    lemma_sum_locked_bound(v.tickets, ti);
    Amount::lemma_of(beneficiary_units(t));
    let b = Amount::of(beneficiary_units(t));
    let v1 = v.credited(t.terms.beneficiary, b);
    lemma_credit_ok(v, t.terms.beneficiary, b);
    lemma_sum_balances_bound(v.accounts, v.account_index(t.terms.beneficiary));
    assert(v.account_ids()[v.account_index(t.terms.beneficiary)] == t.terms.beneficiary);
    lemma_credited_account(v, t.terms.beneficiary, b, x);
    let v2 = v1.credited(plan.fee_recipient, plan.operator_fee);
    lemma_credit_ok(v1, plan.fee_recipient, plan.operator_fee);
    lemma_credited_account(v, t.terms.beneficiary, b, plan.fee_recipient);
    lemma_sum_balances_bound(v1.accounts, v1.account_index(plan.fee_recipient));
    assert(v1.account_ids()[v1.account_index(plan.fee_recipient)] == plan.fee_recipient);
    lemma_credited_account(v1, plan.fee_recipient, plan.operator_fee, x);
    lemma_credit_ok(v2, rebate_target(t), plan.rebate_amount);
    lemma_credited_account(v, t.terms.beneficiary, b, rebate_target(t));
    lemma_credited_account(v1, plan.fee_recipient, plan.operator_fee, rebate_target(t));
    lemma_sum_balances_bound(v2.accounts, v2.account_index(rebate_target(t)));
    assert(v2.account_ids()[v2.account_index(rebate_target(t))] == rebate_target(t));
    lemma_credited_account(v2, rebate_target(t), plan.rebate_amount, x);
    let pv = paid_out(v, t);
    let si = pv.account_index(s.signer.account);
    let j = pv.account_index(x);
    assert(pv.account_ids() == v.account_ids());
    assert(pv.account_ids()[si] == s.signer.account);
    assert(pv.account_ids()[j] == x);
    assert(w.account_ids() =~= pv.account_ids());
    crate::table::lemma_index_of_sorted(pv.account_ids(), j);
    if x != s.signer.account {
        assert(si != j);
    }
}


/// The checks of an opening, spelled out: it is accepted exactly when the
/// payer's signature verifies, the network and asset match, the ticket is new,
/// every party of the route and the beneficiary are registered, the route
/// passes the payer's policy, the payer is registered, uses its next ticket
/// nonce (which can still advance) and covers the amount, and the transaction
/// is new.
pub proof fn lemma_open_accepted(v: LedgerView, s: SignedTicket)
    ensures
        open_refusal(v, s) is None <==> {
            &&& ticket_signature_refusal(s) is None
            &&& s.terms.network_id == v.network_id
            &&& s.terms.asset == v.asset
            &&& !v.has_ticket(s.terms.ticket_id)
            &&& v.has_account(s.terms.beneficiary)
            &&& v.has_account(s.route_plan.operator)
            &&& v.has_account(s.route_plan.fee_recipient)
            &&& (s.route_plan.rebate_recipient matches Some(r) ==> v.has_account(r))
            &&& route_refusal(s.route_plan, s.terms.route_policy, s.terms.amount) is None
            &&& v.has_account(s.terms.payer)
            &&& v.account(s.terms.payer).next_ticket_nonce == s.terms.payer_nonce
            &&& s.terms.payer_nonce < u64::MAX
            &&& s.terms.amount.spec_units() <= v.account(s.terms.payer).balance.spec_units()
            &&& !v.has_seen(ticket_tx_bytes(s))
        },
{
    reveal(open_refusal);
}

/// The checks of a settlement, spelled out: it is accepted exactly when the
/// signer's signature verifies, the network matches, the ticket exists and is
/// unsettled, the signer is its beneficiary, the observed route digest is the
/// one of the ticket's route, the signer is registered and uses its next
/// release nonce (which can still advance), and the transaction is new.
pub proof fn lemma_settle_accepted(v: LedgerView, s: SignedRelease)
    requires
        v.wf(),
    ensures
        settle_refusal(v, s) is None <==> {
            &&& release_signature_refusal(s) is None
            &&& s.request.network_id == v.network_id
            &&& v.has_ticket(s.request.ticket_id)
            &&& !v.ticket(s.request.ticket_id).settled
            &&& s.signer.account == v.ticket(s.request.ticket_id).terms.beneficiary
            &&& s.request.observed_route_digest@ == route_digest_bytes(v.ticket(s.request.ticket_id).route_plan)
            &&& v.has_account(s.signer.account)
            &&& v.account(s.signer.account).next_release_nonce == s.request.release_nonce
            &&& s.request.release_nonce < u64::MAX
            &&& !v.has_seen(release_tx_bytes(s))
        },
{
    reveal(settle_refusal);
    if v.has_ticket(s.request.ticket_id) {
        let ti = v.ticket_index(s.request.ticket_id);
        assert(v.ticket_valid(v.tickets[ti]));
    }
}

/// Opening a ticket adds exactly its identifier to the tickets and its
/// transaction to the processed ones.
pub proof fn lemma_opened_members(v: LedgerView, s: SignedTicket, tx: TxId, w: LedgerView)
    requires
        opened(v, s, tx, w),
    ensures
        forall|x: TicketId| #[trigger] w.has_ticket(x) <==> v.has_ticket(x) || x == s.terms.ticket_id,
        forall|x: TxId| #[trigger] w.seen.contains(x) <==> v.seen.contains(x) || x == tx,
{
    let p = choose|p: int|
        fits_at(v.ticket_ids(), p, s.terms.ticket_id) && w.tickets == v.tickets.insert(p, opened_ticket(s));
    let q = choose|q: int| fits_at(v.seen, q, tx) && w.seen == v.seen.insert(q, tx);
    assert(w.ticket_ids() =~= v.ticket_ids().insert(p, s.terms.ticket_id));
    lemma_insert_members(v.ticket_ids(), p, s.terms.ticket_id);
    lemma_insert_members(v.seen, q, tx);
}

/// Settling a ticket keeps the tickets' identifiers and adds exactly its
/// transaction to the processed ones.
pub proof fn lemma_settled_members(v: LedgerView, s: SignedRelease, tx: TxId, w: LedgerView)
    requires
        v.has_ticket(s.request.ticket_id),
        settled(v, s, tx, w),
    ensures
        forall|x: TicketId| #[trigger] w.has_ticket(x) <==> v.has_ticket(x),
        forall|x: TxId| #[trigger] w.seen.contains(x) <==> v.seen.contains(x) || x == tx,
{
    let ti = v.ticket_index(s.request.ticket_id);
    let t = v.tickets[ti];
    assert(v.ticket_ids()[ti] == s.request.ticket_id);
    assert(w.tickets == v.tickets.update(ti, TicketState { settled: true, ..t }));
    assert(w.ticket_ids() =~= v.ticket_ids());
    let q = choose|q: int| fits_at(v.seen, q, tx) && w.seen == v.seen.insert(q, tx);
    lemma_insert_members(v.seen, q, tx);
}

/// Registering a fresh identity keeps the ledger's invariant.
pub proof fn lemma_register_preserves_wf(v: LedgerView, identity: PublicIdentity, w: LedgerView)
    requires
        v.wf(),
        registered(v, identity, w),
    ensures
        w.wf(),
{
    let state = AccountState {
        id: identity.account,
        identity,
        balance: Amount::of(0),
        next_ticket_nonce: 0,
        next_release_nonce: 0,
    };
    let p = choose|p: int|
        fits_at(v.account_ids(), p, identity.account) && w == (LedgerView {
            accounts: v.accounts.insert(p, state),
            ..v
        });
    assert(w.account_ids() =~= v.account_ids().insert(p, identity.account));
    crate::table::lemma_insert_sorted(v.account_ids(), p, identity.account);
    Amount::lemma_of(0);
    lemma_sum_balances_insert(v.accounts, p, state);
    assert forall|i: int| 0 <= i < w.tickets.len() implies w.ticket_valid(#[trigger] w.tickets[i]) by {
        let t = w.tickets[i];
        assert(v.ticket_valid(v.tickets[i]));
        lemma_contains_insert(v.account_ids(), p, identity.account, t.terms.beneficiary);
        lemma_contains_insert(v.account_ids(), p, identity.account, t.route_plan.fee_recipient);
        if let Some(rr) = t.route_plan.rebate_recipient {
            lemma_contains_insert(v.account_ids(), p, identity.account, rr);
        }
    }
}

/// An accepted genesis credit keeps the ledger's invariant and its registered
/// accounts.
pub proof fn lemma_genesis_preserves_wf(v: LedgerView, account: AccountId, amount: Amount, tx: TxId)
    requires
        v.wf(),
        genesis_refusal(v, account, amount) is None,
    ensures
        after_genesis(v, account, amount, tx).wf(),
        after_genesis(v, account, amount, tx).account_ids() == v.account_ids(),
{
    let i = v.account_index(account);
    let w = after_genesis(v, account, amount, tx);
    assert(v.account_ids()[i] == account);
    assert(w.account_ids() =~= v.account_ids());
    lemma_sum_balances_update(v.accounts, i, w.accounts[i]);
    Amount::lemma_of(v.account(account).balance.spec_units() + amount.spec_units());
    Amount::lemma_of(v.total_supply.spec_units() + amount.spec_units());
    assert forall|k: int| 0 <= k < w.tickets.len() implies w.ticket_valid(#[trigger] w.tickets[k]) by {
        assert(v.ticket_valid(v.tickets[k]));
    }
}

/// Opening a ticket keeps the registered accounts and every ticket already
/// on the ledger.
#[verifier::spinoff_prover]
pub proof fn lemma_opened_keeps(v: LedgerView, s: SignedTicket, tx: TxId, w: LedgerView, x: TicketId)
    requires
        v.wf(),
        open_refusal(v, s) is None,
        opened(v, s, tx, w),
    ensures
        w.account_ids() == v.account_ids(),
        v.has_ticket(x) ==> w.ticket(x) == v.ticket(x),
{
    lemma_open_facts(v, s);
    let i = v.account_index(s.terms.payer);
    assert(v.account_ids()[i] == s.terms.payer);
    assert(w.account_ids() =~= v.account_ids());
    if v.has_ticket(x) {
        let p = choose|p: int|
            fits_at(v.ticket_ids(), p, s.terms.ticket_id) && w.tickets == v.tickets.insert(p, opened_ticket(s));
        let j = v.ticket_index(x);
        assert(v.ticket_ids()[j] == x);
        assert(w.ticket_ids() =~= v.ticket_ids().insert(p, s.terms.ticket_id));
        crate::table::lemma_insert_sorted(v.ticket_ids(), p, s.terms.ticket_id);
        if j < p {
            assert(w.ticket_ids()[j] == x);
            crate::table::lemma_index_of_sorted(w.ticket_ids(), j);
        } else {
            assert(w.ticket_ids()[j + 1] == x);
            crate::table::lemma_index_of_sorted(w.ticket_ids(), j + 1);
        }
    }
}

/// Settling a ticket keeps the registered accounts and every other ticket.
#[verifier::spinoff_prover]
pub proof fn lemma_settled_keeps(v: LedgerView, s: SignedRelease, tx: TxId, w: LedgerView, x: TicketId)
    requires
        v.wf(),
        settle_refusal(v, s) is None,
        settled(v, s, tx, w),
    ensures
        w.account_ids() == v.account_ids(),
        v.has_ticket(x) && x != s.request.ticket_id ==> w.ticket(x) == v.ticket(x),
{
    lemma_settle_then_read(v, s, tx, w);
    lemma_settle_facts(v, s);
    let ti = v.ticket_index(s.request.ticket_id);
    assert(v.ticket_ids()[ti] == s.request.ticket_id);
    assert(w.tickets == v.tickets.update(ti, TicketState { settled: true, ..v.tickets[ti] }));
    assert(w.ticket_ids() =~= v.ticket_ids());
    if v.has_ticket(x) && x != s.request.ticket_id {
        let j = v.ticket_index(x);
        assert(v.ticket_ids()[j] == x);
        crate::table::lemma_index_of_sorted(w.ticket_ids(), j);
        assert(j != ti);
    }
}

/// What a sequence holds after an insertion: what it held, and the new item.
proof fn lemma_insert_members<T>(s: Seq<T>, p: int, k: T)
    requires
        0 <= p <= s.len(),
    ensures
        forall|x: T| #[trigger] s.insert(p, k).contains(x) <==> s.contains(x) || x == k,
{
    assert forall|x: T| #[trigger] s.insert(p, k).contains(x) <==> s.contains(x) || x == k by {
        if s.contains(x) {
            lemma_contains_insert(s, p, k, x);
        }
        if x == k {
            assert(s.insert(p, k)[p] == k);
        }
        if s.insert(p, k).contains(x) && x != k {
            let j = choose|j: int| 0 <= j < s.insert(p, k).len() && s.insert(p, k)[j] == x;
            if j < p {
                assert(s[j] == x);
            } else {
                assert(s[j - 1] == x);
            }
        }
    }
}

/// A signed ticket whose transaction has already been processed is refused.
pub proof fn lemma_seen_ticket_refused(v: LedgerView, s: SignedTicket)
    requires
        v.has_seen(ticket_tx_bytes(s)),
    ensures
        open_refusal(v, s) is Some,
{
    reveal(open_refusal);
}

/// A signed release whose transaction has already been processed is refused.
pub proof fn lemma_seen_release_refused(v: LedgerView, s: SignedRelease)
    requires
        v.has_seen(release_tx_bytes(s)),
    ensures
        settle_refusal(v, s) is Some,
{
    reveal(settle_refusal);
}

/// A release that observed a route other than the one registered with its
/// ticket is refused.
pub proof fn lemma_route_mismatch_refused(v: LedgerView, s: SignedRelease)
    requires
        v.has_ticket(s.request.ticket_id),
        s.request.observed_route_digest@ != route_digest_bytes(v.ticket(s.request.ticket_id).route_plan),
    ensures
        settle_refusal(v, s) is Some,
{
    reveal(settle_refusal);
}

/// A ticket whose nonce is not the payer's next ticket nonce is refused.
pub proof fn lemma_stale_ticket_nonce_refused(v: LedgerView, s: SignedTicket)
    requires
        v.has_account(s.terms.payer),
        v.account(s.terms.payer).next_ticket_nonce != s.terms.payer_nonce,
    ensures
        open_refusal(v, s) is Some,
{
    reveal(open_refusal);
}

// ---------------------------------------------------------------------------
// The ledger
// ---------------------------------------------------------------------------

/// The settlement ledger of one network and one asset.
#[derive(Clone, Debug, PartialEq, Eq)]
pub struct VertexLedger {
    network_id: u32,
    asset: AssetId,
    accounts: Table<AccountId, AccountState>,
    tickets: Table<TicketId, TicketState>,
    seen_transactions: Table<TxId, ()>,
    total_supply: Amount,
    journal: Vec<JournalEntry>,
}

impl View for VertexLedger {
    type V = LedgerView;

    closed spec fn view(&self) -> LedgerView {
        LedgerView {
            network_id: self.network_id,
            asset: self.asset,
            accounts: self.accounts.vals(),
            tickets: self.tickets.vals(),
            seen: self.seen_transactions.keys(),
            total_supply: self.total_supply,
            journal: self.journal@,
        }
    }
}

impl VertexLedger {
    /// The tables are well formed and keyed by the identifiers of their entries.
    closed spec fn tables_ok(&self) -> bool {
        &&& self.accounts.wf()
        &&& self.tickets.wf()
        &&& self.seen_transactions.wf()
        &&& self.accounts.keys() == self@.account_ids()
        &&& self.tickets.keys() == self@.ticket_ids()
    }

    /// The invariant of the ledger.
    pub closed spec fn wf(&self) -> bool {
        &&& self.tables_ok()
        &&& self@.wf()
    }

    /// A well-formed ledger has a well-formed view.
    pub proof fn lemma_wf_view(&self)
        requires
            self.wf(),
        ensures
            self@.wf(),
    {
    }

    /// An empty ledger for a network and an asset.
    pub fn new(network_id: u32, asset: AssetId) -> (r: VertexLedger)
        ensures
            r.wf(),
            r@ == empty_ledger(network_id, asset),
    {
        let r = VertexLedger {
            network_id,
            asset,
            accounts: Table::new(),
            tickets: Table::new(),
            seen_transactions: Table::new(),
            total_supply: Amount::zero(),
            journal: Vec::new(),
        };
        proof {
            Amount::lemma_of(0);
            assert(r@.account_ids() =~= Seq::<AccountId>::empty());
            assert(r@.ticket_ids() =~= Seq::<TicketId>::empty());
        }
        r
    }

    /// The network the ledger serves.
    pub fn network_id(&self) -> (r: u32)
        ensures
            r == self@.network_id,
    {
        self.network_id
    }

    /// The asset the ledger holds.
    pub fn asset(&self) -> (r: AssetId)
        ensures
            r == self@.asset,
    {
        self.asset
    }

    /// The total supply credited through genesis.
    pub fn total_supply(&self) -> (r: Amount)
        ensures
            r == self@.total_supply,
    {
        self.total_supply
    }

    /// A copy of the ledger.
    fn copy(&self) -> (r: VertexLedger)
        ensures
            r@ == self@,
            r.tables_ok() == self.tables_ok(),
            r.wf() == self.wf(),
    {
        let mut journal: Vec<JournalEntry> = Vec::new();
        let n = self.journal.len();
        let mut i: usize = 0;
        while i < n
            invariant
                n == self.journal@.len(),
                i <= n,
                journal@ == self.journal@.take(i as int),
            decreases n - i,
        {
            journal.push(self.journal[i]);
            i = i + 1;
            assert(journal@ =~= self.journal@.take(i as int));
        }
        assert(journal@ =~= self.journal@);
        VertexLedger {
            network_id: self.network_id,
            asset: self.asset,
            accounts: self.accounts.copy(),
            tickets: self.tickets.copy(),
            seen_transactions: self.seen_transactions.copy(),
            total_supply: self.total_supply,
            journal,
        }
    }

    /// The position of account `id`, if it is registered.
    fn account_slot(&self, id: AccountId) -> (r: Option<usize>)
        requires
            self.tables_ok(),
        ensures
            r is None <==> !self@.has_account(id),
            r matches Some(i) ==> i == self@.account_index(id) && i < self@.accounts.len()
                && self@.accounts[i as int].id == id,
    {
        match self.accounts.find(&id) {
            Ok(i) => {
                proof {
                    crate::table::lemma_index_of_sorted(self.accounts.keys(), i as int);
                    assert(self@.account_ids()[i as int] == self@.accounts[i as int].id);
                }
                Some(i)
            },
            Err(_) => None,
        }
    }

    /// The position of ticket `id`, if it is on the ledger.
    fn ticket_slot(&self, id: TicketId) -> (r: Option<usize>)
        requires
            self.tables_ok(),
        ensures
            r is None <==> !self@.has_ticket(id),
            r matches Some(i) ==> i == self@.ticket_index(id) && i < self@.tickets.len()
                && self@.tickets[i as int].id == id,
    {
        match self.tickets.find(&id) {
            Ok(i) => {
                proof {
                    crate::table::lemma_index_of_sorted(self.tickets.keys(), i as int);
                    assert(self@.ticket_ids()[i as int] == self@.tickets[i as int].id);
                }
                Some(i)
            },
            Err(_) => None,
        }
    }

    /// The state of a registered account.
    fn ensure_account(&self, account: AccountId) -> (r: VertexResult<&AccountState>)
        requires
            self.tables_ok(),
        ensures
            !self@.has_account(account) ==> r == Err::<&AccountState, VertexError>(
                VertexError::AccountNotFound(account),
            ),
            self@.has_account(account) ==> (r matches Ok(a) && *a == self@.account(account)),
    {
        match self.account_slot(account) {
            Some(i) => Ok(self.accounts.val_at(i)),
            None => Err(VertexError::AccountNotFound(account)),
        }
    }

    /// The liquid balance of a registered account.
    pub fn balance_of(&self, account: AccountId) -> (r: VertexResult<Amount>)
        requires
            self.wf(),
        ensures
            !self@.has_account(account) ==> r == Err::<Amount, VertexError>(
                VertexError::AccountNotFound(account),
            ),
            self@.has_account(account) ==> r == Ok::<Amount, VertexError>(
                self@.account(account).balance,
            ),
    {
        Ok(self.ensure_account(account)?.balance)
    }

    /// The nonce that the account's next ticket must carry.
    pub fn ticket_nonce(&self, account: AccountId) -> (r: VertexResult<u64>)
        requires
            self.wf(),
        ensures
            !self@.has_account(account) ==> r == Err::<u64, VertexError>(
                VertexError::AccountNotFound(account),
            ),
            self@.has_account(account) ==> r == Ok::<u64, VertexError>(
                self@.account(account).next_ticket_nonce,
            ),
    {
        Ok(self.ensure_account(account)?.next_ticket_nonce)
    }

    /// The nonce that the account's next release must carry.
    pub fn release_nonce(&self, account: AccountId) -> (r: VertexResult<u64>)
        requires
            self.wf(),
        ensures
            !self@.has_account(account) ==> r == Err::<u64, VertexError>(
                VertexError::AccountNotFound(account),
            ),
            self@.has_account(account) ==> r == Ok::<u64, VertexError>(
                self@.account(account).next_release_nonce,
            ),
    {
        Ok(self.ensure_account(account)?.next_release_nonce)
    }

    /// The state of a ticket on the ledger.
    pub fn ticket(&self, ticket_id: TicketId) -> (r: VertexResult<&TicketState>)
        requires
            self.wf(),
        ensures
            !self@.has_ticket(ticket_id) ==> r == Err::<&TicketState, VertexError>(
                VertexError::TicketNotFound(ticket_id),
            ),
            self@.has_ticket(ticket_id) ==> (r matches Ok(t) && *t == self@.ticket(ticket_id)),
    {
        match self.ticket_slot(ticket_id) {
            Some(i) => Ok(self.tickets.val_at(i)),
            None => Err(VertexError::TicketNotFound(ticket_id)),
        }
    }

    /// Registers an account for a consistent identity that is not yet registered.
    pub fn register_account(&mut self, identity: PublicIdentity) -> (r: VertexResult<()>)
        requires
            old(self).wf(),
        ensures
            final(self).wf(),
            outcome(r, register_refusal(old(self)@, identity)),
            r is Err ==> final(self)@ == old(self)@,
            r is Ok ==> registered(old(self)@, identity, final(self)@),
            r is Ok ==> applied(old(self)@, LedgerOp::Register(identity), final(self)@),
    {
        identity.verify_consistency()?;
        match self.accounts.find(&identity.account) {
            Ok(_) => Err(VertexError::AccountAlreadyExists(identity.account)),
            Err(p) => {
                let ghost v = self@;
                let state = AccountState::new(identity);
                self.accounts.insert_at(p, identity.account, state);
                proof {
                    let w = self@;
                    assert(w.accounts == v.accounts.insert(p as int, state));
                    assert(w.account_ids() =~= v.account_ids().insert(p as int, identity.account));
                    Amount::lemma_of(0);
                    lemma_sum_balances_insert(v.accounts, p as int, state);
                    assert forall|i: int| 0 <= i < w.tickets.len() implies w.ticket_valid(
                        #[trigger] w.tickets[i],
                    ) by {
                        let t = w.tickets[i];
                        assert(v.ticket_valid(v.tickets[i]));
                        lemma_contains_insert(v.account_ids(), p as int, identity.account, t.terms.beneficiary);
                        lemma_contains_insert(v.account_ids(), p as int, identity.account, t.route_plan.fee_recipient);
                        if let Some(rr) = t.route_plan.rebate_recipient {
                            lemma_contains_insert(v.account_ids(), p as int, identity.account, rr);
                        }
                    }
                    assert(w == (LedgerView { accounts: v.accounts.insert(p as int, state), ..v }));
                }
                Ok(())
            },
        }
    }

    /// Adds `amount` to the balance of a registered account.
    fn credit(&mut self, account: AccountId, amount: Amount) -> (r: VertexResult<()>)
        requires
            old(self).tables_ok(),
        ensures
            final(self).tables_ok(),
            old(self)@.credit_refusal(account, amount) matches Some(e) ==> r == Err::<(), VertexError>(e),
            r is Err ==> final(self)@ == old(self)@,
            old(self)@.credit_refusal(account, amount) is None ==> (r is Ok && final(self)@
                == old(self)@.credited(account, amount)),
    {
        let i = match self.account_slot(account) {
            Some(i) => i,
            None => return Err(VertexError::AccountNotFound(account)),
        };
        let current = *self.accounts.val_at(i);
        let balance = current.balance.checked_add(amount)?;
        let ghost v = self@;
        self.accounts.set_at(i, AccountState { balance, ..current });
        proof {
            assert(self@.account_ids() =~= v.account_ids());
            assert(self@ == v.credited(account, amount));
        }
        Ok(())
    }

    /// Credits new supply to a registered account.
    pub fn credit_genesis(&mut self, account: AccountId, amount: Amount) -> (r: VertexResult<TxId>)
        requires
            old(self).wf(),
        ensures
            final(self).wf(),
            outcome(r, genesis_refusal(old(self)@, account, amount)),
            r is Err ==> final(self)@ == old(self)@,
            r matches Ok(tx) ==> tx@ == genesis_tx_bytes(account, amount, old(self)@.journal.len() as usize)
                && final(self)@ == after_genesis(old(self)@, account, amount, tx),
            r is Ok ==> applied(old(self)@, LedgerOp::Genesis(account, amount), final(self)@),
    {
        self.ensure_account(account)?;
        let mut candidate = self.copy();
        candidate.credit(account, amount)?;
        candidate.total_supply = candidate.total_supply.checked_add(amount)?;
        let position = candidate.journal.len();
        let tx_id = TxId::from_serializable("vertex-genesis-credit-v1", &(account, amount, position))?;
        let ghost before_journal = candidate@;
        candidate.journal.push(JournalEntry { tx_id, op: JournalOp::GenesisCredit { account, amount } });
        proof {
            let v = self@;
            let i = v.account_index(account);
            let w = candidate@;
            assert(w == after_genesis(v, account, amount, tx_id));
            assert(w.account_ids() =~= v.account_ids());
            crate::table::lemma_index_of_sorted(self.accounts.keys(), i);
            lemma_sum_balances_update(v.accounts, i, w.accounts[i]);
            Amount::lemma_of(v.account(account).balance.spec_units() + amount.spec_units());
            Amount::lemma_of(v.total_supply.spec_units() + amount.spec_units());
            assert forall|k: int| 0 <= k < w.tickets.len() implies w.ticket_valid(
                #[trigger] w.tickets[k],
            ) by {
                assert(v.ticket_valid(v.tickets[k]));
            }
            assert(w.wf());
            lemma_wf_passes_conservation(w);
        }
        candidate.verify_conservation()?;
        *self = candidate;
        Ok(tx_id)
    }

    /// Checks that liquid balances plus unsettled ticket amounts equal the total supply.
    pub fn verify_conservation(&self) -> (r: VertexResult<()>)
        ensures
            conservation_refusal(self@) is None ==> r == Ok::<(), VertexError>(()),
            conservation_refusal(self@) matches Some(e) ==> r == Err::<(), VertexError>(e),
            self.wf() ==> r is Ok,
    {
        let ghost accts = self@.accounts;
        let ghost tks = self@.tickets;
        proof {
            Amount::lemma_of(0);
            if self.wf() {
                lemma_wf_passes_conservation(self@);
            }
        }
        let mut liquid = Amount::zero();
        let n = self.accounts.val_count();
        let mut i: usize = 0;
        assert(accts.take(0) =~= Seq::<AccountState>::empty());
        while i < n
            invariant
                n == accts.len(),
                accts == self.accounts.vals(),
                accts == self@.accounts,
                self.wf() ==> conservation_refusal(self@) is None,
                i <= n,
                liquid_check(accts.take(i as int)) == Ok::<nat, VertexError>(liquid.spec_units()),
            decreases n - i,
        {
            let a = *self.accounts.val_at(i);
            let ghost prefix = accts.take(i as int);
            proof {
                assert(accts.take(i + 1).drop_last() =~= prefix);
                assert(accts.take(i + 1).last() == a);
            }
            match liquid.checked_add(a.balance) {
                Ok(x) => {
                    liquid = x;
                },
                Err(e) => {
                    proof {
                        lemma_liquid_check_err(accts, i + 1, n as int);
                        assert(accts.take(n as int) =~= accts);
                    }
                    return Err(e);
                },
            }
            i = i + 1;
        }
        assert(accts.take(n as int) =~= accts);
        let ghost liquid_units = liquid.spec_units();
        let mut locked = Amount::zero();
        let m = self.tickets.val_count();
        let mut j: usize = 0;
        assert(tks.take(0) =~= Seq::<TicketState>::empty());
        while j < m
            invariant
                m == tks.len(),
                tks == self.tickets.vals(),
                tks == self@.tickets,
                accts == self@.accounts,
                liquid_check(accts) == Ok::<nat, VertexError>(liquid_units),
                liquid.spec_units() == liquid_units,
                self.wf() ==> conservation_refusal(self@) is None,
                j <= m,
                locked_check(tks.take(j as int)) == Ok::<nat, VertexError>(locked.spec_units()),
            decreases m - j,
        {
            let t = *self.tickets.val_at(j);
            let ghost prefix = tks.take(j as int);
            proof {
                assert(tks.take(j + 1).drop_last() =~= prefix);
                assert(tks.take(j + 1).last() == t);
            }
            if !t.settled {
                match locked.checked_add(t.terms.amount) {
                    Ok(x) => {
                        locked = x;
                    },
                    Err(e) => {
                        proof {
                            lemma_locked_check_err(tks, j + 1, m as int);
                            assert(tks.take(m as int) =~= tks);
                        }
                        return Err(e);
                    },
                }
            }
            j = j + 1;
        }
        assert(tks.take(m as int) =~= tks);
        let observed = liquid.checked_add(locked)?;
        if observed.units() != self.total_supply.units() {
            return Err(
                VertexError::Conservation {
                    asset: self.asset,
                    expected: self.total_supply,
                    observed,
                },
            );
        }
        Ok(())
    }

    #[verifier::spinoff_prover]
    #[verifier::rlimit(60)]
    /// Opens a ticket: after all checks pass, the payer's amount moves from
    /// its balance into the ticket.
    fn open_ticket_inner(&mut self, signed: &SignedTicket) -> (r: VertexResult<TxId>)
        requires
            old(self).wf(),
        ensures
            outcome(r, open_refusal(old(self)@, *signed)),
            r matches Ok(tx) ==> opened(old(self)@, *signed, tx, final(self)@) && final(self).wf(),
    {
        let ghost v = self@;
        proof {
            reveal(open_refusal);
        }
        signed.verify()?;
        let terms = signed.terms;
        let plan = signed.route_plan;
        if terms.network_id != self.network_id {
            return Err(policy_error(PolicyRule::WrongNetwork));
        }
        if !terms.asset.same(&self.asset) {
            return Err(VertexError::AssetMismatch { expected: self.asset, received: terms.asset });
        }
        let ticket_pos = match self.tickets.find(&terms.ticket_id) {
            Ok(_) => return Err(VertexError::TicketAlreadyExists(terms.ticket_id)),
            Err(p) => p,
        };
        self.ensure_account(terms.beneficiary)?;
        self.ensure_account(plan.operator)?;
        self.ensure_account(plan.fee_recipient)?;
        if let Some(rebate_recipient) = plan.rebate_recipient {
            self.ensure_account(rebate_recipient)?;
        }
        plan.validate(terms.route_policy, terms.amount)?;
        let payer_pos = match self.account_slot(terms.payer) {
            Some(i) => i,
            None => return Err(VertexError::AccountNotFound(terms.payer)),
        };
        let payer = *self.accounts.val_at(payer_pos);
        if payer.next_ticket_nonce != terms.payer_nonce {
            return Err(
                VertexError::NonceMismatch {
                    account: terms.payer,
                    expected: payer.next_ticket_nonce,
                    received: terms.payer_nonce,
                },
            );
        }
        if payer.balance.units() < terms.amount.units() {
            return Err(
                VertexError::InsufficientFunds {
                    account: terms.payer,
                    available: payer.balance,
                    required: terms.amount,
                },
            );
        }
        let tx_id = signed.tx_id()?;
        proof {
            assert(TxId::from_view(ticket_tx_bytes(*signed)) == tx_id);
        }
        let seen_pos = match self.seen_transactions.find(&tx_id) {
            Ok(_) => return Err(VertexError::DuplicateTransaction(tx_id)),
            Err(p) => p,
        };
        proof {
            crate::table::lemma_index_of_sorted(self.accounts.keys(), payer_pos as int);
            lemma_sum_balances_bound(v.accounts, payer_pos as int);
        }
        let next_balance = payer.balance.checked_sub(terms.amount)?;
        let next_nonce = match payer.next_ticket_nonce.checked_add(1) {
            Some(n) => n,
            None => return Err(VertexError::NonceOverflow),
        };
        let updated = AccountState { balance: next_balance, next_ticket_nonce: next_nonce, ..payer };
        self.accounts.set_at(payer_pos, updated);
        let ticket = TicketState { id: terms.ticket_id, terms, route_plan: plan, settled: false };
        self.tickets.insert_at(ticket_pos, terms.ticket_id, ticket);
        self.seen_transactions.insert_at(seen_pos, tx_id, ());
        self.journal.push(
            JournalEntry {
                tx_id,
                op: JournalOp::TicketDebit {
                    account: terms.payer,
                    ticket_id: terms.ticket_id,
                    amount: terms.amount,
                },
            },
        );
        proof {
            let w = self@;
            assert(v.account_ids()[payer_pos as int] == terms.payer);
            assert(w.account_ids() =~= v.account_ids());
            assert(w.ticket_ids() =~= v.ticket_ids().insert(ticket_pos as int, terms.ticket_id));
            assert(opened(v, *signed, tx_id, w));
            lemma_open_preserves_wf(v, *signed, tx_id, w);
        }
        Ok(tx_id)
    }

    /// Opens a ticket from signed terms, moving the amount out of the payer's
    /// balance; a refused ticket leaves the ledger as it was.
    pub fn open_ticket(&mut self, signed: &SignedTicket) -> (r: VertexResult<TxId>)
        requires
            old(self).wf(),
        ensures
            final(self).wf(),
            outcome(r, open_refusal(old(self)@, *signed)),
            r is Err ==> final(self)@ == old(self)@,
            r matches Ok(tx) ==> opened(old(self)@, *signed, tx, final(self)@),
            r is Ok ==> applied(old(self)@, LedgerOp::Open(*signed), final(self)@),
    {
        let mut candidate = self.copy();
        let tx_id = candidate.open_ticket_inner(signed)?;
        proof {
            lemma_wf_passes_conservation(candidate@);
        }
        candidate.verify_conservation()?;
        *self = candidate;
        Ok(tx_id)
    }

    /// Runs the checks of a settlement and finds where it applies: the
    /// ticket's position, the signer's position, the transaction identifier
    /// and the position where it fits among processed transactions.
    #[verifier::spinoff_prover]
    fn settle_checks(&self, signed: &SignedRelease) -> (r: VertexResult<(usize, usize, usize, TxId)>)
        requires
            self.wf(),
        ensures
            outcome(r, settle_refusal(self@, *signed)),
            r matches Ok((ti, si, qi, tx)) ==> {
                &&& ti == self@.ticket_index(signed.request.ticket_id)
                &&& ti < self@.tickets.len()
                &&& self@.tickets[ti as int].id == signed.request.ticket_id
                &&& si == self@.account_index(signed.signer.account)
                &&& si < self@.accounts.len()
                &&& self@.accounts[si as int].id == signed.signer.account
                &&& tx@ == release_tx_bytes(*signed)
                &&& fits_at(self@.seen, qi as int, tx)
            },
    {
        let ghost v = self@;
        proof {
            reveal(settle_refusal);
        }
        signed.verify()?;
        if signed.request.network_id != self.network_id {
            return Err(policy_error(PolicyRule::WrongNetwork));
        }
        let ticket_pos = match self.ticket_slot(signed.request.ticket_id) {
            Some(i) => i,
            None => return Err(VertexError::TicketNotFound(signed.request.ticket_id)),
        };
        let ticket = *self.tickets.val_at(ticket_pos);
        if ticket.settled {
            return Err(VertexError::TicketSettled(ticket.id));
        }
        if !signed.signer.account.same(&ticket.terms.beneficiary) {
            return Err(
                VertexError::UnauthorizedReleaseSigner {
                    expected: ticket.terms.beneficiary,
                    received: signed.signer.account,
                },
            );
        }
        let expected_route_digest = ticket.route_plan.route_digest()?;
        proof {
            assert(Digest::from_view(route_digest_bytes(ticket.route_plan)) == expected_route_digest);
        }
        if !signed.request.observed_route_digest.same(&expected_route_digest) {
            return Err(
                VertexError::RouteDigestMismatch {
                    ticket_id: ticket.id,
                    expected: expected_route_digest,
                    received: signed.request.observed_route_digest,
                },
            );
        }
        proof {
            assert(v.ticket_valid(v.tickets[ticket_pos as int]));
        }
        let signer_pos = match self.account_slot(signed.signer.account) {
            Some(i) => i,
            None => return Err(VertexError::AccountNotFound(signed.signer.account)),
        };
        let release_nonce = self.accounts.val_at(signer_pos).next_release_nonce;
        if release_nonce != signed.request.release_nonce {
            return Err(
                VertexError::NonceMismatch {
                    account: signed.signer.account,
                    expected: release_nonce,
                    received: signed.request.release_nonce,
                },
            );
        }
        let tx_id = signed.tx_id()?;
        proof {
            assert(TxId::from_view(release_tx_bytes(*signed)) == tx_id);
        }
        let seen_pos = match self.seen_transactions.find(&tx_id) {
            Ok(_) => return Err(VertexError::DuplicateTransaction(tx_id)),
            Err(p) => p,
        };
        if release_nonce == u64::MAX {
            return Err(VertexError::NonceOverflow);
        }
        Ok((ticket_pos, signer_pos, seen_pos, tx_id))
    }

    /// Pays out a checked settlement: credits the beneficiary, the fee
    /// recipient and the rebate recipient, marks the ticket settled, advances
    /// the signer's release nonce and records the transaction.
    #[verifier::spinoff_prover]
    #[verifier::rlimit(100)]
    fn apply_settlement(
        &mut self,
        signed: &SignedRelease,
        ticket_pos: usize,
        signer_pos: usize,
        seen_pos: usize,
        tx_id: TxId,
    ) -> (r: VertexResult<()>)
        requires
            old(self).wf(),
            settle_refusal(old(self)@, *signed) is None,
            ticket_pos == old(self)@.ticket_index(signed.request.ticket_id),
            ticket_pos < old(self)@.tickets.len(),
            old(self)@.tickets[ticket_pos as int].id == signed.request.ticket_id,
            signer_pos == old(self)@.account_index(signed.signer.account),
            signer_pos < old(self)@.accounts.len(),
            old(self)@.accounts[signer_pos as int].id == signed.signer.account,
            tx_id@ == release_tx_bytes(*signed),
            fits_at(old(self)@.seen, seen_pos as int, tx_id),
        ensures
            r is Ok,
            settled(old(self)@, *signed, tx_id, final(self)@),
            final(self).wf(),
    {
        let ghost v = self@;
        proof {
            lemma_settle_facts(v, *signed);
        }
        let ticket = *self.tickets.val_at(ticket_pos);
        let plan = ticket.route_plan;
        proof {
            assert(v.ticket_ids()[ticket_pos as int] == signed.request.ticket_id);
            assert(ticket == v.ticket(signed.request.ticket_id));
            lemma_sum_locked_bound(v.tickets, ticket_pos as int);
        }
        let route_charges = plan.charges()?;
        let beneficiary_amount = ticket.terms.amount.checked_sub(route_charges)?;
        let rebate_recipient = match plan.rebate_recipient {
            Some(r) => r,
            None => ticket.terms.beneficiary,
        };
        proof {
            Amount::lemma_of(beneficiary_units(ticket));
            let v1 = v.credited(ticket.terms.beneficiary, beneficiary_amount);
            lemma_credit_ok(v, ticket.terms.beneficiary, beneficiary_amount);
            let v2 = v1.credited(plan.fee_recipient, plan.operator_fee);
            lemma_credit_ok(v1, plan.fee_recipient, plan.operator_fee);
            lemma_credit_ok(v2, rebate_recipient, plan.rebate_amount);
        }
        self.credit(ticket.terms.beneficiary, beneficiary_amount)?;
        self.credit(plan.fee_recipient, plan.operator_fee)?;
        self.credit(rebate_recipient, plan.rebate_amount)?;
        let ghost p = self@;
        let settled_ticket = TicketState { settled: true, ..ticket };
        self.tickets.set_at(ticket_pos, settled_ticket);
        let current = *self.accounts.val_at(signer_pos);
        let next_nonce = match current.next_release_nonce.checked_add(1) {
            Some(n) => n,
            None => return Err(VertexError::NonceOverflow),
        };
        let updated = AccountState { next_release_nonce: next_nonce, ..current };
        self.accounts.set_at(signer_pos, updated);
        self.seen_transactions.insert_at(seen_pos, tx_id, ());
        self.journal.push(
            JournalEntry {
                tx_id,
                op: JournalOp::TicketSettlement {
                    ticket_id: ticket.id,
                    beneficiary: ticket.terms.beneficiary,
                    beneficiary_amount,
                    operator: plan.fee_recipient,
                    operator_amount: plan.operator_fee,
                    rebate_recipient,
                    rebate_amount: plan.rebate_amount,
                },
            },
        );
        proof {
            let w = self@;
            assert(p == paid_out(v, ticket));
            assert(p.account_ids() == v.account_ids());
            assert(v.account_ids()[signer_pos as int] == signed.signer.account);
            assert(w.account_ids() =~= v.account_ids());
            assert(w.ticket_ids() =~= v.ticket_ids());
            assert(settled(v, *signed, tx_id, w));
            lemma_settle_preserves_wf(v, *signed, tx_id, w);
        }
        Ok(())
    }

    /// Settles a ticket: after all checks pass, its amount is paid out to the
    /// beneficiary, the fee recipient and the rebate recipient.
    fn settle_ticket_inner(&mut self, signed: &SignedRelease) -> (r: VertexResult<TxId>)
        requires
            old(self).wf(),
        ensures
            outcome(r, settle_refusal(old(self)@, *signed)),
            r matches Ok(tx) ==> settled(old(self)@, *signed, tx, final(self)@) && final(self).wf(),
    {
        let (ticket_pos, signer_pos, seen_pos, tx_id) = self.settle_checks(signed)?;
        self.apply_settlement(signed, ticket_pos, signer_pos, seen_pos, tx_id)?;
        Ok(tx_id)
    }

    /// Settles a ticket from a signed release; a refused release leaves the
    /// ledger as it was.
    pub fn settle_ticket(&mut self, signed: &SignedRelease) -> (r: VertexResult<TxId>)
        requires
            old(self).wf(),
        ensures
            final(self).wf(),
            outcome(r, settle_refusal(old(self)@, *signed)),
            r is Err ==> final(self)@ == old(self)@,
            r matches Ok(tx) ==> settled(old(self)@, *signed, tx, final(self)@),
            r is Ok ==> applied(old(self)@, LedgerOp::Settle(*signed), final(self)@),
    {
        let mut candidate = self.copy();
        let tx_id = candidate.settle_ticket_inner(signed)?;
        proof {
            lemma_wf_passes_conservation(candidate@);
        }
        candidate.verify_conservation()?;
        *self = candidate;
        Ok(tx_id)
    }

    /// Appends the members of the JSON object of accounts.
    fn write_account_members(&self, out: &mut Vec<u8>)
        ensures
            final(out)@ == old(out)@ + account_members(self@.accounts),
    {
        let ghost s = self@.accounts;
        let mut acc: Vec<u8> = Vec::new();
        let n = self.accounts.val_count();
        let mut i: usize = 0;
        assert(s.take(0) =~= Seq::<AccountState>::empty());
        assert(acc@ =~= account_members(s.take(0)));
        while i < n
            invariant
                n == s.len(),
                s == self.accounts.vals(),
                i <= n,
                acc@ == account_members(s.take(i as int)),
            decreases n - i,
        {
            let a = *self.accounts.val_at(i);
            let mut m: Vec<u8> = Vec::new();
            a.id.write_json(&mut m);
            assert(m@ =~= a.id.json());
            m.push(58u8);
            a.write_json(&mut m);
            assert(m@ == account_member(a));
            let ghost prev = acc@;
            if i > 0 {
                acc.push(44u8);
            }
            acc.append(&mut m);
            proof {
                let t = s.take(i + 1);
                assert(t.drop_last() =~= s.take(i as int));
                assert(t.last() == a);
                if i == 0 {
                    assert(t[0] == a);
                    assert(acc@ =~= account_member(a));
                }
            }
            i = i + 1;
        }
        assert(s.take(n as int) =~= s);
        out.append(&mut acc);
    }

    /// Appends the members of the JSON object of tickets.
    fn write_ticket_members(&self, out: &mut Vec<u8>)
        ensures
            final(out)@ == old(out)@ + ticket_members(self@.tickets),
    {
        let ghost s = self@.tickets;
        let mut acc: Vec<u8> = Vec::new();
        let n = self.tickets.val_count();
        let mut i: usize = 0;
        assert(s.take(0) =~= Seq::<TicketState>::empty());
        assert(acc@ =~= ticket_members(s.take(0)));
        while i < n
            invariant
                n == s.len(),
                s == self.tickets.vals(),
                i <= n,
                acc@ == ticket_members(s.take(i as int)),
            decreases n - i,
        {
            let t = *self.tickets.val_at(i);
            let mut m: Vec<u8> = Vec::new();
            t.id.write_json(&mut m);
            assert(m@ =~= t.id.json());
            m.push(58u8);
            t.write_json(&mut m);
            assert(m@ == ticket_member(t));
            if i > 0 {
                acc.push(44u8);
            }
            acc.append(&mut m);
            proof {
                let p = s.take(i + 1);
                assert(p.drop_last() =~= s.take(i as int));
                assert(p.last() == t);
                if i == 0 {
                    assert(p[0] == t);
                    assert(acc@ =~= ticket_member(t));
                }
            }
            i = i + 1;
        }
        assert(s.take(n as int) =~= s);
        out.append(&mut acc);
    }

    /// Appends the items of the JSON array of processed transactions.
    fn write_seen_items(&self, out: &mut Vec<u8>)
        ensures
            final(out)@ == old(out)@ + seen_items(self@.seen),
    {
        let ghost s = self@.seen;
        let mut acc: Vec<u8> = Vec::new();
        let n = self.seen_transactions.len();
        let mut i: usize = 0;
        assert(s.take(0) =~= Seq::<TxId>::empty());
        assert(acc@ =~= seen_items(s.take(0)));
        while i < n
            invariant
                n == s.len(),
                s == self.seen_transactions.keys(),
                i <= n,
                acc@ == seen_items(s.take(i as int)),
            decreases n - i,
        {
            let tx = self.seen_transactions.key_at(i);
            let mut m: Vec<u8> = Vec::new();
            tx.write_json(&mut m);
            assert(m@ =~= tx.json());
            if i > 0 {
                acc.push(44u8);
            }
            acc.append(&mut m);
            proof {
                let p = s.take(i + 1);
                assert(p.drop_last() =~= s.take(i as int));
                assert(p.last() == tx);
                if i == 0 {
                    assert(p[0] == tx);
                    assert(acc@ =~= tx.json());
                }
            }
            i = i + 1;
        }
        assert(s.take(n as int) =~= s);
        out.append(&mut acc);
    }

    /// The digest of the ledger's state: network, asset, accounts, tickets,
    /// processed transactions and total supply.
    pub fn state_digest(&self) -> (r: VertexResult<Digest>)
        ensures
            r is Ok,
            r matches Ok(d) ==> d@ == state_digest_bytes(self@),
    {
        let mut buf: Vec<u8> = Vec::new();
        buf.push(91u8);
        assert(buf@ =~= seq![91u8]);
        self.network_id.write_json(&mut buf);
        append_byte(&mut buf, 44u8);
        self.asset.write_json(&mut buf);
        append_two(&mut buf, 44u8, 123u8);
        self.write_account_members(&mut buf);
        append_byte(&mut buf, 125u8);
        append_two(&mut buf, 44u8, 123u8);
        self.write_ticket_members(&mut buf);
        append_byte(&mut buf, 125u8);
        append_two(&mut buf, 44u8, 91u8);
        self.write_seen_items(&mut buf);
        append_two(&mut buf, 93u8, 44u8);
        self.total_supply.write_json(&mut buf);
        append_byte(&mut buf, 93u8);
        assert(buf@ == state_json(self@));
        let parts: [&[u8]; 1] = [buf.as_slice()];
        let d = Digest::from_parts("vertex-ledger-state-v3", &parts);
        assert(parts@.map_values(|p: &[u8]| p@) =~= seq![state_json(self@)]);
        proof {
            reveal(state_digest_bytes);
        }
        Ok(d)
    }
}

} // verus!
