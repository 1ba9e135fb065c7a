use vstd::prelude::*;
use vstd::string::StringSliceAdditionalSpecFns;

use crate::amount::{Amount, Bps, MAX_BPS, MAX_LEDGER_UNITS};
use crate::codec::{append_text, json_null, lemma_middle_equal, lemma_decimal_injective, push_null, text, CanonicalJson};
use crate::error::{outcome, policy_error, PolicyRule, Refusal, VertexError, VertexResult};
use crate::ids::{
    be_u64, digest_of_one, lemma_account_json_injective, lemma_digest_json_injective, u64_be_bytes,
    AccountId, Digest,
};

verus! {

/// The routing rules that a ticket's payer signs: the venue, the largest share
/// of the amount that route charges may take, and the epoch from which that
/// ceiling applies.
#[derive(Copy, Clone, Debug, PartialEq, Eq)]
pub struct RoutePolicy {
    pub venue: Digest,
    pub max_charge_bps: Bps,
    pub settlement_epoch: u64,
}

/// How a ticket is settled: who operates the route, who receives the operator
/// fee, and who receives an optional rebate.
#[derive(Copy, Clone, Debug, PartialEq, Eq)]
pub struct RoutePlan {
    pub operator: AccountId,
    pub fee_recipient: AccountId,
    pub operator_fee: Amount,
    pub rebate_recipient: Option<AccountId>,
    pub rebate_amount: Amount,
    pub liquidity_memo: Digest,
    pub routing_epoch: u64,
}

impl RoutePolicy {
    /// A routing policy.
    pub fn new(venue: Digest, max_charge_bps: Bps, settlement_epoch: u64) -> (r: RoutePolicy)
        ensures
            r == (RoutePolicy { venue, max_charge_bps, settlement_epoch }),
    {
        RoutePolicy { venue, max_charge_bps, settlement_epoch }
    }
}

/// The bytes of the liquidity memo of a direct route for an epoch.
pub open spec fn direct_memo(epoch: u64) -> Seq<u8> {
    digest_of_one("vertex-direct-route-v1".spec_bytes(), be_u64(epoch as nat))
}

/// The total units that a route charges: operator fee plus rebate.
pub open spec fn charge_units(plan: RoutePlan) -> nat {
    plan.operator_fee.spec_units() + plan.rebate_amount.spec_units()
}

/// Why adding the route's charges would fail, if it would.
pub open spec fn charges_refusal(plan: RoutePlan) -> Option<VertexError> {
    if charge_units(plan) > u128::MAX {
        Some(VertexError::AmountOverflow)
    } else if charge_units(plan) > MAX_LEDGER_UNITS {
        Some(VertexError::AmountOutOfRange { value: charge_units(plan) as u128, max: MAX_LEDGER_UNITS })
    } else {
        None
    }
}

/// The units of `amount` scaled by the policy's ceiling, before any range check.
pub open spec fn scaled_units(policy: RoutePolicy, amount: Amount) -> nat {
    amount.spec_units() * policy.max_charge_bps.spec_value()
}

/// The ceiling on route charges that the policy allows for `amount`.
pub open spec fn ceiling_units(policy: RoutePolicy, amount: Amount) -> nat {
    scaled_units(policy, amount) / (MAX_BPS as nat)
}

/// Why a route plan is refused for a ticket of `amount` under `policy`, if it is:
/// its charges must be computable and not exceed the amount, and once the
/// route's epoch reaches the policy's settlement epoch they must also stay
/// within the policy's basis-point ceiling.
pub open spec fn route_refusal(plan: RoutePlan, policy: RoutePolicy, amount: Amount) -> Option<
    Refusal,
> {
    if charges_refusal(plan) is Some {
        Some(Refusal::Error(charges_refusal(plan)->Some_0))
    } else if charge_units(plan) > amount.spec_units() {
        Some(Refusal::Policy(PolicyRule::ChargesExceedAmount))
    } else if plan.routing_epoch >= policy.settlement_epoch {
        if scaled_units(policy, amount) > u128::MAX {
            Some(Refusal::Error(VertexError::AmountOverflow))
        } else if ceiling_units(policy, amount) > MAX_LEDGER_UNITS {
            Some(
                Refusal::Error(
                    VertexError::AmountOutOfRange {
                        value: ceiling_units(policy, amount) as u128,
                        max: MAX_LEDGER_UNITS,
                    },
                ),
            )
        } else if charge_units(plan) > ceiling_units(policy, amount) {
            Some(Refusal::Policy(PolicyRule::ChargesExceedCeiling))
        } else {
            None
        }
    } else {
        None
    }
}

/// The JSON encoding of an optional rebate recipient.
pub open spec fn option_account_json(a: Option<AccountId>) -> Seq<u8> {
    match a {
        Some(id) => id.json(),
        None => json_null(),
    }
}

impl RoutePlan {
    /// The route that settles everything to the beneficiary: no fee, no rebate.
    pub fn direct(operator: AccountId, epoch: u64) -> (r: RoutePlan)
        ensures
            r == (RoutePlan {
                operator,
                fee_recipient: operator,
                operator_fee: Amount::of(0),
                rebate_recipient: None,
                rebate_amount: Amount::of(0),
                liquidity_memo: Digest::from_view(direct_memo(epoch)),
                routing_epoch: epoch,
            }),
            r.operator_fee.spec_units() == 0,
            r.rebate_amount.spec_units() == 0,
            r.liquidity_memo@ == direct_memo(epoch),
    {
        let epoch_bytes = u64_be_bytes(epoch);
        let parts: [&[u8]; 1] = [epoch_bytes.as_slice()];
        let memo = Digest::from_parts("vertex-direct-route-v1", &parts);
        assert(parts@.map_values(|p: &[u8]| p@) =~= seq![be_u64(epoch as nat)]);
        proof {
            broadcast use crate::ids::group_id_views;
            assert(memo == Digest::from_view(direct_memo(epoch)));
        }
        RoutePlan {
            operator,
            fee_recipient: operator,
            operator_fee: Amount::zero(),
            rebate_recipient: None,
            rebate_amount: Amount::zero(),
            liquidity_memo: memo,
            routing_epoch: epoch,
        }
    }

    /// The total that the route charges: operator fee plus rebate.
    pub fn charges(self) -> (r: VertexResult<Amount>)
        ensures
            charges_refusal(self) is None ==> r == Ok::<Amount, VertexError>(
                Amount::of(charge_units(self)),
            ),
            charges_refusal(self) matches Some(e) ==> r == Err::<Amount, VertexError>(e),
            r matches Ok(a) ==> a.spec_units() == charge_units(self) && a.wf(),
    {
        self.operator_fee.checked_add(self.rebate_amount)
    }

    /// The digest that identifies the route: the hash of its canonical JSON.
    pub fn route_digest(self) -> (r: VertexResult<Digest>)
        ensures
            r is Ok,
            r matches Ok(d) ==> d@ == route_digest_bytes(self),
    {
        Digest::from_serializable("vertex-route-plan-v3", &self)
    }

    /// Checks the route against the payer's policy for a ticket of `amount`.
    pub fn validate(self, policy: RoutePolicy, amount: Amount) -> (r: VertexResult<()>)
        ensures
            outcome(r, route_refusal(self, policy, amount)),
            policy.max_charge_bps.spec_value() <= MAX_BPS,
    {
        proof {
            use_type_invariant(&policy.max_charge_bps);
            policy.max_charge_bps.lemma_wf();
        }
        let charges = self.charges()?;
        if charges.units() > amount.units() {
            return Err(policy_error(PolicyRule::ChargesExceedAmount));
        }
        if self.routing_epoch >= policy.settlement_epoch {
            let allowed = amount.checked_mul_bps(policy.max_charge_bps)?;
            if charges.units() > allowed.units() {
                return Err(policy_error(PolicyRule::ChargesExceedCeiling));
            }
        }
        Ok(())
    }
}

/// The bytes of a route's digest.
pub open spec fn route_digest_bytes(plan: RoutePlan) -> Seq<u8> {
    digest_of_one("vertex-route-plan-v3".spec_bytes(), plan.json())
}

impl CanonicalJson for RoutePolicy {
    open spec fn json(&self) -> Seq<u8> {
        text("{\"venue\":") + self.venue.json() + text(",\"max_charge_bps\":")
            + self.max_charge_bps.json() + text(",\"settlement_epoch\":")
            + self.settlement_epoch.json() + text("}")
    }

    fn write_json(&self, out: &mut Vec<u8>) {
        let mut buf: Vec<u8> = Vec::new();
        append_text(&mut buf, "{\"venue\":");
        assert(buf@ =~= text("{\"venue\":"));
        self.venue.write_json(&mut buf);
        append_text(&mut buf, ",\"max_charge_bps\":");
        self.max_charge_bps.write_json(&mut buf);
        append_text(&mut buf, ",\"settlement_epoch\":");
        self.settlement_epoch.write_json(&mut buf);
        append_text(&mut buf, "}");
        assert(buf@ == self.json());
        out.append(&mut buf);
    }
}

impl CanonicalJson for RoutePlan {
    open spec fn json(&self) -> Seq<u8> {
        text("{\"operator\":") + self.operator.json() + text(",\"fee_recipient\":")
            + self.fee_recipient.json() + text(",\"operator_fee\":") + self.operator_fee.json()
            + text(",\"rebate_recipient\":") + option_account_json(self.rebate_recipient) + text(
            ",\"rebate_amount\":",
        ) + self.rebate_amount.json() + text(",\"liquidity_memo\":") + self.liquidity_memo.json()
            + text(",\"routing_epoch\":") + self.routing_epoch.json() + text("}")
    }

    fn write_json(&self, out: &mut Vec<u8>) {
        let mut buf: Vec<u8> = Vec::new();
        append_text(&mut buf, "{\"operator\":");
        assert(buf@ =~= text("{\"operator\":"));
        self.operator.write_json(&mut buf);
        append_text(&mut buf, ",\"fee_recipient\":");
        self.fee_recipient.write_json(&mut buf);
        append_text(&mut buf, ",\"operator_fee\":");
        self.operator_fee.write_json(&mut buf);
        append_text(&mut buf, ",\"rebate_recipient\":");
        match self.rebate_recipient {
            Some(id) => id.write_json(&mut buf),
            None => push_null(&mut buf),
        }
        append_text(&mut buf, ",\"rebate_amount\":");
        self.rebate_amount.write_json(&mut buf);
        append_text(&mut buf, ",\"liquidity_memo\":");
        self.liquidity_memo.write_json(&mut buf);
        append_text(&mut buf, ",\"routing_epoch\":");
        self.routing_epoch.write_json(&mut buf);
        append_text(&mut buf, "}");
        assert(buf@ == self.json());
        out.append(&mut buf);
    }
}

/// The ceiling rule of route validation. An accepted route charges (operator
/// fee plus rebate) no more than the ticket's amount; once the route's epoch
/// reaches the policy's settlement epoch it also charges no more than the
/// policy's share of the amount, `amount * max_charge_bps / 10000` rounded
/// down. A route whose charges fit the amount but exceed that share is refused
/// by the ceiling rule, and before the settlement epoch a route whose charges
/// fit the amount is accepted.
pub proof fn lemma_route_ceiling(plan: RoutePlan, policy: RoutePolicy, amount: Amount)
    requires
        amount.spec_units() <= MAX_LEDGER_UNITS,
        policy.max_charge_bps.spec_value() <= MAX_BPS,
    ensures
        route_refusal(plan, policy, amount) is None ==> plan.operator_fee.spec_units()
            + plan.rebate_amount.spec_units() <= amount.spec_units(),
        route_refusal(plan, policy, amount) is None && plan.routing_epoch >= policy.settlement_epoch
            ==> plan.operator_fee.spec_units() + plan.rebate_amount.spec_units() <= (amount.spec_units()
            * policy.max_charge_bps.spec_value()) / 10000,
        plan.routing_epoch >= policy.settlement_epoch && plan.operator_fee.spec_units()
            + plan.rebate_amount.spec_units() <= amount.spec_units() && plan.operator_fee.spec_units()
            + plan.rebate_amount.spec_units() > (amount.spec_units() * policy.max_charge_bps.spec_value())
            / 10000 ==> route_refusal(plan, policy, amount) == Some(
            Refusal::Policy(PolicyRule::ChargesExceedCeiling),
        ),
        plan.routing_epoch < policy.settlement_epoch && plan.operator_fee.spec_units()
            + plan.rebate_amount.spec_units() <= amount.spec_units() ==> route_refusal(plan, policy, amount)
            is None,
{
    let a = amount.spec_units();
    let b = policy.max_charge_bps.spec_value();
    assert(a * b <= 100_000_000_000_000 * 10000) by (nonlinear_arith)
        requires
            a <= 100_000_000_000_000,
            b <= 10000,
    ;
    assert((a * b) / 10000 <= a) by (nonlinear_arith)
        requires
            b <= 10000,
    ;
}

/// Two optional rebate recipients have the same JSON only when they are the same.
pub proof fn lemma_option_account_json_injective(a: Option<AccountId>, b: Option<AccountId>)
    ensures
        option_account_json(a) == option_account_json(b) ==> a == b,
{
    match (a, b) {
        (Some(x), Some(y)) => {
            lemma_account_json_injective(x, y);
        },
        (Some(x), None) => {
            lemma_account_json_injective(x, x);
        },
        (None, Some(y)) => {
            lemma_account_json_injective(y, y);
        },
        (None, None) => {},
    }
}

/// Changing the operator of a route changes its canonical JSON.
#[verifier::spinoff_prover]
proof fn lemma_route_json_operator(p: RoutePlan, x: AccountId)
    ensures
        (RoutePlan { operator: x, ..p }).json() == p.json() ==> x == p.operator,
{
    let q = RoutePlan { operator: x, ..p };
    if q.json() == p.json() {
        let h = text("{\"operator\":");
        let t = text(",\"fee_recipient\":") + p.fee_recipient.json() + text(",\"operator_fee\":") + p.operator_fee.json() + text(",\"rebate_recipient\":") + option_account_json(p.rebate_recipient) + text(",\"rebate_amount\":") + p.rebate_amount.json() + text(",\"liquidity_memo\":") + p.liquidity_memo.json() + text(",\"routing_epoch\":") + p.routing_epoch.json() + text("}");
        assert(q.json() =~= h + x.json() + t);
        assert(p.json() =~= h + p.operator.json() + t);
        lemma_middle_equal(h, x.json(), p.operator.json(), t);
        lemma_account_json_injective(x, p.operator);
    }
}

/// Changing the fee recipient of a route changes its canonical JSON.
#[verifier::spinoff_prover]
proof fn lemma_route_json_fee_recipient(p: RoutePlan, x: AccountId)
    ensures
        (RoutePlan { fee_recipient: x, ..p }).json() == p.json() ==> x == p.fee_recipient,
{
    let q = RoutePlan { fee_recipient: x, ..p };
    if q.json() == p.json() {
        let h = text("{\"operator\":") + p.operator.json() + text(",\"fee_recipient\":");
        let t = text(",\"operator_fee\":") + p.operator_fee.json() + text(",\"rebate_recipient\":") + option_account_json(p.rebate_recipient) + text(",\"rebate_amount\":") + p.rebate_amount.json() + text(",\"liquidity_memo\":") + p.liquidity_memo.json() + text(",\"routing_epoch\":") + p.routing_epoch.json() + text("}");
        assert(q.json() =~= h + x.json() + t);
        assert(p.json() =~= h + p.fee_recipient.json() + t);
        lemma_middle_equal(h, x.json(), p.fee_recipient.json(), t);
        lemma_account_json_injective(x, p.fee_recipient);
    }
}

/// Changing the operator fee of a route changes its canonical JSON.
#[verifier::spinoff_prover]
proof fn lemma_route_json_operator_fee(p: RoutePlan, x: Amount)
    ensures
        (RoutePlan { operator_fee: x, ..p }).json() == p.json() ==> x.spec_units() == p.operator_fee.spec_units(),
{
    let q = RoutePlan { operator_fee: x, ..p };
    if q.json() == p.json() {
        let h = text("{\"operator\":") + p.operator.json() + text(",\"fee_recipient\":") + p.fee_recipient.json() + text(",\"operator_fee\":");
        let t = text(",\"rebate_recipient\":") + option_account_json(p.rebate_recipient) + text(",\"rebate_amount\":") + p.rebate_amount.json() + text(",\"liquidity_memo\":") + p.liquidity_memo.json() + text(",\"routing_epoch\":") + p.routing_epoch.json() + text("}");
        assert(q.json() =~= h + x.json() + t);
        assert(p.json() =~= h + p.operator_fee.json() + t);
        lemma_middle_equal(h, x.json(), p.operator_fee.json(), t);
        lemma_decimal_injective(x.spec_units(), p.operator_fee.spec_units());
    }
}

/// Changing the rebate recipient of a route changes its canonical JSON.
#[verifier::spinoff_prover]
proof fn lemma_route_json_rebate_recipient(p: RoutePlan, x: Option<AccountId>)
    ensures
        (RoutePlan { rebate_recipient: x, ..p }).json() == p.json() ==> x == p.rebate_recipient,
{
    let q = RoutePlan { rebate_recipient: x, ..p };
    if q.json() == p.json() {
        let h = text("{\"operator\":") + p.operator.json() + text(",\"fee_recipient\":") + p.fee_recipient.json() + text(",\"operator_fee\":") + p.operator_fee.json() + text(",\"rebate_recipient\":");
        let t = text(",\"rebate_amount\":") + p.rebate_amount.json() + text(",\"liquidity_memo\":") + p.liquidity_memo.json() + text(",\"routing_epoch\":") + p.routing_epoch.json() + text("}");
        assert(q.json() =~= h + option_account_json(x) + t);
        assert(p.json() =~= h + option_account_json(p.rebate_recipient) + t);
        lemma_middle_equal(h, option_account_json(x), option_account_json(p.rebate_recipient), t);
        lemma_option_account_json_injective(x, p.rebate_recipient);
    }
}

/// Changing the rebate amount of a route changes its canonical JSON.
#[verifier::spinoff_prover]
proof fn lemma_route_json_rebate_amount(p: RoutePlan, x: Amount)
    ensures
        (RoutePlan { rebate_amount: x, ..p }).json() == p.json() ==> x.spec_units() == p.rebate_amount.spec_units(),
{
    let q = RoutePlan { rebate_amount: x, ..p };
    if q.json() == p.json() {
        let h = text("{\"operator\":") + p.operator.json() + text(",\"fee_recipient\":") + p.fee_recipient.json() + text(",\"operator_fee\":") + p.operator_fee.json() + text(",\"rebate_recipient\":") + option_account_json(p.rebate_recipient) + text(",\"rebate_amount\":");
        let t = text(",\"liquidity_memo\":") + p.liquidity_memo.json() + text(",\"routing_epoch\":") + p.routing_epoch.json() + text("}");
        assert(q.json() =~= h + x.json() + t);
        assert(p.json() =~= h + p.rebate_amount.json() + t);
        lemma_middle_equal(h, x.json(), p.rebate_amount.json(), t);
        lemma_decimal_injective(x.spec_units(), p.rebate_amount.spec_units());
    }
}

/// Changing the liquidity memo of a route changes its canonical JSON.
#[verifier::spinoff_prover]
proof fn lemma_route_json_liquidity_memo(p: RoutePlan, x: Digest)
    ensures
        (RoutePlan { liquidity_memo: x, ..p }).json() == p.json() ==> x == p.liquidity_memo,
{
    let q = RoutePlan { liquidity_memo: x, ..p };
    if q.json() == p.json() {
        let h = text("{\"operator\":") + p.operator.json() + text(",\"fee_recipient\":") + p.fee_recipient.json() + text(",\"operator_fee\":") + p.operator_fee.json() + text(",\"rebate_recipient\":") + option_account_json(p.rebate_recipient) + text(",\"rebate_amount\":") + p.rebate_amount.json() + text(",\"liquidity_memo\":");
        let t = text(",\"routing_epoch\":") + p.routing_epoch.json() + text("}");
        assert(q.json() =~= h + x.json() + t);
        assert(p.json() =~= h + p.liquidity_memo.json() + t);
        lemma_middle_equal(h, x.json(), p.liquidity_memo.json(), t);
        lemma_digest_json_injective(x, p.liquidity_memo);
    }
}

/// Changing the routing epoch of a route changes its canonical JSON.
#[verifier::spinoff_prover]
proof fn lemma_route_json_routing_epoch(p: RoutePlan, x: u64)
    ensures
        (RoutePlan { routing_epoch: x, ..p }).json() == p.json() ==> x == p.routing_epoch,
{
    let q = RoutePlan { routing_epoch: x, ..p };
    if q.json() == p.json() {
        let h = text("{\"operator\":") + p.operator.json() + text(",\"fee_recipient\":") + p.fee_recipient.json() + text(",\"operator_fee\":") + p.operator_fee.json() + text(",\"rebate_recipient\":") + option_account_json(p.rebate_recipient) + text(",\"rebate_amount\":") + p.rebate_amount.json() + text(",\"liquidity_memo\":") + p.liquidity_memo.json() + text(",\"routing_epoch\":");
        let t = text("}");
        assert(q.json() =~= h + x.json() + t);
        assert(p.json() =~= h + p.routing_epoch.json() + t);
        lemma_middle_equal(h, x.json(), p.routing_epoch.json(), t);
        lemma_decimal_injective(x as nat, p.routing_epoch as nat);
    }
}

/// A route's canonical JSON, and so the input of its digest, commits to every
/// part of the route: changing any one of its operator, fee recipient,
/// operator fee, rebate recipient, rebate amount, liquidity memo or routing
/// epoch changes the encoding.
pub proof fn lemma_route_json_commits(
    p: RoutePlan,
    operator: AccountId,
    fee_recipient: AccountId,
    operator_fee: Amount,
    rebate_recipient: Option<AccountId>,
    rebate_amount: Amount,
    liquidity_memo: Digest,
    routing_epoch: u64,
)
    ensures
        (RoutePlan { operator, ..p }).json() == p.json() ==> operator == p.operator,
        (RoutePlan { fee_recipient, ..p }).json() == p.json() ==> fee_recipient == p.fee_recipient,
        (RoutePlan { operator_fee, ..p }).json() == p.json() ==> operator_fee.spec_units()
            == p.operator_fee.spec_units(),
        (RoutePlan { rebate_recipient, ..p }).json() == p.json() ==> rebate_recipient
            == p.rebate_recipient,
        (RoutePlan { rebate_amount, ..p }).json() == p.json() ==> rebate_amount.spec_units()
            == p.rebate_amount.spec_units(),
        (RoutePlan { liquidity_memo, ..p }).json() == p.json() ==> liquidity_memo == p.liquidity_memo,
        (RoutePlan { routing_epoch, ..p }).json() == p.json() ==> routing_epoch == p.routing_epoch,
{
    lemma_route_json_operator(p, operator);
    lemma_route_json_fee_recipient(p, fee_recipient);
    lemma_route_json_operator_fee(p, operator_fee);
    lemma_route_json_rebate_recipient(p, rebate_recipient);
    lemma_route_json_rebate_amount(p, rebate_amount);
    lemma_route_json_liquidity_memo(p, liquidity_memo);
    lemma_route_json_routing_epoch(p, routing_epoch);
}

/// Changing the venue of a routing policy changes its canonical JSON.
#[verifier::spinoff_prover]
proof fn lemma_policy_json_venue(p: RoutePolicy, x: Digest)
    ensures
        (RoutePolicy { venue: x, ..p }).json() == p.json() ==> x == p.venue,
{
    let q = RoutePolicy { venue: x, ..p };
    if q.json() == p.json() {
        let h = text("{\"venue\":");
        let t = text(",\"max_charge_bps\":") + p.max_charge_bps.json() + text(",\"settlement_epoch\":") + p.settlement_epoch.json() + text("}");
        assert(q.json() =~= h + x.json() + t);
        assert(p.json() =~= h + p.venue.json() + t);
        lemma_middle_equal(h, x.json(), p.venue.json(), t);
        lemma_digest_json_injective(x, p.venue);
    }
}

/// Changing the max charge bps of a routing policy changes its canonical JSON.
#[verifier::spinoff_prover]
proof fn lemma_policy_json_max_charge_bps(p: RoutePolicy, x: Bps)
    ensures
        (RoutePolicy { max_charge_bps: x, ..p }).json() == p.json() ==> x == p.max_charge_bps,
{
    let q = RoutePolicy { max_charge_bps: x, ..p };
    if q.json() == p.json() {
        let h = text("{\"venue\":") + p.venue.json() + text(",\"max_charge_bps\":");
        let t = text(",\"settlement_epoch\":") + p.settlement_epoch.json() + text("}");
        assert(q.json() =~= h + x.json() + t);
        assert(p.json() =~= h + p.max_charge_bps.json() + t);
        lemma_middle_equal(h, x.json(), p.max_charge_bps.json(), t);
        lemma_decimal_injective(x.spec_value(), p.max_charge_bps.spec_value());
        Bps::lemma_of_value(x);
        Bps::lemma_of_value(p.max_charge_bps);
    }
}

/// Changing the settlement epoch of a routing policy changes its canonical JSON.
#[verifier::spinoff_prover]
proof fn lemma_policy_json_settlement_epoch(p: RoutePolicy, x: u64)
    ensures
        (RoutePolicy { settlement_epoch: x, ..p }).json() == p.json() ==> x == p.settlement_epoch,
{
    let q = RoutePolicy { settlement_epoch: x, ..p };
    if q.json() == p.json() {
        let h = text("{\"venue\":") + p.venue.json() + text(",\"max_charge_bps\":") + p.max_charge_bps.json() + text(",\"settlement_epoch\":");
        let t = text("}");
        assert(q.json() =~= h + x.json() + t);
        assert(p.json() =~= h + p.settlement_epoch.json() + t);
        lemma_middle_equal(h, x.json(), p.settlement_epoch.json(), t);
        lemma_decimal_injective(x as nat, p.settlement_epoch as nat);
    }
}


/// A routing policy's canonical JSON, which the payer signs with the ticket's
/// terms, commits to its venue, its basis-point ceiling and its settlement
/// epoch: changing any one of them changes the encoding.
pub proof fn lemma_policy_json_commits(
    p: RoutePolicy,
    venue: Digest,
    max_charge_bps: Bps,
    settlement_epoch: u64,
)
    ensures
        (RoutePolicy { venue, ..p }).json() == p.json() ==> venue == p.venue,
        (RoutePolicy { max_charge_bps, ..p }).json() == p.json() ==> max_charge_bps == p.max_charge_bps,
        (RoutePolicy { settlement_epoch, ..p }).json() == p.json() ==> settlement_epoch == p.settlement_epoch,
{
    lemma_policy_json_venue(p, venue);
    lemma_policy_json_max_charge_bps(p, max_charge_bps);
    lemma_policy_json_settlement_epoch(p, settlement_epoch);
}

} // verus!
