use vstd::prelude::*;
use vstd::string::StringSliceAdditionalSpecFns;

use crate::amount::{Amount, Bps};
use crate::crypto::{ed25519_public_key, identity_consistent, identity_of, lemma_identity_of, KeyPair, PublicIdentity};
use crate::error::{VertexError, VertexResult};
use crate::history::{lemma_history_determines_ledger, lemma_reachable_push, ledger_after, reachable, LedgerOp};
use crate::ids::{account_digest, be_u64, digest_of, digest_of_one, ticket_digest, u64_be_bytes, AccountId, AssetId, Digest, TicketId, TxId};
use crate::ledger::{
    genesis_refusal, lemma_open_preserves_wf, state_digest_bytes, open_refusal, opened, opened_ticket, settle_refusal, settled, lemma_genesis_account, lemma_open_then_read, lemma_opened_account, lemma_registered_account,
    lemma_open_accepted, lemma_opened_members, lemma_settle_accepted, lemma_settled_members,
    lemma_settled_account, lemma_settle_then_read, payout_credit, LedgerView, TicketState, VertexLedger,
};
use crate::release::{release_signature_refusal, release_tx, release_tx_bytes, signed_release_of, ReleaseRequest, SignedRelease};
use crate::route::{direct_memo, route_digest_bytes, route_refusal, RoutePlan, RoutePolicy};
use crate::ticket::{signed_ticket_of, ticket_signature_refusal, ticket_tx, ticket_tx_bytes, SignedTicket, TicketTerms};

verus! {

broadcast use crate::ids::group_id_views;

/// The liquid balances of the five demonstration accounts.
#[derive(Copy, Clone, Debug, PartialEq, Eq)]
pub struct BalanceReport {
    pub payer: Amount,
    pub beneficiary: Amount,
    pub operator: Amount,
    pub integrator: Amount,
    pub reserve: Amount,
}

/// What a demonstration scenario reports about the ledger it leaves behind.
#[derive(Copy, Clone, Debug, PartialEq, Eq)]
pub struct ScenarioReport {
    pub scenario: &'static str,
    pub network_id: u32,
    pub asset: AssetId,
    pub ticket_id: Option<TicketId>,
    pub open_tx: Option<TxId>,
    pub release_tx: Option<TxId>,
    pub balances: BalanceReport,
    pub total_supply: Amount,
    pub state_digest: Digest,
    pub conservation_ok: bool,
}

/// A ledger with five registered accounts, the payer funded with 5 000 units,
/// and the operations it has accepted.
struct Fixture {
    ledger: VertexLedger,
    payer: KeyPair,
    beneficiary: KeyPair,
    operator: KeyPair,
    integrator: KeyPair,
    reserve: KeyPair,
    network_id: u32,
    asset: AssetId,
    history: Ghost<Seq<LedgerOp>>,
}

/// The secret seed of a demonstration key pair: 32 bytes equal to `b`.
pub open spec fn demo_seed(b: u8) -> Seq<u8> {
    Seq::new(32, |i: int| b)
}

/// The account of the demonstration key pair whose seed repeats `b`.
pub open spec fn demo_account(b: u8) -> AccountId {
    AccountId::from_view(account_digest(ed25519_public_key(demo_seed(b))))
}

/// The five demonstration accounts: payer, beneficiary, operator, integrator
/// and reserve, with seeds repeating 11, 22, 33, 44 and 55.
pub open spec fn demo_accounts() -> Seq<AccountId> {
    seq![demo_account(11), demo_account(22), demo_account(33), demo_account(44), demo_account(55)]
}

/// Whether the five demonstration accounts are pairwise distinct, which is
/// what registering them all needs.
pub open spec fn demo_accounts_distinct() -> bool {
    forall|k: int, l: int| 0 <= k < l < 5 ==> demo_accounts()[k] != demo_accounts()[l]
}

/// The native asset of the demonstration ledger.
pub open spec fn demo_asset() -> AssetId {
    AssetId::from_view(digest_of_one("vertex-native-asset-v1".spec_bytes(), "vtx".spec_bytes()))
}

/// The routing policy the demonstration payer signs: the primary venue, a
/// ceiling of `bps` basis points, applying from `epoch`.
pub open spec fn demo_policy(bps: u16, epoch: u64) -> RoutePolicy {
    RoutePolicy {
        venue: Digest::from_view(digest_of("vertex-demo-venue-v1".spec_bytes(), seq!["primary".spec_bytes()])),
        max_charge_bps: Bps::of(bps as nat),
        settlement_epoch: epoch,
    }
}

/// The salt of the demonstration ticket with payer nonce `nonce` and `amount`.
pub open spec fn demo_salt(nonce: u64, amount: Amount) -> Seq<u8> {
    digest_of(
        "vertex-demo-ticket-salt-v1".spec_bytes(),
        seq![
            be_u64(nonce as nat),
            be_u64(amount.spec_units() / 0x1_0000_0000_0000_0000) + be_u64(
                amount.spec_units() % 0x1_0000_0000_0000_0000,
            ),
        ],
    )
}

/// The terms of the demonstration ticket from the payer to the beneficiary
/// with payer nonce `nonce`, expiring at epoch 500.
pub open spec fn demo_terms(nonce: u64, amount: Amount, policy: RoutePolicy) -> TicketTerms {
    TicketTerms {
        network_id: 4204,
        ticket_id: TicketId::from_view(
            ticket_digest(
                4204,
                account_digest(ed25519_public_key(demo_seed(11))),
                account_digest(ed25519_public_key(demo_seed(22))),
                nonce,
                demo_salt(nonce, amount),
            ),
        ),
        payer: demo_account(11),
        beneficiary: demo_account(22),
        asset: demo_asset(),
        amount,
        payer_nonce: nonce,
        expires_at_epoch: 500,
        route_policy: policy,
        salt: Digest::from_view(demo_salt(nonce, amount)),
    }
}

/// The demonstration ticket, signed by the payer.
#[verifier::opaque]
pub open spec fn demo_ticket(nonce: u64, amount: Amount, policy: RoutePolicy, route: RoutePlan) -> SignedTicket {
    signed_ticket_of(demo_terms(nonce, amount, policy), route, demo_seed(11))
}

/// The beneficiary's release of a demonstration ticket with release nonce
/// `nonce`, observing the ticket's route.
#[verifier::opaque]
pub open spec fn demo_release(nonce: u64, ticket: SignedTicket) -> SignedRelease {
    signed_release_of(
        ReleaseRequest {
            network_id: 4204,
            ticket_id: ticket.terms.ticket_id,
            beneficiary: demo_account(22),
            release_nonce: nonce,
            observed_route_digest: Digest::from_view(route_digest_bytes(ticket.route_plan)),
        },
        demo_seed(22),
    )
}

/// The registrations of the five demonstration accounts, in order.
pub open spec fn demo_registrations() -> Seq<LedgerOp> {
    seq![
        LedgerOp::Register(identity_of(demo_seed(11))),
        LedgerOp::Register(identity_of(demo_seed(22))),
        LedgerOp::Register(identity_of(demo_seed(33))),
        LedgerOp::Register(identity_of(demo_seed(44))),
        LedgerOp::Register(identity_of(demo_seed(55))),
    ]
}

/// The operations that set up the demonstration ledger: the five
/// registrations, then 5 000 units of genesis supply for the payer.
pub open spec fn demo_setup() -> Seq<LedgerOp> {
    demo_registrations().push(LedgerOp::Genesis(demo_account(11), Amount::of(5000)))
}

/// The history `h` followed by opening ticket `s` and settling it by release `r`.
pub open spec fn with_round(h: Seq<LedgerOp>, s: SignedTicket, r: SignedRelease) -> Seq<LedgerOp> {
    h.push(LedgerOp::Open(s)).push(LedgerOp::Settle(r))
}

/// The account identifier of a key pair.
pub open spec fn account_of(kp: KeyPair) -> AccountId {
    AccountId::from_view(account_digest(ed25519_public_key(kp.seed())))
}

/// The balances of the five demonstration accounts after a ticket of
/// `amount` from the payer (position 0) to the beneficiary (position 1) is
/// opened and settled over `route`.
pub open spec fn after_ticket(ids: Seq<AccountId>, bal: Seq<nat>, route: RoutePlan, amount: Amount) -> Seq<
    nat,
> {
    Seq::new(
        5,
        |k: int|
            ((bal[k] - if k == 0 {
                amount.spec_units()
            } else {
                0
            }) + payout_credit(route, ids[1], amount, ids[k])) as nat,
    )
}

proof fn lemma_identity_account(kp: KeyPair, id: PublicIdentity)
    requires
        id.public_key@ == ed25519_public_key(kp.seed()),
        id.account@ == account_digest(id.public_key@),
    ensures
        id.account == account_of(kp),
{
}

impl Fixture {
    /// The five demonstration accounts: payer, beneficiary, operator, integrator, reserve.
    spec fn ids(self) -> Seq<AccountId> {
        seq![
            account_of(self.payer),
            account_of(self.beneficiary),
            account_of(self.operator),
            account_of(self.integrator),
            account_of(self.reserve),
        ]
    }

    /// The ledger is well formed, holds the five distinct demonstration
    /// accounts with balances `bal`, and its supply is 5 000 units.
    spec fn holds(self, bal: Seq<nat>) -> bool {
        let v = self.ledger@;
        &&& self.ledger.wf()
        &&& self.payer.seed() == demo_seed(11)
        &&& self.beneficiary.seed() == demo_seed(22)
        &&& self.operator.seed() == demo_seed(33)
        &&& self.integrator.seed() == demo_seed(44)
        &&& self.reserve.seed() == demo_seed(55)
        &&& self.network_id == 4204
        &&& self.asset == demo_asset()
        &&& self.network_id == v.network_id
        &&& self.asset == v.asset
        &&& v.total_supply.spec_units() == 5000
        &&& bal.len() == 5
        &&& forall|k: int| 0 <= k < 5 ==> v.has_account(#[trigger] self.ids()[k])
        &&& forall|k: int, l: int| 0 <= k < l < 5 ==> self.ids()[k] != self.ids()[l]
        &&& forall|k: int|
            0 <= k < 5 ==> v.account(#[trigger] self.ids()[k]).balance.spec_units() == bal[k]
    }

    /// The ledger is the one that the fixture's history of operations leaves.
    #[verifier::opaque]
    spec fn traced(self) -> bool {
        reachable(4204, demo_asset(), self.history@, self.ledger@)
    }

    /// No ticket is open, no transaction is processed, and every nonce of the
    /// five accounts is zero.
    spec fn fresh(self) -> bool {
        let v = self.ledger@;
        &&& v.tickets.len() == 0
        &&& v.seen.len() == 0
        &&& forall|k: int|
            0 <= k < 5 ==> v.account(#[trigger] self.ids()[k]).next_ticket_nonce == 0
                && v.account(self.ids()[k]).next_release_nonce == 0
    }

    #[verifier::spinoff_prover]
    #[verifier::rlimit(50)]
    fn new() -> (r: VertexResult<Fixture>)
        ensures
            r is Ok <==> demo_accounts_distinct(),
            r matches Ok(f) ==> f.holds(seq![5000nat, 0nat, 0nat, 0nat, 0nat]) && f.fresh() && f.traced()
                && f.history@ == demo_setup(),
    {
        let network_id: u32 = 4204;
        let asset = AssetId::native();
        let payer = KeyPair::from_seed([11u8; 32]);
        let beneficiary = KeyPair::from_seed([22u8; 32]);
        let operator = KeyPair::from_seed([33u8; 32]);
        let integrator = KeyPair::from_seed([44u8; 32]);
        let reserve = KeyPair::from_seed([55u8; 32]);
        proof {
            assert(payer.seed() =~= demo_seed(11));
            assert(beneficiary.seed() =~= demo_seed(22));
            assert(operator.seed() =~= demo_seed(33));
            assert(integrator.seed() =~= demo_seed(44));
            assert(reserve.seed() =~= demo_seed(55));
            assert(asset == demo_asset());
        }
        let mut ledger = VertexLedger::new(network_id, asset);
        proof {
            Amount::lemma_of(0);
        }
        let ids = [
            payer.public_identity(),
            beneficiary.public_identity(),
            operator.public_identity(),
            integrator.public_identity(),
            reserve.public_identity(),
        ];
        proof {
            lemma_identity_account(payer, ids[0]);
            lemma_identity_account(beneficiary, ids[1]);
            lemma_identity_account(operator, ids[2]);
            lemma_identity_account(integrator, ids[3]);
            lemma_identity_account(reserve, ids[4]);
        }
        let ghost accounts = seq![
            ids[0].account,
            ids[1].account,
            ids[2].account,
            ids[3].account,
            ids[4].account,
        ];
        let ghost regs = demo_registrations();
        proof {
            assert(accounts == demo_accounts());
            assert(ids@[0] == identity_of(demo_seed(11)));
            assert(ids@[1] == identity_of(demo_seed(22)));
            assert(ids@[2] == identity_of(demo_seed(33)));
            assert(ids@[3] == identity_of(demo_seed(44)));
            assert(ids@[4] == identity_of(demo_seed(55)));
            assert(regs.take(0) =~= Seq::<LedgerOp>::empty());
        }
        let mut n: usize = 0;
        while n < 5
            invariant
                n <= 5,
                ledger.wf(),
                ledger@.network_id == network_id,
                ledger@.asset == asset,
                ledger@.total_supply.spec_units() == 0,
                ledger@.tickets.len() == 0,
                ledger@.seen.len() == 0,
                accounts == demo_accounts(),
                regs == demo_registrations(),
                reachable(4204, asset, regs.take(n as int), ledger@),
                forall|k: int| 0 <= k < 5 ==> regs[k] == LedgerOp::Register(#[trigger] ids@[k]),
                forall|k: int| 0 <= k < 5 ==> accounts[k] == (#[trigger] ids@[k]).account,
                forall|k: int| 0 <= k < 5 ==> identity_consistent(#[trigger] ids@[k]),
                forall|x: AccountId| #[trigger] ledger@.has_account(x) <==> exists|k: int| 0 <= k < n && accounts[k] == x,
                forall|k: int|
                    0 <= k < n ==> ledger@.account(#[trigger] accounts[k]).balance.spec_units() == 0
                        && ledger@.account(accounts[k]).next_ticket_nonce == 0
                        && ledger@.account(accounts[k]).next_release_nonce == 0,
                forall|k: int, l: int| 0 <= k < l < n ==> accounts[k] != accounts[l],
            decreases 5 - n,
        {
            let ghost before = ledger@;
            proof {
                ledger.lemma_wf_view();
            }
            let identity = ids[n];
            let registered = ledger.register_account(identity);
            if let Err(e) = registered {
                proof {
                    assert(identity_consistent(ids@[n as int]));
                    assert(before.has_account(accounts[n as int]));
                    let k = choose|k: int| 0 <= k < n && accounts[k] == accounts[n as int];
                    assert(demo_accounts()[k] == demo_accounts()[n as int]);
                }
                return Err(e);
            }
            proof {
                let after = ledger@;
                assert(reachable(4204, asset, regs.take(n + 1), after)) by {
                    lemma_reachable_push(4204, asset, regs.take(n as int), before, LedgerOp::Register(identity), after);
                    assert(regs.take(n as int).push(LedgerOp::Register(identity)) =~= regs.take(n + 1));
                }
                assert(identity.account == accounts[n as int]);
                lemma_registered_account(before, identity, after, identity.account);
                assert forall|x: AccountId| after.has_account(x) <==> exists|k: int| 0 <= k < n + 1 && accounts[k] == x by {
                    lemma_registered_account(before, identity, after, x);
                    if after.has_account(x) && x != identity.account {
                        assert(before.has_account(x));
                    }
                    if exists|k: int| 0 <= k < n + 1 && accounts[k] == x {
                        let k = choose|k: int| 0 <= k < n + 1 && accounts[k] == x;
                        if k < n {
                            assert(before.has_account(x));
                        }
                    }
                }
                assert forall|k: int| 0 <= k < n + 1 implies after.account(#[trigger] accounts[k]).balance.spec_units() == 0
                    && after.account(accounts[k]).next_ticket_nonce == 0
                    && after.account(accounts[k]).next_release_nonce == 0 by {
                    lemma_registered_account(before, identity, after, accounts[k]);
                    if k < n {
                        assert(before.has_account(accounts[k]));
                    }
                }
                assert forall|k: int, l: int| 0 <= k < l < n + 1 implies accounts[k] != accounts[l] by {
                    if l == n {
                        assert(before.has_account(accounts[k]));
                    }
                }
            }
            n = n + 1;
        }
        let funds = Amount::new(5_000)?;
        let ghost before = ledger@;
        proof {
            ledger.lemma_wf_view();
        }
        let payer_identity = payer.public_identity();
        let payer_account = payer_identity.account;
        proof {
            lemma_identity_account(payer, payer_identity);
            assert(payer_account == accounts[0]);
            assert(before.has_account(accounts[0]));
            Amount::lemma_of(5000);
            assert(genesis_refusal(before, payer_account, funds) is None);
        }
        let tx = ledger.credit_genesis(payer_account, funds)?;
        let f = Fixture {
            ledger,
            payer,
            beneficiary,
            operator,
            integrator,
            reserve,
            network_id,
            asset,
            history: Ghost(demo_setup()),
        };
        proof {
            assert(regs.take(5) =~= regs);
            assert(funds == Amount::of(5000));
            lemma_reachable_push(4204, asset, regs, before, LedgerOp::Genesis(payer_account, funds), ledger@);
            assert(f.traced()) by {
                reveal(Fixture::traced);
            }
            let after = ledger@;
            assert(f.ids() == accounts);
            assert forall|k: int| 0 <= k < 5 implies #[trigger] before.has_account(accounts[k]) by {
                assert(exists|l: int| 0 <= l < 5 && accounts[l] == accounts[k]);
            }
            assert forall|k: int| 0 <= k < 5 implies after.has_account(#[trigger] f.ids()[k]) && after.account(f.ids()[k]).balance.spec_units()
                == seq![5000nat, 0nat, 0nat, 0nat, 0nat][k] && after.account(f.ids()[k]).next_ticket_nonce == 0
                && after.account(f.ids()[k]).next_release_nonce == 0 by {
                assert(before.has_account(accounts[k]));
                lemma_genesis_account(before, payer_account, funds, tx, accounts[k]);
            }
            lemma_genesis_account(before, payer_account, funds, tx, accounts[0]);
        }
        Ok(f)
    }

    fn route_policy(&self, max_charge_bps: u16, settlement_epoch: u64) -> (r: VertexResult<
        RoutePolicy,
    >)
        ensures
            max_charge_bps <= 10_000 ==> r == Ok::<RoutePolicy, VertexError>(
                demo_policy(max_charge_bps, settlement_epoch),
            ),
            max_charge_bps > 10_000 ==> r is Err,
    {
        let parts: [&[u8]; 1] = ["primary".as_bytes()];
        let venue = Digest::from_parts("vertex-demo-venue-v1", &parts);
        proof {
            assert(parts@.map_values(|p: &[u8]| p@) =~= seq!["primary".spec_bytes()]);
            assert(venue == demo_policy(max_charge_bps, settlement_epoch).venue);
        }
        Ok(RoutePolicy::new(venue, Bps::new(max_charge_bps)?, settlement_epoch))
    }

    fn balances(&self) -> (r: VertexResult<BalanceReport>)
        requires
            self.ledger.wf(),
        ensures
            forall|bal: Seq<nat>| #[trigger] self.holds(bal) ==> (r matches Ok(b) && b.payer.spec_units() == bal[0]
                && b.beneficiary.spec_units() == bal[1] && b.operator.spec_units() == bal[2]
                && b.integrator.spec_units() == bal[3] && b.reserve.spec_units() == bal[4]),
    {
        let ids = [
            self.payer.public_identity(),
            self.beneficiary.public_identity(),
            self.operator.public_identity(),
            self.integrator.public_identity(),
            self.reserve.public_identity(),
        ];
        proof {
            lemma_identity_account(self.payer, ids[0]);
            lemma_identity_account(self.beneficiary, ids[1]);
            lemma_identity_account(self.operator, ids[2]);
            lemma_identity_account(self.integrator, ids[3]);
            lemma_identity_account(self.reserve, ids[4]);
            assert(self.ids()[0] == ids[0].account);
            assert(self.ids()[1] == ids[1].account);
            assert(self.ids()[2] == ids[2].account);
            assert(self.ids()[3] == ids[3].account);
            assert(self.ids()[4] == ids[4].account);
        }
        Ok(BalanceReport {
            payer: self.ledger.balance_of(ids[0].account)?,
            beneficiary: self.ledger.balance_of(ids[1].account)?,
            operator: self.ledger.balance_of(ids[2].account)?,
            integrator: self.ledger.balance_of(ids[3].account)?,
            reserve: self.ledger.balance_of(ids[4].account)?,
        })
    }

    fn report(
        &self,
        scenario: &'static str,
        ticket_id: Option<TicketId>,
        open_tx: Option<TxId>,
        release_tx: Option<TxId>,
    ) -> (r: VertexResult<ScenarioReport>)
        requires
            self.ledger.wf(),
        ensures
            r matches Ok(rep) ==> rep.scenario == scenario && rep.network_id == self.network_id
                && rep.asset == self.asset && rep.ticket_id == ticket_id && rep.open_tx == open_tx
                && rep.release_tx == release_tx && rep.total_supply == self.ledger@.total_supply
                && rep.conservation_ok && rep.state_digest@ == state_digest_bytes(self.ledger@),
            forall|bal: Seq<nat>| #[trigger] self.holds(bal) ==> (r matches Ok(rep) && rep.balances.payer.spec_units() == bal[0]
                && rep.balances.beneficiary.spec_units() == bal[1] && rep.balances.operator.spec_units() == bal[2]
                && rep.balances.integrator.spec_units() == bal[3] && rep.balances.reserve.spec_units() == bal[4]
                && rep.total_supply.spec_units() == 5000),
    {
        Ok(ScenarioReport {
            scenario,
            network_id: self.network_id,
            asset: self.asset,
            ticket_id,
            open_tx,
            release_tx,
            balances: self.balances()?,
            total_supply: self.ledger.total_supply(),
            state_digest: self.ledger.state_digest()?,
            conservation_ok: self.ledger.verify_conservation().is_ok(),
        })
    }
}

/// The ticket that a round opens on ledger `v`: it carries the payer's next
/// ticket nonce.
spec fn round_ticket(v: LedgerView, amount: Amount, policy: RoutePolicy, route: RoutePlan) -> SignedTicket {
    demo_ticket(v.account(demo_account(11)).next_ticket_nonce, amount, policy, route)
}

/// The release that settles a round's ticket on ledger `v`: it carries the
/// beneficiary's next release nonce.
spec fn round_release(v: LedgerView, ticket: SignedTicket) -> SignedRelease {
    demo_release(v.account(demo_account(22)).next_release_nonce, ticket)
}

/// Whether a round's ticket of `amount` over `route` opens on ledger `v`: the
/// amount is not zero and the payer covers it, the route's parties are
/// registered and the route passes the policy, the payer's ticket nonce can
/// advance, and the ticket and its transaction are new.
#[verifier::opaque]
spec fn round_opens(v: LedgerView, amount: Amount, policy: RoutePolicy, route: RoutePlan) -> bool {
    let s = round_ticket(v, amount, policy, route);
    &&& amount.spec_units() != 0
    &&& amount.spec_units() <= v.account(demo_account(11)).balance.spec_units()
    &&& v.has_account(route.operator)
    &&& v.has_account(route.fee_recipient)
    &&& (route.rebate_recipient matches Some(x) ==> v.has_account(x))
    &&& route_refusal(route, policy, amount) is None
    &&& v.account(demo_account(11)).next_ticket_nonce < u64::MAX
    &&& !v.has_ticket(s.terms.ticket_id)
    &&& !v.seen.contains(ticket_tx(s))
}

/// Whether the release of ticket `s` then settles, from ledger `v`: the
/// beneficiary's release nonce can advance, and the release's transaction is
/// new and differs from the ticket's.
#[verifier::opaque]
spec fn round_settles(v: LedgerView, s: SignedTicket) -> bool {
    let rr = round_release(v, s);
    &&& v.account(demo_account(22)).next_release_nonce < u64::MAX
    &&& !v.seen.contains(release_tx(rr))
    &&& release_tx(rr) != ticket_tx(s)
}

/// Whether a round of `amount` over `route` goes through on ledger `v`.
#[verifier::opaque]
spec fn round_accepted(v: LedgerView, amount: Amount, policy: RoutePolicy, route: RoutePlan) -> bool {
    round_opens(v, amount, policy, route) && round_settles(v, round_ticket(v, amount, policy, route))
}

/// A round goes through exactly when its ticket opens and its release then settles.
proof fn lemma_round_accepted(v: LedgerView, amount: Amount, policy: RoutePolicy, route: RoutePlan)
    ensures
        round_accepted(v, amount, policy, route) == (round_opens(v, amount, policy, route)
            && round_settles(v, round_ticket(v, amount, policy, route))),
        round_opens(v, amount, policy, route) ==> amount.spec_units() != 0,
{
    reveal(round_accepted);
    reveal(round_opens);
}

/// The demonstration ledger facts that a round relies on.
spec fn round_ready(v: LedgerView) -> bool {
    &&& v.wf()
    &&& v.network_id == 4204
    &&& v.asset == demo_asset()
    &&& v.has_account(demo_account(11))
    &&& v.has_account(demo_account(22))
}

/// A round's ticket opens exactly when `round_opens` says.
proof fn lemma_round_open(v: LedgerView, amount: Amount, policy: RoutePolicy, route: RoutePlan)
    requires
        round_ready(v),
        amount.spec_units() != 0,
        ticket_signature_refusal(round_ticket(v, amount, policy, route)) is None,
    ensures
        open_refusal(v, round_ticket(v, amount, policy, route)) is None <==> round_opens(v, amount, policy, route),
{
    let s = round_ticket(v, amount, policy, route);
    reveal(round_opens);
    reveal(demo_ticket);
    reveal(ticket_tx);
    lemma_identity_of(demo_seed(11));
    lemma_open_accepted(v, s);
    assert(s.terms.payer == demo_account(11));
    assert(s.terms.beneficiary == demo_account(22));
    assert(s.terms.payer_nonce == v.account(demo_account(11)).next_ticket_nonce);
}

/// Once a round's ticket is open, its release settles exactly when
/// `round_settles` says.
#[verifier::spinoff_prover]
proof fn lemma_round_settle(v: LedgerView, s: SignedTicket, tx: TxId, w: LedgerView)
    requires
        round_ready(v),
        open_refusal(v, s) is None,
        opened(v, s, tx, w),
        s.terms.payer == demo_account(11),
        s.terms.beneficiary == demo_account(22),
        route_digest_bytes(s.route_plan).len() == 32,
        release_signature_refusal(round_release(v, s)) is None,
    ensures
        w.wf(),
        settle_refusal(w, round_release(v, s)) is None <==> round_settles(v, s),
        w.account(demo_account(22)).next_release_nonce == v.account(demo_account(22)).next_release_nonce,
        tx == ticket_tx(s),
{
    lemma_open_preserves_wf(v, s, tx, w);
    lemma_open_then_read(v, s, tx, w);
    lemma_opened_members(v, s, tx, w);
    lemma_opened_account(v, s, tx, w, demo_account(22));
    lemma_round_settle_core(v, s, tx, w);
}

/// The settlement checks of a round's release, on the ledger where its ticket
/// was just opened as transaction `tx`.
#[verifier::spinoff_prover]
proof fn lemma_round_settle_core(v: LedgerView, s: SignedTicket, tx: TxId, w: LedgerView)
    requires
        w.wf(),
        w.network_id == 4204,
        w.has_ticket(s.terms.ticket_id),
        w.ticket(s.terms.ticket_id) == opened_ticket(s),
        w.has_account(demo_account(22)),
        w.account(demo_account(22)).next_release_nonce == v.account(demo_account(22)).next_release_nonce,
        forall|x: TxId| #[trigger] w.seen.contains(x) <==> v.seen.contains(x) || x == tx,
        tx@ == ticket_tx_bytes(s),
        s.terms.beneficiary == demo_account(22),
        route_digest_bytes(s.route_plan).len() == 32,
        release_signature_refusal(round_release(v, s)) is None,
    ensures
        settle_refusal(w, round_release(v, s)) is None <==> round_settles(v, s),
        tx == ticket_tx(s),
{
    let rr = round_release(v, s);
    reveal(round_settles);
    reveal(demo_release);
    reveal(ticket_tx);
    reveal(release_tx);
    lemma_identity_of(demo_seed(22));
    lemma_settle_accepted(w, rr);
    assert(tx == ticket_tx(s));
    assert(rr.signer.account == demo_account(22));
    assert(rr.request.release_nonce == v.account(demo_account(22)).next_release_nonce);
    assert(rr.request.observed_route_digest@ == route_digest_bytes(s.route_plan));
    assert(w.has_seen(release_tx_bytes(rr)) == w.seen.contains(release_tx(rr)));
}

/// What a round leaves behind on `w`, from `v`: its ticket added and settled
/// with the signed terms and route, both of its transactions processed, and
/// both nonces advanced.
#[verifier::opaque]
spec fn round_done(v: LedgerView, w: LedgerView, amount: Amount, policy: RoutePolicy, route: RoutePlan) -> bool {
    let s = round_ticket(v, amount, policy, route);
    let rr = round_release(v, s);
    &&& forall|x: TicketId| #[trigger] w.has_ticket(x) <==> v.has_ticket(x) || x == s.terms.ticket_id
    &&& forall|x: TxId| #[trigger] w.seen.contains(x) <==> v.seen.contains(x) || x == ticket_tx(s) || x == release_tx(rr)
    &&& w.account(demo_account(11)).next_ticket_nonce == v.account(demo_account(11)).next_ticket_nonce + 1
    &&& w.account(demo_account(22)).next_release_nonce == v.account(demo_account(22)).next_release_nonce + 1
    &&& w.has_ticket(s.terms.ticket_id)
    &&& w.ticket(s.terms.ticket_id) == (TicketState { settled: true, ..opened_ticket(s) })
}

/// The history `h` of a ledger `v` extended by a round: its ticket opened,
/// then released.
spec fn round_history(h: Seq<LedgerOp>, v: LedgerView, amount: Amount, policy: RoutePolicy, route: RoutePlan) -> Seq<LedgerOp> {
    let s = round_ticket(v, amount, policy, route);
    with_round(h, s, round_release(v, s))
}

/// The state digest of a traced fixture is the one of the ledger its history leaves.
proof fn lemma_traced_digest(f: Fixture)
    requires
        f.traced(),
    ensures
        state_digest_bytes(ledger_after(4204, demo_asset(), f.history@)) == state_digest_bytes(f.ledger@),
{
    reveal(Fixture::traced);
    lemma_history_determines_ledger(4204, demo_asset(), f.history@, f.ledger@);
}

/// Opens a ticket of `amount` from the payer to the beneficiary over `route`,
/// then releases it; returns the ticket and both transaction identifiers.
#[verifier::spinoff_prover]
#[verifier::rlimit(100)]
fn open_and_release_internal(
    fixture: &mut Fixture,
    amount: Amount,
    policy: RoutePolicy,
    route: RoutePlan,
    Ghost(bal): Ghost<Seq<nat>>,
) -> (r: VertexResult<(TicketId, TxId, TxId)>)
    requires
        old(fixture).holds(bal),
        old(fixture).traced(),
    ensures
        final(fixture).ledger.wf(),
        r is Ok ==> final(fixture).traced() && final(fixture).history@ == round_history(
            old(fixture).history@,
            old(fixture).ledger@,
            amount,
            policy,
            route,
        ),
        final(fixture).network_id == old(fixture).network_id,
        final(fixture).asset == old(fixture).asset,
        final(fixture).ids() == old(fixture).ids(),
        r is Ok <==> round_accepted(old(fixture).ledger@, amount, policy, route),
        r is Ok ==> final(fixture).holds(after_ticket(old(fixture).ids(), bal, route, amount))
            && round_done(old(fixture).ledger@, final(fixture).ledger@, amount, policy, route),
        r matches Ok(res) ==> {
            let s = round_ticket(old(fixture).ledger@, amount, policy, route);
            &&& res == (s.terms.ticket_id, ticket_tx(s), release_tx(round_release(old(fixture).ledger@, s)))
            &&& final(fixture).ledger@.has_ticket(res.0)
            &&& final(fixture).ledger@.ticket(res.0) == (TicketState { settled: true, ..opened_ticket(s) })
        },
{
    let ghost v0 = fixture.ledger@;
    let ghost ids = fixture.ids();
    proof {
        lemma_round_accepted(v0, amount, policy, route);
        fixture.ledger.lemma_wf_view();
        assert(ids == demo_accounts());
        assert(ids[0] == demo_account(11));
        assert(ids[1] == demo_account(22));
        assert(v0.has_account(ids[0]));
        assert(v0.has_account(ids[1]));
        lemma_identity_of(demo_seed(11));
        lemma_identity_of(demo_seed(22));
    }
    let payer_identity = fixture.payer.public_identity();
    let beneficiary_identity = fixture.beneficiary.public_identity();
    proof {
        lemma_identity_account(fixture.payer, payer_identity);
        lemma_identity_account(fixture.beneficiary, beneficiary_identity);
    }
    let payer = payer_identity.account;
    let beneficiary = beneficiary_identity.account;
    let payer_nonce = fixture.ledger.ticket_nonce(payer)?;
    let nonce_bytes = u64_be_bytes(payer_nonce);
    let units_bytes = u128_be_bytes(amount.units());
    let parts: [&[u8]; 2] = [nonce_bytes.as_slice(), units_bytes.as_slice()];
    let salt = Digest::from_parts("vertex-demo-ticket-salt-v1", &parts);
    proof {
        assert(parts@.map_values(|p: &[u8]| p@) =~= seq![nonce_bytes@, units_bytes@]);
        assert(salt@ == demo_salt(payer_nonce, amount));
    }
    let terms = TicketTerms::new(
        fixture.network_id,
        payer,
        beneficiary,
        fixture.asset,
        amount,
        payer_nonce,
        500,
        policy,
        salt,
    )?;
    let ghost s = round_ticket(v0, amount, policy, route);
    proof {
        assert(terms.ticket_id == demo_terms(payer_nonce, amount, policy).ticket_id);
        assert(terms == demo_terms(payer_nonce, amount, policy));
        reveal(demo_ticket);
        reveal(demo_release);
    }
    let signed_ticket = SignedTicket::sign(terms, route, &fixture.payer)?;
    proof {
        assert(signed_ticket == s);
        assert(round_ready(v0));
        lemma_round_open(v0, amount, policy, route);
    }
    let open_tx = fixture.ledger.open_ticket(&signed_ticket)?;
    let ghost v1 = fixture.ledger@;
    let ghost rr = round_release(v0, s);
    proof {
        fixture.ledger.lemma_wf_view();
        lemma_opened_account(v0, s, open_tx, v1, beneficiary);
    }
    let digest = route.route_digest()?;
    let release = ReleaseRequest::new(
        fixture.network_id,
        terms.ticket_id,
        beneficiary,
        fixture.ledger.release_nonce(beneficiary)?,
        digest,
    );
    let signed_release = SignedRelease::sign(release, &fixture.beneficiary)?;
    proof {
        assert(digest == Digest::from_view(route_digest_bytes(route)));
        assert(signed_release == rr);
        lemma_round_settle(v0, s, open_tx, v1);
    }
    let settle_tx = fixture.ledger.settle_ticket(&signed_release)?;
    proof {
        let v2 = fixture.ledger@;
        lemma_open_then_read(v0, s, open_tx, v1);
        lemma_settle_then_read(v1, rr, settle_tx, v2);
        lemma_settled_members(v1, rr, settle_tx, v2);
        lemma_opened_members(v0, s, open_tx, v1);
        assert(settle_tx == release_tx(rr)) by {
            reveal(release_tx);
        }
        lemma_ticket_round(v0, signed_ticket, open_tx, v1, signed_release, settle_tx, v2, ids, bal);
        assert(round_done(v0, v2, amount, policy, route)) by {
            reveal(round_done);
        }
        assert(v2.has_ticket(s.terms.ticket_id));
        assert(v2.ticket(s.terms.ticket_id) == (TicketState { settled: true, ..opened_ticket(s) }));
    }
    let ghost h0 = fixture.history@;
    fixture.history = Ghost(round_history(h0, v0, amount, policy, route));
    proof {
        let v2 = fixture.ledger@;
        assert(reachable(4204, demo_asset(), h0, v0)) by {
            reveal(Fixture::traced);
        }
        lemma_reachable_push(4204, demo_asset(), h0, v0, LedgerOp::Open(s), v1);
        lemma_reachable_push(4204, demo_asset(), h0.push(LedgerOp::Open(s)), v1, LedgerOp::Settle(rr), v2);
        assert(fixture.traced()) by {
            reveal(Fixture::traced);
        }
    }
    Ok((terms.ticket_id, open_tx, settle_tx))
}

/// Opening and settling one ticket from the payer to the beneficiary moves
/// the balances of the five accounts as `after_ticket` says, and advances the
/// payer's ticket nonce and the beneficiary's release nonce.
proof fn lemma_ticket_round(
    v0: LedgerView,
    s: SignedTicket,
    open_tx: TxId,
    v1: LedgerView,
    sr: SignedRelease,
    release_tx: TxId,
    v2: LedgerView,
    ids: Seq<AccountId>,
    bal: Seq<nat>,
)
    requires
        v0.wf(),
        open_refusal(v0, s) is None,
        opened(v0, s, open_tx, v1),
        v1.wf(),
        settle_refusal(v1, sr) is None,
        settled(v1, sr, release_tx, v2),
        sr.request.ticket_id == s.terms.ticket_id,
        ids.len() == 5,
        bal.len() == 5,
        s.terms.payer == ids[0],
        s.terms.beneficiary == ids[1],
        sr.signer.account == ids[1],
        forall|k: int| 0 <= k < 5 ==> v0.has_account(#[trigger] ids[k]),
        forall|k: int, l: int| 0 <= k < l < 5 ==> ids[k] != ids[l],
        forall|k: int| 0 <= k < 5 ==> v0.account(#[trigger] ids[k]).balance.spec_units() == bal[k],
    ensures
        v2.network_id == v0.network_id,
        v2.asset == v0.asset,
        v2.total_supply == v0.total_supply,
        forall|k: int| 0 <= k < 5 ==> v2.has_account(#[trigger] ids[k]),
        forall|k: int|
            0 <= k < 5 ==> v2.account(#[trigger] ids[k]).balance.spec_units() == after_ticket(
                ids,
                bal,
                s.route_plan,
                s.terms.amount,
            )[k],
        v2.account(ids[0]).next_ticket_nonce == v0.account(ids[0]).next_ticket_nonce + 1,
        v2.account(ids[1]).next_release_nonce == v0.account(ids[1]).next_release_nonce + 1,
{
    lemma_open_then_read(v0, s, open_tx, v1);
    assert forall|k: int| 0 <= k < 5 implies v2.has_account(#[trigger] ids[k])
        && v2.account(ids[k]).balance.spec_units() == after_ticket(ids, bal, s.route_plan, s.terms.amount)[k] by {
        lemma_opened_account(v0, s, open_tx, v1, ids[k]);
        lemma_settled_account(v1, sr, release_tx, v2, ids[k]);
        if k != 0 {
            assert(ids[0] != ids[k]);
        }
    }
    lemma_opened_account(v0, s, open_tx, v1, ids[0]);
    lemma_settled_account(v1, sr, release_tx, v2, ids[0]);
    lemma_opened_account(v0, s, open_tx, v1, ids[1]);
    lemma_settled_account(v1, sr, release_tx, v2, ids[1]);
    lemma_open_accepted(v0, s);
    lemma_settle_accepted(v1, sr);
    assert(ids[0] != ids[1]);
}

/// The sixteen big-endian bytes of a `u128`.
fn u128_be_bytes(v: u128) -> (r: [u8; 16])
    ensures
        r@ == be_u64(v as nat / 0x1_0000_0000_0000_0000) + be_u64(v as nat % 0x1_0000_0000_0000_0000),
{
    let hi = u64_be_bytes((v / 0x1_0000_0000_0000_0000) as u64);
    let lo = u64_be_bytes((v % 0x1_0000_0000_0000_0000) as u64);
    let r = [
        hi[0], hi[1], hi[2], hi[3], hi[4], hi[5], hi[6], hi[7],
        lo[0], lo[1], lo[2], lo[3], lo[4], lo[5], lo[6], lo[7],
    ];
    assert(r@ =~= hi@ + lo@);
    r
}

fn open_and_release(
    fixture: &mut Fixture,
    scenario: &'static str,
    amount: Amount,
    policy: RoutePolicy,
    route: RoutePlan,
    Ghost(bal): Ghost<Seq<nat>>,
) -> (r: VertexResult<ScenarioReport>)
    requires
        old(fixture).holds(bal),
        old(fixture).traced(),
    ensures
        r is Ok <==> round_accepted(old(fixture).ledger@, amount, policy, route),
        r matches Ok(rep) ==> {
            let b = after_ticket(old(fixture).ids(), bal, route, amount);
            let s = round_ticket(old(fixture).ledger@, amount, policy, route);
            let h = round_history(old(fixture).history@, old(fixture).ledger@, amount, policy, route);
            &&& rep.state_digest@ == state_digest_bytes(ledger_after(4204, demo_asset(), h))
            &&& rep.scenario == scenario
            &&& rep.network_id == old(fixture).network_id
            &&& rep.asset == old(fixture).asset
            &&& rep.ticket_id == Some(s.terms.ticket_id)
            &&& rep.open_tx == Some(ticket_tx(s))
            &&& rep.release_tx == Some(release_tx(round_release(old(fixture).ledger@, s)))
            &&& rep.conservation_ok
            &&& rep.total_supply.spec_units() == 5000
            &&& rep.balances.payer.spec_units() == b[0]
            &&& rep.balances.beneficiary.spec_units() == b[1]
            &&& rep.balances.operator.spec_units() == b[2]
            &&& rep.balances.integrator.spec_units() == b[3]
            &&& rep.balances.reserve.spec_units() == b[4]
        },
{
    let (ticket_id, open_tx, release_tx) = open_and_release_internal(
        fixture,
        amount,
        policy,
        route,
        Ghost(bal),
    )?;
    proof {
        lemma_traced_digest(*fixture);
    }
    fixture.report(scenario, Some(ticket_id), Some(open_tx), Some(release_tx))
}

/// On the freshly funded demonstration ledger, a round from the payer's first
/// ticket whose amount and route fit goes through exactly when its two
/// transactions differ.
proof fn lemma_fresh_round(f: Fixture, amount: Amount, policy: RoutePolicy, route: RoutePlan)
    requires
        f.holds(seq![5000nat, 0nat, 0nat, 0nat, 0nat]),
        f.fresh(),
        amount.spec_units() != 0,
        amount.spec_units() <= 5000,
        f.ledger@.has_account(route.operator),
        f.ledger@.has_account(route.fee_recipient),
        route.rebate_recipient matches Some(x) ==> f.ledger@.has_account(x),
        route_refusal(route, policy, amount) is None,
    ensures
        round_ticket(f.ledger@, amount, policy, route) == demo_ticket(0, amount, policy, route),
        round_release(f.ledger@, demo_ticket(0, amount, policy, route)) == demo_release(
            0,
            demo_ticket(0, amount, policy, route),
        ),
        round_accepted(f.ledger@, amount, policy, route) <==> release_tx(
            demo_release(0, demo_ticket(0, amount, policy, route)),
        ) != ticket_tx(demo_ticket(0, amount, policy, route)),
{
    reveal(round_accepted);
    reveal(round_opens);
    reveal(round_settles);
    let v = f.ledger@;
    assert(f.ids() == demo_accounts());
    assert(f.ids()[0] == demo_account(11));
    assert(f.ids()[1] == demo_account(22));
    assert(v.account(f.ids()[0]).next_ticket_nonce == 0);
    assert(v.account(f.ids()[1]).next_release_nonce == 0);
    assert(v.account(f.ids()[0]).balance.spec_units() == 5000);
    assert(v.ticket_ids().len() == 0);
}

/// The direct route of the demonstration: run by the operator for epoch 10,
/// with no fee and no rebate.
pub open spec fn direct_route() -> RoutePlan {
    RoutePlan {
        operator: demo_account(33),
        fee_recipient: demo_account(33),
        operator_fee: Amount::of(0),
        rebate_recipient: None,
        rebate_amount: Amount::of(0),
        liquidity_memo: Digest::from_view(direct_memo(10)),
        routing_epoch: 10,
    }
}

/// The ticket of the direct scenario: 750 units under a 50 basis-point
/// ceiling applying from epoch 10.
pub open spec fn direct_ticket() -> SignedTicket {
    demo_ticket(0, Amount::of(750), demo_policy(50, 10), direct_route())
}

/// The direct route passes the direct scenario's policy for 750 units.
proof fn lemma_direct_route()
    ensures
        route_refusal(direct_route(), demo_policy(50, 10), Amount::of(750)) is None,
        Amount::of(750).spec_units() == 750,
{
    Amount::lemma_of(750);
    Amount::lemma_of(0);
    Bps::lemma_of(50);
}

/// A ticket of 750 units settled over a direct route: no fee, no rebate.
#[verifier::spinoff_prover]
#[verifier::rlimit(50)]
pub fn direct() -> (r: VertexResult<ScenarioReport>)
    ensures
        r is Ok <==> demo_accounts_distinct() && release_tx(demo_release(0, direct_ticket()))
            != ticket_tx(direct_ticket()),
        r matches Ok(rep) ==> rep.scenario == "direct" && rep.network_id == 4204
            && rep.asset == demo_asset()
            && rep.ticket_id == Some(direct_ticket().terms.ticket_id)
            && rep.open_tx == Some(ticket_tx(direct_ticket()))
            && rep.release_tx == Some(release_tx(demo_release(0, direct_ticket())))
            && rep.state_digest@ == state_digest_bytes(
                ledger_after(4204, demo_asset(), with_round(demo_setup(), direct_ticket(), demo_release(0, direct_ticket()))),
            )
            && rep.conservation_ok && rep.total_supply.spec_units() == 5000
            && rep.balances.payer.spec_units() == 4250 && rep.balances.beneficiary.spec_units() == 750
            && rep.balances.operator.spec_units() == 0 && rep.balances.integrator.spec_units() == 0
            && rep.balances.reserve.spec_units() == 0,
{
    let mut fixture = Fixture::new()?;
    let ghost bal = seq![5000nat, 0nat, 0nat, 0nat, 0nat];
    let policy = fixture.route_policy(50, 10)?;
    let operator_identity = fixture.operator.public_identity();
    proof {
        lemma_identity_account(fixture.operator, operator_identity);
    }
    let operator = operator_identity.account;
    let route = RoutePlan::direct(operator, 10);
    let amount = Amount::new(750)?;
    proof {
        assert(fixture.ids()[2] == operator);
        assert(fixture.ledger@.has_account(fixture.ids()[2]));
        assert(route == direct_route());
        lemma_direct_route();
        lemma_fresh_round(fixture, amount, policy, route);
    }
    open_and_release(&mut fixture, "direct", amount, policy, route, Ghost(bal))
}

/// A route run by the operator for `epoch`, with liquidity memo `memo`,
/// paying a fee of `fee` units to `fee_recipient` and a rebate of `rebate`
/// units to the integrator.
pub open spec fn demo_route(fee_recipient: AccountId, fee: nat, rebate: nat, memo: Seq<u8>, epoch: u64) -> RoutePlan {
    RoutePlan {
        operator: demo_account(33),
        fee_recipient,
        operator_fee: Amount::of(fee),
        rebate_recipient: Some(demo_account(44)),
        rebate_amount: Amount::of(rebate),
        liquidity_memo: Digest::from_view(digest_of("vertex-route-memo-v1".spec_bytes(), seq![memo])),
        routing_epoch: epoch,
    }
}

/// The ticket of the routed scenario: 1 000 units under a 150 basis-point
/// ceiling applying from epoch 20, over a route with a 9-unit fee to the
/// operator and a 3-unit rebate.
pub open spec fn routed_ticket() -> SignedTicket {
    demo_ticket(
        0,
        Amount::of(1000),
        demo_policy(150, 20),
        demo_route(demo_account(33), 9, 3, "routed".spec_bytes(), 20),
    )
}

/// The routed scenario's route passes its policy for 1 000 units.
proof fn lemma_routed_route()
    ensures
        route_refusal(demo_route(demo_account(33), 9, 3, "routed".spec_bytes(), 20), demo_policy(150, 20), Amount::of(1000)) is None,
        Amount::of(1000).spec_units() == 1000,
        Amount::of(9).spec_units() == 9,
        Amount::of(3).spec_units() == 3,
{
    Amount::lemma_of(1000);
    Amount::lemma_of(9);
    Amount::lemma_of(3);
    Bps::lemma_of(150);
}

/// A ticket of 1 000 units settled over a route with a 9-unit operator fee and
/// a 3-unit rebate to the integrator.
#[verifier::spinoff_prover]
#[verifier::rlimit(50)]
pub fn routed() -> (r: VertexResult<ScenarioReport>)
    ensures
        r is Ok <==> demo_accounts_distinct() && release_tx(demo_release(0, routed_ticket()))
            != ticket_tx(routed_ticket()),
        r matches Ok(rep) ==> rep.scenario == "routed" && rep.network_id == 4204
            && rep.asset == demo_asset()
            && rep.ticket_id == Some(routed_ticket().terms.ticket_id)
            && rep.open_tx == Some(ticket_tx(routed_ticket()))
            && rep.release_tx == Some(release_tx(demo_release(0, routed_ticket())))
            && rep.state_digest@ == state_digest_bytes(
                ledger_after(4204, demo_asset(), with_round(demo_setup(), routed_ticket(), demo_release(0, routed_ticket()))),
            )
            && rep.conservation_ok && rep.total_supply.spec_units() == 5000
            && rep.balances.payer.spec_units() == 4000 && rep.balances.beneficiary.spec_units() == 988
            && rep.balances.operator.spec_units() == 9 && rep.balances.integrator.spec_units() == 3
            && rep.balances.reserve.spec_units() == 0,
{
    let mut fixture = Fixture::new()?;
    let ghost bal = seq![5000nat, 0nat, 0nat, 0nat, 0nat];
    let policy = fixture.route_policy(150, 20)?;
    let operator_identity = fixture.operator.public_identity();
    let integrator_identity = fixture.integrator.public_identity();
    proof {
        lemma_identity_account(fixture.operator, operator_identity);
        lemma_identity_account(fixture.integrator, integrator_identity);
    }
    let memo_parts: [&[u8]; 1] = ["routed".as_bytes()];
    let memo = Digest::from_parts("vertex-route-memo-v1", &memo_parts);
    let route = RoutePlan {
        operator: operator_identity.account,
        fee_recipient: operator_identity.account,
        operator_fee: Amount::new(9)?,
        rebate_recipient: Some(integrator_identity.account),
        rebate_amount: Amount::new(3)?,
        liquidity_memo: memo,
        routing_epoch: 20,
    };
    let amount = Amount::new(1_000)?;
    proof {
        assert(memo_parts@.map_values(|p: &[u8]| p@) =~= seq!["routed".spec_bytes()]);
        assert(fixture.ids()[2] == operator_identity.account);
        assert(fixture.ids()[3] == integrator_identity.account);
        assert(fixture.ledger@.has_account(fixture.ids()[2]));
        assert(fixture.ledger@.has_account(fixture.ids()[3]));
        assert(route == demo_route(demo_account(33), 9, 3, "routed".spec_bytes(), 20));
        lemma_routed_route();
        lemma_fresh_round(fixture, amount, policy, route);
    }
    open_and_release(&mut fixture, "routed", amount, policy, route, Ghost(bal))
}

/// The first ticket of the batch scenario: 500 units under a 200 basis-point
/// ceiling applying from epoch 30, over a route with a 4-unit fee to the
/// operator and a 1-unit rebate.
pub open spec fn batch_first() -> SignedTicket {
    demo_ticket(
        0,
        Amount::of(500),
        demo_policy(200, 30),
        demo_route(demo_account(33), 4, 1, "batch-one".spec_bytes(), 30),
    )
}

/// The second ticket of the batch scenario: 600 units under the same policy,
/// over a route for epoch 31 with a 6-unit fee to the reserve and a 2-unit
/// rebate.
pub open spec fn batch_second() -> SignedTicket {
    demo_ticket(
        1,
        Amount::of(600),
        demo_policy(200, 30),
        demo_route(demo_account(55), 6, 2, "batch-two".spec_bytes(), 31),
    )
}

/// The history of the batch scenario: the setup, then both rounds.
pub open spec fn batch_history() -> Seq<LedgerOp> {
    with_round(
        with_round(demo_setup(), batch_first(), demo_release(0, batch_first())),
        batch_second(),
        demo_release(1, batch_second()),
    )
}

/// Whether the batch scenario's two tickets and four transactions are told
/// apart: each release's transaction differs from its ticket's, the second
/// ticket's identifier from the first's, and the second round's transactions
/// from the first round's.
pub open spec fn batch_distinct() -> bool {
    let s1 = batch_first();
    let r1 = demo_release(0, s1);
    let s2 = batch_second();
    let r2 = demo_release(1, s2);
    &&& release_tx(r1) != ticket_tx(s1)
    &&& s2.terms.ticket_id != s1.terms.ticket_id
    &&& ticket_tx(s2) != ticket_tx(s1)
    &&& ticket_tx(s2) != release_tx(r1)
    &&& release_tx(r2) != ticket_tx(s1)
    &&& release_tx(r2) != release_tx(r1)
    &&& release_tx(r2) != ticket_tx(s2)
}

/// Both routes of the batch scenario pass its policy.
proof fn lemma_batch_routes()
    ensures
        route_refusal(demo_route(demo_account(33), 4, 1, "batch-one".spec_bytes(), 30), demo_policy(200, 30), Amount::of(500)) is None,
        route_refusal(demo_route(demo_account(55), 6, 2, "batch-two".spec_bytes(), 31), demo_policy(200, 30), Amount::of(600)) is None,
        Amount::of(500).spec_units() == 500,
        Amount::of(600).spec_units() == 600,
        Amount::of(4).spec_units() == 4,
        Amount::of(1).spec_units() == 1,
        Amount::of(6).spec_units() == 6,
        Amount::of(2).spec_units() == 2,
{
    Amount::lemma_of(500);
    Amount::lemma_of(600);
    Amount::lemma_of(4);
    Amount::lemma_of(1);
    Amount::lemma_of(6);
    Amount::lemma_of(2);
    Bps::lemma_of(200);
}

/// After the batch's first round on a fresh ledger, its second round goes
/// through exactly when its ticket and transactions differ from the first
/// round's and its release's transaction from its ticket's.
proof fn lemma_batch_second_round(v0: LedgerView, v1: LedgerView)
    requires
        v0.tickets.len() == 0,
        v0.seen.len() == 0,
        v0.account(demo_account(11)).next_ticket_nonce == 0,
        v0.account(demo_account(22)).next_release_nonce == 0,
        round_done(
            v0,
            v1,
            Amount::of(500),
            demo_policy(200, 30),
            demo_route(demo_account(33), 4, 1, "batch-one".spec_bytes(), 30),
        ),
        v1.account(demo_account(11)).balance.spec_units() == 4500,
        v1.has_account(demo_account(33)),
        v1.has_account(demo_account(44)),
        v1.has_account(demo_account(55)),
    ensures
        round_ticket(v1, Amount::of(600), demo_policy(200, 30), demo_route(demo_account(55), 6, 2, "batch-two".spec_bytes(), 31))
            == batch_second(),
        round_release(v1, batch_second()) == demo_release(1, batch_second()),
        round_accepted(v1, Amount::of(600), demo_policy(200, 30), demo_route(demo_account(55), 6, 2, "batch-two".spec_bytes(), 31))
            <==> {
            let s1 = batch_first();
            let r1 = demo_release(0, s1);
            let s2 = batch_second();
            let r2 = demo_release(1, s2);
            &&& s2.terms.ticket_id != s1.terms.ticket_id
            &&& ticket_tx(s2) != ticket_tx(s1)
            &&& ticket_tx(s2) != release_tx(r1)
            &&& release_tx(r2) != ticket_tx(s1)
            &&& release_tx(r2) != release_tx(r1)
            &&& release_tx(r2) != ticket_tx(s2)
        },
{
    reveal(round_accepted);
    reveal(round_opens);
    reveal(round_settles);
    reveal(round_done);
    lemma_batch_routes();
    assert(v0.ticket_ids().len() == 0);
    let s2 = batch_second();
    assert(v1.has_ticket(s2.terms.ticket_id) <==> s2.terms.ticket_id == batch_first().terms.ticket_id);
    assert(v1.seen.contains(ticket_tx(s2)) <==> ticket_tx(s2) == ticket_tx(batch_first())
        || ticket_tx(s2) == release_tx(demo_release(0, batch_first())));
    let r2 = demo_release(1, s2);
    assert(v1.seen.contains(release_tx(r2)) <==> release_tx(r2) == ticket_tx(batch_first())
        || release_tx(r2) == release_tx(demo_release(0, batch_first())));
}

/// The balances of the five accounts after the batch's first round.
spec fn batch_after_first() -> Seq<nat> {
    after_ticket(
        demo_accounts(),
        seq![5000nat, 0nat, 0nat, 0nat, 0nat],
        demo_route(demo_account(33), 4, 1, "batch-one".spec_bytes(), 30),
        Amount::of(500),
    )
}

/// The balances of the five accounts after the batch's second round.
spec fn batch_after_second() -> Seq<nat> {
    after_ticket(
        demo_accounts(),
        batch_after_first(),
        demo_route(demo_account(55), 6, 2, "batch-two".spec_bytes(), 31),
        Amount::of(600),
    )
}

/// The balances after each round of the batch scenario.
proof fn lemma_batch_balances()
    requires
        demo_accounts_distinct(),
    ensures
        batch_after_first() == seq![4500nat, 495nat, 4nat, 1nat, 0nat],
        batch_after_second() == seq![3900nat, 1087nat, 4nat, 3nat, 6nat],
{
    lemma_batch_routes();
    let ids = demo_accounts();
    assert(ids[0] != ids[1] && ids[0] != ids[2] && ids[0] != ids[3] && ids[0] != ids[4]);
    assert(ids[1] != ids[2] && ids[1] != ids[3] && ids[1] != ids[4]);
    assert(ids[2] != ids[3] && ids[2] != ids[4] && ids[3] != ids[4]);
    assert(after_ticket(
        ids,
        seq![5000nat, 0nat, 0nat, 0nat, 0nat],
        demo_route(demo_account(33), 4, 1, "batch-one".spec_bytes(), 30),
        Amount::of(500),
    ) =~= seq![4500nat, 495nat, 4nat, 1nat, 0nat]);
    assert(after_ticket(
        ids,
        seq![4500nat, 495nat, 4nat, 1nat, 0nat],
        demo_route(demo_account(55), 6, 2, "batch-two".spec_bytes(), 31),
        Amount::of(600),
    ) =~= seq![3900nat, 1087nat, 4nat, 3nat, 6nat]);
}

/// The first round of the batch scenario, on the freshly funded ledger.
#[verifier::spinoff_prover]
#[verifier::rlimit(100)]
fn batch_round_one(
    fixture: &mut Fixture,
    policy: RoutePolicy,
    operator: AccountId,
    integrator: AccountId,
) -> (r: VertexResult<(TicketId, TxId, TxId)>)
    requires
        old(fixture).holds(seq![5000nat, 0nat, 0nat, 0nat, 0nat]),
        old(fixture).fresh(),
        old(fixture).traced(),
        policy == demo_policy(200, 30),
        operator == demo_account(33),
        integrator == demo_account(44),
    ensures
        r is Ok <==> release_tx(demo_release(0, batch_first())) != ticket_tx(batch_first()),
        r is Ok ==> final(fixture).traced() && final(fixture).history@ == with_round(
            old(fixture).history@,
            batch_first(),
            demo_release(0, batch_first()),
        ),
        r is Ok ==> final(fixture).holds(batch_after_first()) && round_done(
            old(fixture).ledger@,
            final(fixture).ledger@,
            Amount::of(500),
            demo_policy(200, 30),
            demo_route(demo_account(33), 4, 1, "batch-one".spec_bytes(), 30),
        ),
        r matches Ok(res) ==> res == (
            batch_first().terms.ticket_id,
            ticket_tx(batch_first()),
            release_tx(demo_release(0, batch_first())),
        ),
{
    let ghost bal = seq![5000nat, 0nat, 0nat, 0nat, 0nat];
    let memo_one: [&[u8]; 1] = ["batch-one".as_bytes()];
    let memo = Digest::from_parts("vertex-route-memo-v1", &memo_one);
    let route = RoutePlan {
        operator,
        fee_recipient: operator,
        operator_fee: Amount::new(4)?,
        rebate_recipient: Some(integrator),
        rebate_amount: Amount::new(1)?,
        liquidity_memo: memo,
        routing_epoch: 30,
    };
    let amount = Amount::new(500)?;
    let ghost ids = fixture.ids();
    proof {
        assert(memo_one@.map_values(|p: &[u8]| p@) =~= seq!["batch-one".spec_bytes()]);
        assert(route == demo_route(demo_account(33), 4, 1, "batch-one".spec_bytes(), 30));
        assert(ids == demo_accounts());
        assert(fixture.ledger@.has_account(ids[2]));
        assert(fixture.ledger@.has_account(ids[3]));
        lemma_batch_routes();
        lemma_fresh_round(*fixture, amount, policy, route);
    }
    let first = open_and_release_internal(fixture, amount, policy, route, Ghost(bal))?;
    Ok(first)
}

/// The second round of the batch scenario, after the first.
#[verifier::spinoff_prover]
#[verifier::rlimit(100)]
fn batch_round_two(
    fixture: &mut Fixture,
    policy: RoutePolicy,
    operator: AccountId,
    integrator: AccountId,
    reserve: AccountId,
    Ghost(v0): Ghost<LedgerView>,
) -> (r: VertexResult<()>)
    requires
        old(fixture).holds(batch_after_first()),
        old(fixture).traced(),
        v0.tickets.len() == 0,
        v0.seen.len() == 0,
        v0.account(demo_account(11)).next_ticket_nonce == 0,
        v0.account(demo_account(22)).next_release_nonce == 0,
        round_done(
            v0,
            old(fixture).ledger@,
            Amount::of(500),
            demo_policy(200, 30),
            demo_route(demo_account(33), 4, 1, "batch-one".spec_bytes(), 30),
        ),
        policy == demo_policy(200, 30),
        operator == demo_account(33),
        integrator == demo_account(44),
        reserve == demo_account(55),
    ensures
        r is Ok <==> {
            let s1 = batch_first();
            let r1 = demo_release(0, s1);
            let s2 = batch_second();
            let r2 = demo_release(1, s2);
            &&& s2.terms.ticket_id != s1.terms.ticket_id
            &&& ticket_tx(s2) != ticket_tx(s1)
            &&& ticket_tx(s2) != release_tx(r1)
            &&& release_tx(r2) != ticket_tx(s1)
            &&& release_tx(r2) != release_tx(r1)
            &&& release_tx(r2) != ticket_tx(s2)
        },
        r is Ok ==> final(fixture).holds(batch_after_second()),
        r is Ok ==> final(fixture).traced() && final(fixture).history@ == with_round(
            old(fixture).history@,
            batch_second(),
            demo_release(1, batch_second()),
        ),
{
    let ghost mid = batch_after_first();
    let memo_two: [&[u8]; 1] = ["batch-two".as_bytes()];
    let memo = Digest::from_parts("vertex-route-memo-v1", &memo_two);
    let route = RoutePlan {
        operator,
        fee_recipient: reserve,
        operator_fee: Amount::new(6)?,
        rebate_recipient: Some(integrator),
        rebate_amount: Amount::new(2)?,
        liquidity_memo: memo,
        routing_epoch: 31,
    };
    let amount = Amount::new(600)?;
    let ghost ids = fixture.ids();
    let ghost v1 = fixture.ledger@;
    proof {
        assert(memo_two@.map_values(|p: &[u8]| p@) =~= seq!["batch-two".spec_bytes()]);
        assert(route == demo_route(demo_account(55), 6, 2, "batch-two".spec_bytes(), 31));
        assert(ids == demo_accounts());
        assert(demo_accounts_distinct());
        lemma_batch_balances();
        assert(v1.has_account(ids[2]));
        assert(v1.has_account(ids[3]));
        assert(v1.has_account(ids[4]));
        assert(v1.account(ids[0]).balance.spec_units() == 4500);
        lemma_batch_second_round(v0, v1);
    }
    open_and_release_internal(fixture, amount, policy, route, Ghost(mid))?;
    Ok(())
}

/// Two tickets, of 500 and 600 units, settled one after the other; the second
/// pays its fee to the reserve account. The report names the first ticket.
#[verifier::spinoff_prover]
#[verifier::rlimit(100)]
pub fn batch() -> (r: VertexResult<ScenarioReport>)
    ensures
        r is Ok <==> demo_accounts_distinct() && batch_distinct(),
        r matches Ok(rep) ==> rep.scenario == "batch" && rep.network_id == 4204
            && rep.asset == demo_asset()
            && rep.ticket_id == Some(batch_first().terms.ticket_id)
            && rep.open_tx == Some(ticket_tx(batch_first()))
            && rep.release_tx == Some(release_tx(demo_release(0, batch_first())))
            && rep.state_digest@ == state_digest_bytes(ledger_after(4204, demo_asset(), batch_history()))
            && rep.conservation_ok && rep.total_supply.spec_units() == 5000
            && rep.balances.payer.spec_units() == 3900 && rep.balances.beneficiary.spec_units() == 1087
            && rep.balances.operator.spec_units() == 4 && rep.balances.integrator.spec_units() == 3
            && rep.balances.reserve.spec_units() == 6,
{
    let mut fixture = Fixture::new()?;
    let policy = fixture.route_policy(200, 30)?;
    let operator_identity = fixture.operator.public_identity();
    let integrator_identity = fixture.integrator.public_identity();
    let reserve_identity = fixture.reserve.public_identity();
    let ghost v0 = fixture.ledger@;
    proof {
        lemma_identity_account(fixture.operator, operator_identity);
        lemma_identity_account(fixture.integrator, integrator_identity);
        lemma_identity_account(fixture.reserve, reserve_identity);
        assert(fixture.ids() == demo_accounts());
        assert(v0.account(fixture.ids()[0]).next_ticket_nonce == 0);
        assert(v0.account(fixture.ids()[1]).next_release_nonce == 0);
    }
    let first = batch_round_one(
        &mut fixture,
        policy,
        operator_identity.account,
        integrator_identity.account,
    )?;
    batch_round_two(
        &mut fixture,
        policy,
        operator_identity.account,
        integrator_identity.account,
        reserve_identity.account,
        Ghost(v0),
    )?;
    proof {
        lemma_batch_balances();
        lemma_traced_digest(fixture);
    }
    fixture.report("batch", Some(first.0), Some(first.1), Some(first.2))
}

/// The funded ledger before any ticket.
#[verifier::spinoff_prover]
#[verifier::rlimit(100)]
pub fn snapshot() -> (r: VertexResult<ScenarioReport>)
    ensures
        r is Ok <==> demo_accounts_distinct(),
        r matches Ok(rep) ==> rep.scenario == "snapshot" && rep.network_id == 4204
            && rep.asset == demo_asset()
            && rep.state_digest@ == state_digest_bytes(ledger_after(4204, demo_asset(), demo_setup()))
            && rep.ticket_id is None && rep.open_tx is None && rep.release_tx is None
            && rep.conservation_ok && rep.total_supply.spec_units() == 5000
            && rep.balances.payer.spec_units() == 5000 && rep.balances.beneficiary.spec_units() == 0
            && rep.balances.operator.spec_units() == 0 && rep.balances.integrator.spec_units() == 0
            && rep.balances.reserve.spec_units() == 0,
{
    let fixture = Fixture::new()?;
    proof {
        lemma_traced_digest(fixture);
    }
    fixture.report("snapshot", None, None, None)
}

/// The account identifier of the key pair whose seed repeats `seed`.
#[allow(dead_code)]
fn account_from_seed(seed: u8) -> (r: AccountId)
    ensures
        r@ == account_digest(ed25519_public_key(Seq::new(32, |i: int| seed))),
{
    let key_pair = KeyPair::from_seed([seed; 32]);
    proof {
        assert(key_pair.seed() =~= Seq::new(32, |i: int| seed));
    }
    key_pair.public_identity().account
}

} // verus!
