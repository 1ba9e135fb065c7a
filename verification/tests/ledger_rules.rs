use ed25519_dalek::VerifyingKey;
use vertex_dtl::{
    canonical_bytes, signing_digest, verify_signature, AccountId, Amount, AssetId, Bps, Digest,
    KeyPair, PublicIdentity, ReleaseRequest, RoutePlan, RoutePolicy, SignatureBytes, SignedRelease,
    SignedTicket, TicketId, TicketTerms, TxId, VertexError, VertexLedger, MAX_LEDGER_UNITS,
};

use vertex_dtl::{batch, direct, snapshot};

const NETWORK: u32 = 7;

fn amount(units: u128) -> Amount {
    Amount::new(units).expect("amount in range")
}

fn json<T: vertex_dtl::CanonicalJson>(value: &T) -> String {
    String::from_utf8(canonical_bytes(value).expect("encodes")).expect("utf-8")
}

struct Setup {
    ledger: VertexLedger,
    payer: KeyPair,
    beneficiary: KeyPair,
    operator: KeyPair,
}

fn setup(funds: u128) -> Setup {
    let payer = KeyPair::from_seed([1u8; 32]);
    let beneficiary = KeyPair::from_seed([2u8; 32]);
    let operator = KeyPair::from_seed([3u8; 32]);
    let mut ledger = VertexLedger::new(NETWORK, AssetId::native());
    ledger.register_account(payer.public_identity()).unwrap();
    ledger.register_account(beneficiary.public_identity()).unwrap();
    ledger.register_account(operator.public_identity()).unwrap();
    ledger
        .credit_genesis(payer.public_identity().account, amount(funds))
        .unwrap();
    Setup { ledger, payer, beneficiary, operator }
}

fn policy(bps: u16, epoch: u64) -> RoutePolicy {
    RoutePolicy::new(Digest::zero(), Bps::new(bps).unwrap(), epoch)
}

fn routed_plan(s: &Setup, fee: u128, rebate: u128, epoch: u64) -> RoutePlan {
    RoutePlan {
        operator: s.operator.public_identity().account,
        fee_recipient: s.operator.public_identity().account,
        operator_fee: amount(fee),
        rebate_recipient: None,
        rebate_amount: amount(rebate),
        liquidity_memo: Digest::zero(),
        routing_epoch: epoch,
    }
}

fn terms(s: &Setup, units: u128, nonce: u64, pol: RoutePolicy) -> TicketTerms {
    TicketTerms::new(
        NETWORK,
        s.payer.public_identity().account,
        s.beneficiary.public_identity().account,
        AssetId::native(),
        amount(units),
        nonce,
        100,
        pol,
        Digest::zero(),
    )
    .unwrap()
}

fn open(s: &mut Setup, units: u128, plan: RoutePlan) -> (SignedTicket, TxId) {
    let nonce = s.ledger.ticket_nonce(s.payer.public_identity().account).unwrap();
    let t = terms(s, units, nonce, policy(10_000, 0));
    let signed = SignedTicket::sign(t, plan, &s.payer).unwrap();
    let tx = s.ledger.open_ticket(&signed).unwrap();
    (signed, tx)
}

fn release_for(s: &Setup, ticket_id: TicketId, plan: RoutePlan) -> SignedRelease {
    let beneficiary = s.beneficiary.public_identity().account;
    let request = ReleaseRequest::new(
        NETWORK,
        ticket_id,
        beneficiary,
        s.ledger.release_nonce(beneficiary).unwrap(),
        plan.route_digest().unwrap(),
    );
    SignedRelease::sign(request, &s.beneficiary).unwrap()
}

#[test]
fn amounts_respect_the_ledger_maximum() {
    assert_eq!(Amount::new(MAX_LEDGER_UNITS).unwrap().units(), MAX_LEDGER_UNITS);
    assert_eq!(
        Amount::new(MAX_LEDGER_UNITS + 1),
        Err(VertexError::AmountOutOfRange { value: MAX_LEDGER_UNITS + 1, max: MAX_LEDGER_UNITS })
    );
    assert!(Amount::zero().is_zero());
    assert_eq!(amount(7).checked_add(amount(5)).unwrap().units(), 12);
    assert_eq!(
        amount(MAX_LEDGER_UNITS).checked_add(amount(1)),
        Err(VertexError::AmountOutOfRange { value: MAX_LEDGER_UNITS + 1, max: MAX_LEDGER_UNITS })
    );
    assert_eq!(amount(3).checked_sub(amount(5)), Err(VertexError::AmountUnderflow));
    assert_eq!(amount(5).checked_sub(amount(3)).unwrap().units(), 2);
    assert_eq!(amount(1_000).checked_mul_bps(Bps::new(150).unwrap()).unwrap().units(), 15);
    assert_eq!(amount(999).checked_mul_bps(Bps::new(1).unwrap()).unwrap().units(), 0);
}

#[test]
fn basis_points_cannot_exceed_one_hundred_percent() {
    assert_eq!(Bps::new(10_000).unwrap().value(), 10_000);
    assert_eq!(Bps::new(10_001), Err(VertexError::Policy("basis points exceed 100%".to_owned())));
}

#[test]
fn route_validation_applies_amount_and_ceiling() {
    let s = setup(1_000);
    let plan = routed_plan(&s, 60, 50, 5);
    assert_eq!(plan.charges().unwrap().units(), 110);
    assert_eq!(
        plan.validate(policy(10_000, 0), amount(100)),
        Err(VertexError::Policy("route charges exceed ticket amount".to_owned()))
    );
    assert_eq!(
        plan.validate(policy(100, 5), amount(1_000)),
        Err(VertexError::Policy("route charges exceed policy ceiling".to_owned()))
    );
    assert_eq!(plan.validate(policy(100, 6), amount(1_000)), Ok(()));
    assert_eq!(plan.validate(policy(1_100, 5), amount(1_000)), Ok(()));
}

#[test]
fn direct_route_charges_nothing() {
    let operator = AccountId::from_bytes([9u8; 32]);
    let plan = RoutePlan::direct(operator, 4);
    assert_eq!(plan.charges().unwrap().units(), 0);
    assert_eq!(plan.fee_recipient, operator);
    assert!(plan.rebate_recipient.is_none());
    assert_ne!(plan.liquidity_memo, RoutePlan::direct(operator, 5).liquidity_memo);
}

#[test]
fn canonical_json_is_compact_and_ordered() {
    assert_eq!(json(&amount(750)), "750");
    assert_eq!(json(&Digest::zero()), format!("\"{}\"", "0".repeat(64)));
    let plan = RoutePlan {
        operator: AccountId::from_bytes([0xab; 32]),
        fee_recipient: AccountId::from_bytes([0x01; 32]),
        operator_fee: amount(9),
        rebate_recipient: None,
        rebate_amount: amount(3),
        liquidity_memo: Digest::zero(),
        routing_epoch: 20,
    };
    let expected = format!(
        "{{\"operator\":\"{}\",\"fee_recipient\":\"{}\",\"operator_fee\":9,\"rebate_recipient\":null,\"rebate_amount\":3,\"liquidity_memo\":\"{}\",\"routing_epoch\":20}}",
        "ab".repeat(32),
        "01".repeat(32),
        "0".repeat(64)
    );
    assert_eq!(json(&plan), expected);
    let identity = PublicIdentity { account: AccountId::from_bytes([0u8; 32]), public_key: [1u8; 32] };
    let ones = vec!["1"; 32].join(",");
    assert_eq!(json(&identity), format!("{{\"account\":\"{}\",\"public_key\":[{}]}}", "0".repeat(64), ones));
}

#[test]
fn digests_hash_the_framed_parts() {
    let d = Digest::from_parts("dom", &[&b"ab"[..], &b"c"[..]]);
    let mut framed = Vec::new();
    framed.extend_from_slice(b"dom");
    framed.push(0);
    framed.extend_from_slice(&2u64.to_be_bytes());
    framed.extend_from_slice(b"ab");
    framed.extend_from_slice(&1u64.to_be_bytes());
    framed.extend_from_slice(b"c");
    assert_eq!(d.bytes(), *blake3::hash(&framed).as_bytes());
    assert_eq!(json(&d), format!("\"{}\"", hex::encode(d.bytes())));
    assert_ne!(d, Digest::from_parts("dom", &[&b"a"[..], &b"bc"[..]]));
    let key = [5u8; 32];
    assert_ne!(AccountId::from_public_key(key), AccountId::from_bytes(key));
    assert_eq!(
        AccountId::from_public_key(key),
        AccountId::from_bytes(Digest::from_parts("vertex-account-v1", &[&key[..]]).bytes())
    );
}

#[test]
fn ticket_ids_depend_on_every_part() {
    let a = AccountId::from_bytes([1u8; 32]);
    let b = AccountId::from_bytes([2u8; 32]);
    let base = TicketId::derive(1, a, b, 0, Digest::zero());
    assert_eq!(base, TicketId::derive(1, a, b, 0, Digest::zero()));
    assert_ne!(base, TicketId::derive(2, a, b, 0, Digest::zero()));
    assert_ne!(base, TicketId::derive(1, b, a, 0, Digest::zero()));
    assert_ne!(base, TicketId::derive(1, a, b, 1, Digest::zero()));
}

#[test]
fn signatures_verify_only_for_the_signed_payload() {
    let kp = KeyPair::from_seed([8u8; 32]);
    let identity = kp.public_identity();
    assert_ne!(identity.public_key, [8u8; 32]);
    assert_eq!(identity.public_key, KeyPair::from_seed([8u8; 32]).public_identity().public_key);
    assert_ne!(identity.public_key, KeyPair::from_seed([9u8; 32]).public_identity().public_key);
    assert_eq!(identity.verify_consistency(), Ok(()));
    let payload = amount(42);
    let sig = kp.sign("domain-a", &payload).unwrap();
    assert_eq!(verify_signature(identity, sig, "domain-a", &payload), Ok(()));
    assert_eq!(
        verify_signature(identity, sig, "domain-b", &payload),
        Err(VertexError::InvalidSignature)
    );
    assert_eq!(
        verify_signature(identity, sig, "domain-a", &amount(43)),
        Err(VertexError::InvalidSignature)
    );
    let mut bytes = sig.bytes();
    bytes[0] ^= 1;
    assert_eq!(
        verify_signature(identity, SignatureBytes::new(bytes), "domain-a", &payload),
        Err(VertexError::InvalidSignature)
    );
    let forged = PublicIdentity { account: AccountId::from_bytes([0u8; 32]), ..identity };
    assert_eq!(
        verify_signature(forged, sig, "domain-a", &payload),
        Err(VertexError::IdentityMismatch(forged.account))
    );
    assert_ne!(signing_digest("domain-a", &payload), signing_digest("domain-b", &payload));
}

#[test]
fn malformed_public_keys_are_refused() {
    let bad = (0u8..=255)
        .map(|b| {
            let mut k = [0xffu8; 32];
            k[0] = b;
            k
        })
        .find(|k| VerifyingKey::from_bytes(k).is_err())
        .expect("some 32-byte string does not decode");
    let identity = PublicIdentity { account: AccountId::from_public_key(bad), public_key: bad };
    assert_eq!(
        verify_signature(identity, SignatureBytes::new([0u8; 64]), "d", &amount(1)),
        Err(VertexError::InvalidPublicKey)
    );
}

#[test]
fn registration_refuses_duplicates_and_inconsistent_identities() {
    let mut s = setup(10);
    let before = s.ledger.state_digest().unwrap();
    let identity = s.payer.public_identity();
    assert_eq!(
        s.ledger.register_account(identity),
        Err(VertexError::AccountAlreadyExists(identity.account))
    );
    let forged = PublicIdentity { account: AccountId::from_bytes([4u8; 32]), public_key: identity.public_key };
    assert_eq!(s.ledger.register_account(forged), Err(VertexError::IdentityMismatch(forged.account)));
    assert_eq!(s.ledger.state_digest().unwrap(), before);
    let stranger = AccountId::from_bytes([4u8; 32]);
    assert_eq!(s.ledger.balance_of(stranger), Err(VertexError::AccountNotFound(stranger)));
}

#[test]
fn genesis_credits_grow_balance_and_supply() {
    let mut s = setup(100);
    let payer = s.payer.public_identity().account;
    assert_eq!(s.ledger.balance_of(payer).unwrap().units(), 100);
    let tx = s.ledger.credit_genesis(payer, amount(50)).unwrap();
    assert_eq!(s.ledger.balance_of(payer).unwrap().units(), 150);
    assert_eq!(s.ledger.total_supply().units(), 150);
    assert_ne!(tx, s.ledger.credit_genesis(payer, amount(50)).unwrap());
    let stranger = AccountId::from_bytes([4u8; 32]);
    assert_eq!(s.ledger.credit_genesis(stranger, amount(1)), Err(VertexError::AccountNotFound(stranger)));
    let before = s.ledger.state_digest().unwrap();
    assert_eq!(
        s.ledger.credit_genesis(payer, amount(MAX_LEDGER_UNITS)),
        Err(VertexError::AmountOutOfRange { value: MAX_LEDGER_UNITS + 200, max: MAX_LEDGER_UNITS })
    );
    assert_eq!(s.ledger.state_digest().unwrap(), before);
    assert_eq!(s.ledger.verify_conservation(), Ok(()));
}

#[test]
fn opening_moves_the_amount_into_the_ticket() {
    let mut s = setup(1_000);
    let payer = s.payer.public_identity().account;
    let plan = routed_plan(&s, 10, 5, 0);
    let (signed, _tx) = open(&mut s, 400, plan);
    assert_eq!(s.ledger.balance_of(payer).unwrap().units(), 600);
    assert_eq!(s.ledger.ticket_nonce(payer).unwrap(), 1);
    assert_eq!(s.ledger.total_supply().units(), 1_000);
    let ticket = s.ledger.ticket(signed.terms.ticket_id).unwrap();
    assert!(!ticket.settled);
    assert_eq!(ticket.terms, signed.terms);
    assert_eq!(s.ledger.verify_conservation(), Ok(()));
    let before = s.ledger.state_digest().unwrap();
    assert_eq!(
        s.ledger.open_ticket(&signed),
        Err(VertexError::TicketAlreadyExists(signed.terms.ticket_id))
    );
    assert_eq!(s.ledger.state_digest().unwrap(), before);
}

#[test]
fn opening_checks_network_nonce_and_funds() {
    let mut s = setup(100);
    let payer = s.payer.public_identity().account;
    let plan = routed_plan(&s, 0, 0, 0);
    let mut wrong_network = terms(&s, 10, 0, policy(10_000, 0));
    wrong_network.network_id = NETWORK + 1;
    let signed = SignedTicket::sign(wrong_network, plan, &s.payer).unwrap();
    assert_eq!(s.ledger.open_ticket(&signed), Err(VertexError::Policy("wrong network".to_owned())));

    let stale = SignedTicket::sign(terms(&s, 10, 3, policy(10_000, 0)), plan, &s.payer).unwrap();
    assert_eq!(
        s.ledger.open_ticket(&stale),
        Err(VertexError::NonceMismatch { account: payer, expected: 0, received: 3 })
    );

    let big = SignedTicket::sign(terms(&s, 500, 0, policy(10_000, 0)), plan, &s.payer).unwrap();
    assert_eq!(
        s.ledger.open_ticket(&big),
        Err(VertexError::InsufficientFunds { account: payer, available: amount(100), required: amount(500) })
    );

    let mut tampered = SignedTicket::sign(terms(&s, 10, 0, policy(10_000, 0)), plan, &s.payer).unwrap();
    tampered.terms.amount = amount(11);
    assert_eq!(s.ledger.open_ticket(&tampered), Err(VertexError::InvalidSignature));

    let wrong_signer = SignedTicket::sign(terms(&s, 10, 0, policy(10_000, 0)), plan, &s.beneficiary);
    assert_eq!(
        wrong_signer.map(|_| ()),
        Err(VertexError::UnauthorizedTicketSigner {
            expected: payer,
            received: s.beneficiary.public_identity().account
        })
    );
    assert_eq!(
        TicketTerms::new(NETWORK, payer, payer, AssetId::native(), Amount::zero(), 0, 0, policy(0, 0), Digest::zero()),
        Err(VertexError::ZeroAmount)
    );
    assert_eq!(s.ledger.balance_of(payer).unwrap().units(), 100);
}

#[test]
fn settlement_pays_out_the_whole_ticket_once() {
    let mut s = setup(1_000);
    let payer = s.payer.public_identity().account;
    let beneficiary = s.beneficiary.public_identity().account;
    let operator = s.operator.public_identity().account;
    let plan = routed_plan(&s, 10, 5, 0);
    let (signed, _) = open(&mut s, 400, plan);
    let release = release_for(&s, signed.terms.ticket_id, plan);
    assert_eq!(release.verify(), Ok(()));
    let snapshot = s.ledger.clone();
    let tx = s.ledger.settle_ticket(&release).unwrap();
    assert_ne!(snapshot, s.ledger);
    assert_eq!(tx, release.tx_id().unwrap());
    // The rebate goes to the beneficiary when the route names no recipient.
    assert_eq!(s.ledger.balance_of(beneficiary).unwrap().units(), 390);
    assert_eq!(s.ledger.balance_of(operator).unwrap().units(), 10);
    assert_eq!(s.ledger.balance_of(payer).unwrap().units(), 600);
    assert_eq!(s.ledger.release_nonce(beneficiary).unwrap(), 1);
    assert!(s.ledger.ticket(signed.terms.ticket_id).unwrap().settled);
    assert_eq!(s.ledger.total_supply().units(), 1_000);
    assert_eq!(s.ledger.verify_conservation(), Ok(()));
    assert_eq!(
        s.ledger.settle_ticket(&release),
        Err(VertexError::TicketSettled(signed.terms.ticket_id))
    );
}

#[test]
fn settlement_checks_route_signer_and_nonce() {
    let mut s = setup(1_000);
    let beneficiary = s.beneficiary.public_identity().account;
    let plan = routed_plan(&s, 10, 5, 0);
    let (signed, _) = open(&mut s, 400, plan);
    let ticket_id = signed.terms.ticket_id;

    let wrong_digest = ReleaseRequest::new(NETWORK, ticket_id, beneficiary, 0, Digest::zero());
    let release = SignedRelease::sign(wrong_digest, &s.beneficiary).unwrap();
    assert_eq!(
        s.ledger.settle_ticket(&release),
        Err(VertexError::RouteDigestMismatch {
            ticket_id,
            expected: plan.route_digest().unwrap(),
            received: Digest::zero()
        })
    );

    let stale = ReleaseRequest::new(NETWORK, ticket_id, beneficiary, 9, plan.route_digest().unwrap());
    let release = SignedRelease::sign(stale, &s.beneficiary).unwrap();
    assert_eq!(
        s.ledger.settle_ticket(&release),
        Err(VertexError::NonceMismatch { account: beneficiary, expected: 0, received: 9 })
    );

    let payer = s.payer.public_identity().account;
    let by_payer = ReleaseRequest::new(NETWORK, ticket_id, payer, 0, plan.route_digest().unwrap());
    let release = SignedRelease::sign(by_payer, &s.payer).unwrap();
    assert_eq!(
        s.ledger.settle_ticket(&release),
        Err(VertexError::UnauthorizedReleaseSigner { expected: beneficiary, received: payer })
    );

    let missing = TicketId::derive(0, payer, payer, 0, Digest::zero());
    let release = release_for(&s, missing, plan);
    assert_eq!(s.ledger.settle_ticket(&release), Err(VertexError::TicketNotFound(missing)));
    assert!(!s.ledger.ticket(ticket_id).unwrap().settled);
}

#[test]
fn state_digest_follows_the_state() {
    let mut s = setup(1_000);
    let first = s.ledger.state_digest().unwrap();
    assert_eq!(first, s.ledger.state_digest().unwrap());
    let plan = routed_plan(&s, 0, 0, 0);
    open(&mut s, 1, plan);
    assert_ne!(first, s.ledger.state_digest().unwrap());
    assert_eq!(s.ledger.network_id(), NETWORK);
    assert_eq!(s.ledger.asset(), AssetId::native());
}

#[test]
fn scenario_reports_name_the_native_asset_and_distinct_transactions() {
    let d = direct().expect("direct scenario runs");
    assert_eq!(d.asset, AssetId::native());
    assert_ne!(d.open_tx, d.release_tx);
    let b = batch().expect("batch scenario runs");
    assert_eq!(b.asset, AssetId::native());
    assert_ne!(b.open_tx, b.release_tx);
    assert_ne!(b.ticket_id, d.ticket_id);
    let s = snapshot().expect("snapshot scenario runs");
    assert_eq!(s.asset, AssetId::native());
}

#[test]
fn nonces_supply_and_tickets_follow_the_history() {
    let mut s = setup(700);
    let payer = s.payer.public_identity().account;
    let beneficiary = s.beneficiary.public_identity().account;
    s.ledger.credit_genesis(beneficiary, amount(300)).unwrap();
    assert_eq!(s.ledger.total_supply().units(), 1_000);
    let plan = routed_plan(&s, 0, 0, 0);
    let (first, _) = open(&mut s, 100, plan);
    let (second, _) = open(&mut s, 200, plan);
    assert_eq!(s.ledger.ticket_nonce(payer), Ok(2));
    assert_eq!(s.ledger.release_nonce(beneficiary), Ok(0));
    let release = release_for(&s, first.terms.ticket_id, plan);
    s.ledger.settle_ticket(&release).unwrap();
    assert_eq!(s.ledger.release_nonce(beneficiary), Ok(1));
    assert_eq!(s.ledger.ticket_nonce(beneficiary), Ok(0));
    let settled = s.ledger.ticket(first.terms.ticket_id).unwrap();
    assert!(settled.settled);
    assert_eq!(settled.terms, first.terms);
    let open_one = s.ledger.ticket(second.terms.ticket_id).unwrap();
    assert!(!open_one.settled);
    assert_eq!(open_one.route_plan, plan);
    assert_eq!(s.ledger.total_supply().units(), 1_000);
    let stranger = AccountId::from_public_key([9u8; 32]);
    assert_eq!(s.ledger.ticket_nonce(stranger), Err(VertexError::AccountNotFound(stranger)));
}

#[test]
fn authorization_views_copy_every_field() {
    let s = setup(10);
    let a = terms(&s, 5, 0, policy(100, 0));
    let b = terms(&s, 6, 0, policy(100, 0));
    assert_eq!(a.authorization_view(), a.authorization_view());
    assert_ne!(a.authorization_view(), b.authorization_view());
    let request = ReleaseRequest::new(NETWORK, a.ticket_id, a.beneficiary, 0, Digest::zero());
    let other = ReleaseRequest::new(NETWORK, a.ticket_id, a.beneficiary, 1, Digest::zero());
    assert_eq!(request.authorization_view(), request.authorization_view());
    assert_ne!(request.authorization_view(), other.authorization_view());
}
