use vstd::prelude::*;
use vstd::string::StringSliceAdditionalSpecFns;

use crate::amount::Amount;
use crate::codec::{
    append_text, lemma_cancel_suffix, lemma_decimal_injective, lemma_middle_equal, lemma_split_equal,
    text, CanonicalJson,
};
use crate::crypto::{
    ed25519_accepts, ed25519_key_decodes, ed25519_public_key, ed25519_signature,
    identity_consistent, identity_of, same_account, signature_refusal, signing_digest_bytes, verify_signature,
    KeyPair, PublicIdentity, SignatureBytes,
};
use crate::error::{VertexError, VertexResult};
use crate::ids::{
    account_digest, digest_of_one, lemma_account_json_injective, lemma_asset_id_json_injective,
    lemma_digest_json_injective, lemma_ticket_id_json_injective, ticket_digest, AccountId, AssetId,
    Digest, TicketId, TxId,
};
use crate::route::{RoutePlan, RoutePolicy};

verus! {

broadcast use crate::ids::group_id_views;

/// The signing domain of ticket authorizations.
pub const TICKET_DOMAIN: &'static str = "vertex-ticket-open-v3";

/// What a payer commits to when opening a ticket.
#[derive(Copy, Clone, Debug, PartialEq, Eq)]
pub struct TicketTerms {
    pub network_id: u32,
    pub ticket_id: TicketId,
    pub payer: AccountId,
    pub beneficiary: AccountId,
    pub asset: AssetId,
    pub amount: Amount,
    pub payer_nonce: u64,
    pub expires_at_epoch: u64,
    pub route_policy: RoutePolicy,
    pub salt: Digest,
}

/// The exact view of the terms that the payer signs.
#[derive(Copy, Clone, Debug, PartialEq, Eq)]
pub struct TicketAuthorizationView {
    network_id: u32,
    ticket_id: TicketId,
    payer: AccountId,
    beneficiary: AccountId,
    asset: AssetId,
    amount: Amount,
    payer_nonce: u64,
    expires_at_epoch: u64,
    route_policy: RoutePolicy,
    salt: Digest,
}

/// Ticket terms and route plan, with the payer's identity and signature.
#[derive(Copy, Clone, Debug, PartialEq, Eq)]
pub struct SignedTicket {
    pub payer: PublicIdentity,
    pub terms: TicketTerms,
    pub route_plan: RoutePlan,
    pub signature: SignatureBytes,
}

impl TicketTerms {
    /// Terms for a non-zero amount; the ticket identifier is derived from the
    /// network, both parties, the payer's nonce and the salt.
    pub fn new(
        network_id: u32,
        payer: AccountId,
        beneficiary: AccountId,
        asset: AssetId,
        amount: Amount,
        payer_nonce: u64,
        expires_at_epoch: u64,
        route_policy: RoutePolicy,
        salt: Digest,
    ) -> (r: VertexResult<TicketTerms>)
        ensures
            amount.spec_units() == 0 ==> r == Err::<TicketTerms, VertexError>(
                VertexError::ZeroAmount,
            ),
            amount.spec_units() != 0 ==> (r matches Ok(t) && t.network_id == network_id && t.payer
                == payer && t.beneficiary == beneficiary && t.asset == asset && t.amount == amount
                && t.payer_nonce == payer_nonce && t.expires_at_epoch == expires_at_epoch
                && t.route_policy == route_policy && t.salt == salt && t.ticket_id@
                == ticket_digest(network_id, payer@, beneficiary@, payer_nonce, salt@)),
    {
        if amount.is_zero() {
            return Err(VertexError::ZeroAmount);
        }
        let ticket_id = TicketId::derive(network_id, payer, beneficiary, payer_nonce, salt);
        Ok(TicketTerms {
            network_id,
            ticket_id,
            payer,
            beneficiary,
            asset,
            amount,
            payer_nonce,
            expires_at_epoch,
            route_policy,
            salt,
        })
    }

    /// The view of the terms that is signed: it copies every term, and it
    /// encodes exactly as the terms do.
    pub fn authorization_view(self) -> (r: TicketAuthorizationView)
        ensures
            r.terms() == self,
            r.json() == self.json(),
    {
        TicketAuthorizationView {
            network_id: self.network_id,
            ticket_id: self.ticket_id,
            payer: self.payer,
            beneficiary: self.beneficiary,
            asset: self.asset,
            amount: self.amount,
            payer_nonce: self.payer_nonce,
            expires_at_epoch: self.expires_at_epoch,
            route_policy: self.route_policy,
            salt: self.salt,
        }
    }
}

impl TicketAuthorizationView {
    /// The terms that the view holds.
    pub closed spec fn terms(self) -> TicketTerms {
        TicketTerms {
            network_id: self.network_id,
            ticket_id: self.ticket_id,
            payer: self.payer,
            beneficiary: self.beneficiary,
            asset: self.asset,
            amount: self.amount,
            payer_nonce: self.payer_nonce,
            expires_at_epoch: self.expires_at_epoch,
            route_policy: self.route_policy,
            salt: self.salt,
        }
    }

    /// Two views are equal exactly when the terms they hold are.
    pub proof fn lemma_terms_injective(a: TicketAuthorizationView, b: TicketAuthorizationView)
        ensures
            (a.terms() == b.terms()) == (a == b),
    {
    }
}

/// Why a signed ticket's authorization is refused, if it is: the signer must
/// be the payer, and the signature must verify over the terms.
pub open spec fn ticket_signature_refusal(s: SignedTicket) -> Option<VertexError> {
    if s.payer.account != s.terms.payer {
        Some(VertexError::UnauthorizedTicketSigner { expected: s.terms.payer, received: s.payer.account })
    } else {
        signature_refusal(s.payer, s.signature, TICKET_DOMAIN.spec_bytes(), s.terms.json())
    }
}

/// The bytes of the transaction identifier of a signed ticket.
pub open spec fn ticket_tx_bytes(s: SignedTicket) -> Seq<u8> {
    digest_of_one("vertex-signed-ticket-v3".spec_bytes(), s.json())
}

/// The ticket that the key pair with secret `seed` signs for `terms` and `route_plan`.
pub open spec fn signed_ticket_of(terms: TicketTerms, route_plan: RoutePlan, seed: Seq<u8>) -> SignedTicket {
    SignedTicket {
        payer: identity_of(seed),
        terms,
        route_plan,
        signature: SignatureBytes::from_view(
            ed25519_signature(seed, signing_digest_bytes(TICKET_DOMAIN.spec_bytes(), terms.json())),
        ),
    }
}

/// The transaction identifier of a signed ticket.
#[verifier::opaque]
pub open spec fn ticket_tx(s: SignedTicket) -> TxId {
    TxId::from_view(ticket_tx_bytes(s))
}

impl SignedTicket {
    /// Signs the terms with the payer's key; refuses a key that is not the payer's.
    pub fn sign(terms: TicketTerms, route_plan: RoutePlan, key_pair: &KeyPair) -> (r: VertexResult<
        SignedTicket,
    >)
        ensures
            account_digest(ed25519_public_key(key_pair.seed())) != terms.payer@ ==> (r matches Err(
                VertexError::UnauthorizedTicketSigner { expected, received },
            ) && expected == terms.payer && received@ == account_digest(
                ed25519_public_key(key_pair.seed()),
            )),
            account_digest(ed25519_public_key(key_pair.seed())) == terms.payer@ ==> r
                == Ok::<SignedTicket, VertexError>(signed_ticket_of(terms, route_plan, key_pair.seed())),
            r matches Ok(s) ==> ticket_signature_refusal(s) is None,
    {
        let payer = key_pair.public_identity();
        if !same_account(&payer.account, &terms.payer) {
            return Err(
                VertexError::UnauthorizedTicketSigner { expected: terms.payer, received: payer.account },
            );
        }
        let signature = key_pair.sign(TICKET_DOMAIN, &terms.authorization_view())?;
        proof {
            broadcast use {crate::crypto::lemma_signature_view, crate::crypto::lemma_signature_from_view};
            assert(signature == signed_ticket_of(terms, route_plan, key_pair.seed()).signature);
        }
        Ok(SignedTicket { payer, terms, route_plan, signature })
    }

    /// Checks that the payer signed these terms.
    pub fn verify(&self) -> (r: VertexResult<()>)
        ensures
            ticket_signature_refusal(*self) is None ==> r == Ok::<(), VertexError>(()),
            ticket_signature_refusal(*self) matches Some(e) ==> r == Err::<(), VertexError>(e),
    {
        if !same_account(&self.payer.account, &self.terms.payer) {
            return Err(
                VertexError::UnauthorizedTicketSigner {
                    expected: self.terms.payer,
                    received: self.payer.account,
                },
            );
        }
        verify_signature(self.payer, self.signature, TICKET_DOMAIN, &self.terms.authorization_view())
    }

    /// The transaction identifier of the signed ticket.
    pub fn tx_id(&self) -> (r: VertexResult<TxId>)
        ensures
            r is Ok,
            r matches Ok(t) ==> t@ == ticket_tx_bytes(*self),
    {
        TxId::from_serializable("vertex-signed-ticket-v3", self)
    }
}

impl CanonicalJson for TicketTerms {
    open spec fn json(&self) -> Seq<u8> {
        text("{\"network_id\":") + self.network_id.json() + text(",\"ticket_id\":")
            + self.ticket_id.json() + text(",\"payer\":") + self.payer.json() + text(
            ",\"beneficiary\":",
        ) + self.beneficiary.json() + text(",\"asset\":") + self.asset.json() + text(
            ",\"amount\":",
        ) + self.amount.json() + text(",\"payer_nonce\":") + self.payer_nonce.json() + text(
            ",\"expires_at_epoch\":",
        ) + self.expires_at_epoch.json() + text(",\"route_policy\":") + self.route_policy.json()
            + text(",\"salt\":") + self.salt.json() + text("}")
    }

    fn write_json(&self, out: &mut Vec<u8>) {
        let mut buf: Vec<u8> = Vec::new();
        append_text(&mut buf, "{\"network_id\":");
        assert(buf@ =~= text("{\"network_id\":"));
        self.network_id.write_json(&mut buf);
        append_text(&mut buf, ",\"ticket_id\":");
        self.ticket_id.write_json(&mut buf);
        append_text(&mut buf, ",\"payer\":");
        self.payer.write_json(&mut buf);
        append_text(&mut buf, ",\"beneficiary\":");
        self.beneficiary.write_json(&mut buf);
        append_text(&mut buf, ",\"asset\":");
        self.asset.write_json(&mut buf);
        append_text(&mut buf, ",\"amount\":");
        self.amount.write_json(&mut buf);
        append_text(&mut buf, ",\"payer_nonce\":");
        self.payer_nonce.write_json(&mut buf);
        append_text(&mut buf, ",\"expires_at_epoch\":");
        self.expires_at_epoch.write_json(&mut buf);
        append_text(&mut buf, ",\"route_policy\":");
        self.route_policy.write_json(&mut buf);
        append_text(&mut buf, ",\"salt\":");
        self.salt.write_json(&mut buf);
        append_text(&mut buf, "}");
        assert(buf@ == self.json());
        out.append(&mut buf);
    }
}

impl CanonicalJson for TicketAuthorizationView {
    closed spec fn json(&self) -> Seq<u8> {
        text("{\"network_id\":") + self.network_id.json() + text(",\"ticket_id\":")
            + self.ticket_id.json() + text(",\"payer\":") + self.payer.json() + text(
            ",\"beneficiary\":",
        ) + self.beneficiary.json() + text(",\"asset\":") + self.asset.json() + text(
            ",\"amount\":",
        ) + self.amount.json() + text(",\"payer_nonce\":") + self.payer_nonce.json() + text(
            ",\"expires_at_epoch\":",
        ) + self.expires_at_epoch.json() + text(",\"route_policy\":") + self.route_policy.json()
            + text(",\"salt\":") + self.salt.json() + text("}")
    }

    fn write_json(&self, out: &mut Vec<u8>) {
        let terms = TicketTerms {
            network_id: self.network_id,
            ticket_id: self.ticket_id,
            payer: self.payer,
            beneficiary: self.beneficiary,
            asset: self.asset,
            amount: self.amount,
            payer_nonce: self.payer_nonce,
            expires_at_epoch: self.expires_at_epoch,
            route_policy: self.route_policy,
            salt: self.salt,
        };
        terms.write_json(out);
    }
}

impl CanonicalJson for SignedTicket {
    open spec fn json(&self) -> Seq<u8> {
        text("{\"payer\":") + self.payer.json() + text(",\"terms\":") + self.terms.json() + text(
            ",\"route_plan\":",
        ) + self.route_plan.json() + text(",\"signature\":") + self.signature.json() + text("}")
    }

    fn write_json(&self, out: &mut Vec<u8>) {
        let mut buf: Vec<u8> = Vec::new();
        append_text(&mut buf, "{\"payer\":");
        assert(buf@ =~= text("{\"payer\":"));
        self.payer.write_json(&mut buf);
        append_text(&mut buf, ",\"terms\":");
        self.terms.write_json(&mut buf);
        append_text(&mut buf, ",\"route_plan\":");
        self.route_plan.write_json(&mut buf);
        append_text(&mut buf, ",\"signature\":");
        self.signature.write_json(&mut buf);
        append_text(&mut buf, "}");
        assert(buf@ == self.json());
        out.append(&mut buf);
    }
}

/// Changing the network id of ticket terms changes its canonical JSON.
#[verifier::spinoff_prover]
proof fn lemma_terms_json_network_id(p: TicketTerms, x: u32)
    ensures
        (TicketTerms { network_id: x, ..p }).json() == p.json() ==> x == p.network_id,
{
    let q = TicketTerms { network_id: x, ..p };
    if q.json() == p.json() {
        lemma_cancel_suffix(text("{\"network_id\":") + x.json() + text(",\"ticket_id\":") + p.ticket_id.json() + text(",\"payer\":") + p.payer.json() + text(",\"beneficiary\":") + p.beneficiary.json() + text(",\"asset\":") + p.asset.json() + text(",\"amount\":") + p.amount.json() + text(",\"payer_nonce\":") + p.payer_nonce.json() + text(",\"expires_at_epoch\":") + p.expires_at_epoch.json() + text(",\"route_policy\":") + p.route_policy.json() + text(",\"salt\":") + p.salt.json(), text("{\"network_id\":") + p.network_id.json() + text(",\"ticket_id\":") + p.ticket_id.json() + text(",\"payer\":") + p.payer.json() + text(",\"beneficiary\":") + p.beneficiary.json() + text(",\"asset\":") + p.asset.json() + text(",\"amount\":") + p.amount.json() + text(",\"payer_nonce\":") + p.payer_nonce.json() + text(",\"expires_at_epoch\":") + p.expires_at_epoch.json() + text(",\"route_policy\":") + p.route_policy.json() + text(",\"salt\":") + p.salt.json(), text("}"));
        lemma_cancel_suffix(text("{\"network_id\":") + x.json() + text(",\"ticket_id\":") + p.ticket_id.json() + text(",\"payer\":") + p.payer.json() + text(",\"beneficiary\":") + p.beneficiary.json() + text(",\"asset\":") + p.asset.json() + text(",\"amount\":") + p.amount.json() + text(",\"payer_nonce\":") + p.payer_nonce.json() + text(",\"expires_at_epoch\":") + p.expires_at_epoch.json() + text(",\"route_policy\":") + p.route_policy.json() + text(",\"salt\":"), text("{\"network_id\":") + p.network_id.json() + text(",\"ticket_id\":") + p.ticket_id.json() + text(",\"payer\":") + p.payer.json() + text(",\"beneficiary\":") + p.beneficiary.json() + text(",\"asset\":") + p.asset.json() + text(",\"amount\":") + p.amount.json() + text(",\"payer_nonce\":") + p.payer_nonce.json() + text(",\"expires_at_epoch\":") + p.expires_at_epoch.json() + text(",\"route_policy\":") + p.route_policy.json() + text(",\"salt\":"), p.salt.json());
        lemma_cancel_suffix(text("{\"network_id\":") + x.json() + text(",\"ticket_id\":") + p.ticket_id.json() + text(",\"payer\":") + p.payer.json() + text(",\"beneficiary\":") + p.beneficiary.json() + text(",\"asset\":") + p.asset.json() + text(",\"amount\":") + p.amount.json() + text(",\"payer_nonce\":") + p.payer_nonce.json() + text(",\"expires_at_epoch\":") + p.expires_at_epoch.json() + text(",\"route_policy\":") + p.route_policy.json(), text("{\"network_id\":") + p.network_id.json() + text(",\"ticket_id\":") + p.ticket_id.json() + text(",\"payer\":") + p.payer.json() + text(",\"beneficiary\":") + p.beneficiary.json() + text(",\"asset\":") + p.asset.json() + text(",\"amount\":") + p.amount.json() + text(",\"payer_nonce\":") + p.payer_nonce.json() + text(",\"expires_at_epoch\":") + p.expires_at_epoch.json() + text(",\"route_policy\":") + p.route_policy.json(), text(",\"salt\":"));
        lemma_cancel_suffix(text("{\"network_id\":") + x.json() + text(",\"ticket_id\":") + p.ticket_id.json() + text(",\"payer\":") + p.payer.json() + text(",\"beneficiary\":") + p.beneficiary.json() + text(",\"asset\":") + p.asset.json() + text(",\"amount\":") + p.amount.json() + text(",\"payer_nonce\":") + p.payer_nonce.json() + text(",\"expires_at_epoch\":") + p.expires_at_epoch.json() + text(",\"route_policy\":"), text("{\"network_id\":") + p.network_id.json() + text(",\"ticket_id\":") + p.ticket_id.json() + text(",\"payer\":") + p.payer.json() + text(",\"beneficiary\":") + p.beneficiary.json() + text(",\"asset\":") + p.asset.json() + text(",\"amount\":") + p.amount.json() + text(",\"payer_nonce\":") + p.payer_nonce.json() + text(",\"expires_at_epoch\":") + p.expires_at_epoch.json() + text(",\"route_policy\":"), p.route_policy.json());
        lemma_cancel_suffix(text("{\"network_id\":") + x.json() + text(",\"ticket_id\":") + p.ticket_id.json() + text(",\"payer\":") + p.payer.json() + text(",\"beneficiary\":") + p.beneficiary.json() + text(",\"asset\":") + p.asset.json() + text(",\"amount\":") + p.amount.json() + text(",\"payer_nonce\":") + p.payer_nonce.json() + text(",\"expires_at_epoch\":") + p.expires_at_epoch.json(), text("{\"network_id\":") + p.network_id.json() + text(",\"ticket_id\":") + p.ticket_id.json() + text(",\"payer\":") + p.payer.json() + text(",\"beneficiary\":") + p.beneficiary.json() + text(",\"asset\":") + p.asset.json() + text(",\"amount\":") + p.amount.json() + text(",\"payer_nonce\":") + p.payer_nonce.json() + text(",\"expires_at_epoch\":") + p.expires_at_epoch.json(), text(",\"route_policy\":"));
        lemma_cancel_suffix(text("{\"network_id\":") + x.json() + text(",\"ticket_id\":") + p.ticket_id.json() + text(",\"payer\":") + p.payer.json() + text(",\"beneficiary\":") + p.beneficiary.json() + text(",\"asset\":") + p.asset.json() + text(",\"amount\":") + p.amount.json() + text(",\"payer_nonce\":") + p.payer_nonce.json() + text(",\"expires_at_epoch\":"), text("{\"network_id\":") + p.network_id.json() + text(",\"ticket_id\":") + p.ticket_id.json() + text(",\"payer\":") + p.payer.json() + text(",\"beneficiary\":") + p.beneficiary.json() + text(",\"asset\":") + p.asset.json() + text(",\"amount\":") + p.amount.json() + text(",\"payer_nonce\":") + p.payer_nonce.json() + text(",\"expires_at_epoch\":"), p.expires_at_epoch.json());
        lemma_cancel_suffix(text("{\"network_id\":") + x.json() + text(",\"ticket_id\":") + p.ticket_id.json() + text(",\"payer\":") + p.payer.json() + text(",\"beneficiary\":") + p.beneficiary.json() + text(",\"asset\":") + p.asset.json() + text(",\"amount\":") + p.amount.json() + text(",\"payer_nonce\":") + p.payer_nonce.json(), text("{\"network_id\":") + p.network_id.json() + text(",\"ticket_id\":") + p.ticket_id.json() + text(",\"payer\":") + p.payer.json() + text(",\"beneficiary\":") + p.beneficiary.json() + text(",\"asset\":") + p.asset.json() + text(",\"amount\":") + p.amount.json() + text(",\"payer_nonce\":") + p.payer_nonce.json(), text(",\"expires_at_epoch\":"));
        lemma_cancel_suffix(text("{\"network_id\":") + x.json() + text(",\"ticket_id\":") + p.ticket_id.json() + text(",\"payer\":") + p.payer.json() + text(",\"beneficiary\":") + p.beneficiary.json() + text(",\"asset\":") + p.asset.json() + text(",\"amount\":") + p.amount.json() + text(",\"payer_nonce\":"), text("{\"network_id\":") + p.network_id.json() + text(",\"ticket_id\":") + p.ticket_id.json() + text(",\"payer\":") + p.payer.json() + text(",\"beneficiary\":") + p.beneficiary.json() + text(",\"asset\":") + p.asset.json() + text(",\"amount\":") + p.amount.json() + text(",\"payer_nonce\":"), p.payer_nonce.json());
        lemma_cancel_suffix(text("{\"network_id\":") + x.json() + text(",\"ticket_id\":") + p.ticket_id.json() + text(",\"payer\":") + p.payer.json() + text(",\"beneficiary\":") + p.beneficiary.json() + text(",\"asset\":") + p.asset.json() + text(",\"amount\":") + p.amount.json(), text("{\"network_id\":") + p.network_id.json() + text(",\"ticket_id\":") + p.ticket_id.json() + text(",\"payer\":") + p.payer.json() + text(",\"beneficiary\":") + p.beneficiary.json() + text(",\"asset\":") + p.asset.json() + text(",\"amount\":") + p.amount.json(), text(",\"payer_nonce\":"));
        lemma_cancel_suffix(text("{\"network_id\":") + x.json() + text(",\"ticket_id\":") + p.ticket_id.json() + text(",\"payer\":") + p.payer.json() + text(",\"beneficiary\":") + p.beneficiary.json() + text(",\"asset\":") + p.asset.json() + text(",\"amount\":"), text("{\"network_id\":") + p.network_id.json() + text(",\"ticket_id\":") + p.ticket_id.json() + text(",\"payer\":") + p.payer.json() + text(",\"beneficiary\":") + p.beneficiary.json() + text(",\"asset\":") + p.asset.json() + text(",\"amount\":"), p.amount.json());
        lemma_cancel_suffix(text("{\"network_id\":") + x.json() + text(",\"ticket_id\":") + p.ticket_id.json() + text(",\"payer\":") + p.payer.json() + text(",\"beneficiary\":") + p.beneficiary.json() + text(",\"asset\":") + p.asset.json(), text("{\"network_id\":") + p.network_id.json() + text(",\"ticket_id\":") + p.ticket_id.json() + text(",\"payer\":") + p.payer.json() + text(",\"beneficiary\":") + p.beneficiary.json() + text(",\"asset\":") + p.asset.json(), text(",\"amount\":"));
        lemma_cancel_suffix(text("{\"network_id\":") + x.json() + text(",\"ticket_id\":") + p.ticket_id.json() + text(",\"payer\":") + p.payer.json() + text(",\"beneficiary\":") + p.beneficiary.json() + text(",\"asset\":"), text("{\"network_id\":") + p.network_id.json() + text(",\"ticket_id\":") + p.ticket_id.json() + text(",\"payer\":") + p.payer.json() + text(",\"beneficiary\":") + p.beneficiary.json() + text(",\"asset\":"), p.asset.json());
        lemma_cancel_suffix(text("{\"network_id\":") + x.json() + text(",\"ticket_id\":") + p.ticket_id.json() + text(",\"payer\":") + p.payer.json() + text(",\"beneficiary\":") + p.beneficiary.json(), text("{\"network_id\":") + p.network_id.json() + text(",\"ticket_id\":") + p.ticket_id.json() + text(",\"payer\":") + p.payer.json() + text(",\"beneficiary\":") + p.beneficiary.json(), text(",\"asset\":"));
        lemma_cancel_suffix(text("{\"network_id\":") + x.json() + text(",\"ticket_id\":") + p.ticket_id.json() + text(",\"payer\":") + p.payer.json() + text(",\"beneficiary\":"), text("{\"network_id\":") + p.network_id.json() + text(",\"ticket_id\":") + p.ticket_id.json() + text(",\"payer\":") + p.payer.json() + text(",\"beneficiary\":"), p.beneficiary.json());
        lemma_cancel_suffix(text("{\"network_id\":") + x.json() + text(",\"ticket_id\":") + p.ticket_id.json() + text(",\"payer\":") + p.payer.json(), text("{\"network_id\":") + p.network_id.json() + text(",\"ticket_id\":") + p.ticket_id.json() + text(",\"payer\":") + p.payer.json(), text(",\"beneficiary\":"));
        lemma_cancel_suffix(text("{\"network_id\":") + x.json() + text(",\"ticket_id\":") + p.ticket_id.json() + text(",\"payer\":"), text("{\"network_id\":") + p.network_id.json() + text(",\"ticket_id\":") + p.ticket_id.json() + text(",\"payer\":"), p.payer.json());
        lemma_cancel_suffix(text("{\"network_id\":") + x.json() + text(",\"ticket_id\":") + p.ticket_id.json(), text("{\"network_id\":") + p.network_id.json() + text(",\"ticket_id\":") + p.ticket_id.json(), text(",\"payer\":"));
        lemma_cancel_suffix(text("{\"network_id\":") + x.json() + text(",\"ticket_id\":"), text("{\"network_id\":") + p.network_id.json() + text(",\"ticket_id\":"), p.ticket_id.json());
        lemma_cancel_suffix(text("{\"network_id\":") + x.json(), text("{\"network_id\":") + p.network_id.json(), text(",\"ticket_id\":"));
        lemma_split_equal(text("{\"network_id\":"), x.json(), text("{\"network_id\":"), p.network_id.json());
        lemma_decimal_injective(x as nat, p.network_id as nat);
    }
}

/// Changing the ticket id of ticket terms changes its canonical JSON.
#[verifier::spinoff_prover]
proof fn lemma_terms_json_ticket_id(p: TicketTerms, x: TicketId)
    ensures
        (TicketTerms { ticket_id: x, ..p }).json() == p.json() ==> x == p.ticket_id,
{
    let q = TicketTerms { ticket_id: x, ..p };
    if q.json() == p.json() {
        let h = text("{\"network_id\":") + p.network_id.json() + text(",\"ticket_id\":");
        let t = text(",\"payer\":") + p.payer.json() + text(",\"beneficiary\":") + p.beneficiary.json() + text(",\"asset\":") + p.asset.json() + text(",\"amount\":") + p.amount.json() + text(",\"payer_nonce\":") + p.payer_nonce.json() + text(",\"expires_at_epoch\":") + p.expires_at_epoch.json() + text(",\"route_policy\":") + p.route_policy.json() + text(",\"salt\":") + p.salt.json() + text("}");
        assert(q.json() =~= h + x.json() + t);
        assert(p.json() =~= h + p.ticket_id.json() + t);
        lemma_middle_equal(h, x.json(), p.ticket_id.json(), t);
        lemma_ticket_id_json_injective(x, p.ticket_id);
    }
}

/// Changing the payer of ticket terms changes its canonical JSON.
#[verifier::spinoff_prover]
proof fn lemma_terms_json_payer(p: TicketTerms, x: AccountId)
    ensures
        (TicketTerms { payer: x, ..p }).json() == p.json() ==> x == p.payer,
{
    let q = TicketTerms { payer: x, ..p };
    if q.json() == p.json() {
        let h = text("{\"network_id\":") + p.network_id.json() + text(",\"ticket_id\":") + p.ticket_id.json() + text(",\"payer\":");
        let t = text(",\"beneficiary\":") + p.beneficiary.json() + text(",\"asset\":") + p.asset.json() + text(",\"amount\":") + p.amount.json() + text(",\"payer_nonce\":") + p.payer_nonce.json() + text(",\"expires_at_epoch\":") + p.expires_at_epoch.json() + text(",\"route_policy\":") + p.route_policy.json() + text(",\"salt\":") + p.salt.json() + text("}");
        assert(q.json() =~= h + x.json() + t);
        assert(p.json() =~= h + p.payer.json() + t);
        lemma_middle_equal(h, x.json(), p.payer.json(), t);
        lemma_account_json_injective(x, p.payer);
    }
}

/// Changing the beneficiary of ticket terms changes its canonical JSON.
#[verifier::spinoff_prover]
proof fn lemma_terms_json_beneficiary(p: TicketTerms, x: AccountId)
    ensures
        (TicketTerms { beneficiary: x, ..p }).json() == p.json() ==> x == p.beneficiary,
{
    let q = TicketTerms { beneficiary: x, ..p };
    if q.json() == p.json() {
        let h = text("{\"network_id\":") + p.network_id.json() + text(",\"ticket_id\":") + p.ticket_id.json() + text(",\"payer\":") + p.payer.json() + text(",\"beneficiary\":");
        let t = text(",\"asset\":") + p.asset.json() + text(",\"amount\":") + p.amount.json() + text(",\"payer_nonce\":") + p.payer_nonce.json() + text(",\"expires_at_epoch\":") + p.expires_at_epoch.json() + text(",\"route_policy\":") + p.route_policy.json() + text(",\"salt\":") + p.salt.json() + text("}");
        assert(q.json() =~= h + x.json() + t);
        assert(p.json() =~= h + p.beneficiary.json() + t);
        lemma_middle_equal(h, x.json(), p.beneficiary.json(), t);
        lemma_account_json_injective(x, p.beneficiary);
    }
}

/// Changing the asset of ticket terms changes its canonical JSON.
#[verifier::spinoff_prover]
proof fn lemma_terms_json_asset(p: TicketTerms, x: AssetId)
    ensures
        (TicketTerms { asset: x, ..p }).json() == p.json() ==> x == p.asset,
{
    let q = TicketTerms { asset: x, ..p };
    if q.json() == p.json() {
        let h = text("{\"network_id\":") + p.network_id.json() + text(",\"ticket_id\":") + p.ticket_id.json() + text(",\"payer\":") + p.payer.json() + text(",\"beneficiary\":") + p.beneficiary.json() + text(",\"asset\":");
        let t = text(",\"amount\":") + p.amount.json() + text(",\"payer_nonce\":") + p.payer_nonce.json() + text(",\"expires_at_epoch\":") + p.expires_at_epoch.json() + text(",\"route_policy\":") + p.route_policy.json() + text(",\"salt\":") + p.salt.json() + text("}");
        assert(q.json() =~= h + x.json() + t);
        assert(p.json() =~= h + p.asset.json() + t);
        lemma_middle_equal(h, x.json(), p.asset.json(), t);
        lemma_asset_id_json_injective(x, p.asset);
    }
}

/// Changing the amount of ticket terms changes its canonical JSON.
#[verifier::spinoff_prover]
proof fn lemma_terms_json_amount(p: TicketTerms, x: Amount)
    ensures
        (TicketTerms { amount: x, ..p }).json() == p.json() ==> x.spec_units() == p.amount.spec_units(),
{
    let q = TicketTerms { amount: x, ..p };
    if q.json() == p.json() {
        let h = text("{\"network_id\":") + p.network_id.json() + text(",\"ticket_id\":") + p.ticket_id.json() + text(",\"payer\":") + p.payer.json() + text(",\"beneficiary\":") + p.beneficiary.json() + text(",\"asset\":") + p.asset.json() + text(",\"amount\":");
        let t = text(",\"payer_nonce\":") + p.payer_nonce.json() + text(",\"expires_at_epoch\":") + p.expires_at_epoch.json() + text(",\"route_policy\":") + p.route_policy.json() + text(",\"salt\":") + p.salt.json() + text("}");
        assert(q.json() =~= h + x.json() + t);
        assert(p.json() =~= h + p.amount.json() + t);
        lemma_middle_equal(h, x.json(), p.amount.json(), t);
        lemma_decimal_injective(x.spec_units(), p.amount.spec_units());
    }
}

/// Changing the payer nonce of ticket terms changes its canonical JSON.
#[verifier::spinoff_prover]
proof fn lemma_terms_json_payer_nonce(p: TicketTerms, x: u64)
    ensures
        (TicketTerms { payer_nonce: x, ..p }).json() == p.json() ==> x == p.payer_nonce,
{
    let q = TicketTerms { payer_nonce: x, ..p };
    if q.json() == p.json() {
        let h = text("{\"network_id\":") + p.network_id.json() + text(",\"ticket_id\":") + p.ticket_id.json() + text(",\"payer\":") + p.payer.json() + text(",\"beneficiary\":") + p.beneficiary.json() + text(",\"asset\":") + p.asset.json() + text(",\"amount\":") + p.amount.json() + text(",\"payer_nonce\":");
        let t = text(",\"expires_at_epoch\":") + p.expires_at_epoch.json() + text(",\"route_policy\":") + p.route_policy.json() + text(",\"salt\":") + p.salt.json() + text("}");
        assert(q.json() =~= h + x.json() + t);
        assert(p.json() =~= h + p.payer_nonce.json() + t);
        lemma_middle_equal(h, x.json(), p.payer_nonce.json(), t);
        lemma_decimal_injective(x as nat, p.payer_nonce as nat);
    }
}

/// Changing the expires at epoch of ticket terms changes its canonical JSON.
#[verifier::spinoff_prover]
proof fn lemma_terms_json_expires_at_epoch(p: TicketTerms, x: u64)
    ensures
        (TicketTerms { expires_at_epoch: x, ..p }).json() == p.json() ==> x == p.expires_at_epoch,
{
    let q = TicketTerms { expires_at_epoch: x, ..p };
    if q.json() == p.json() {
        let h = text("{\"network_id\":") + p.network_id.json() + text(",\"ticket_id\":") + p.ticket_id.json() + text(",\"payer\":") + p.payer.json() + text(",\"beneficiary\":") + p.beneficiary.json() + text(",\"asset\":") + p.asset.json() + text(",\"amount\":") + p.amount.json() + text(",\"payer_nonce\":") + p.payer_nonce.json() + text(",\"expires_at_epoch\":");
        let t = text(",\"route_policy\":") + p.route_policy.json() + text(",\"salt\":") + p.salt.json() + text("}");
        assert(q.json() =~= h + x.json() + t);
        assert(p.json() =~= h + p.expires_at_epoch.json() + t);
        lemma_middle_equal(h, x.json(), p.expires_at_epoch.json(), t);
        lemma_decimal_injective(x as nat, p.expires_at_epoch as nat);
    }
}

/// Changing the route policy of ticket terms changes its canonical JSON.
#[verifier::spinoff_prover]
proof fn lemma_terms_json_route_policy(p: TicketTerms, x: RoutePolicy)
    ensures
        (TicketTerms { route_policy: x, ..p }).json() == p.json() ==> x.json() == p.route_policy.json(),
{
    let q = TicketTerms { route_policy: x, ..p };
    if q.json() == p.json() {
        let h = text("{\"network_id\":") + p.network_id.json() + text(",\"ticket_id\":") + p.ticket_id.json() + text(",\"payer\":") + p.payer.json() + text(",\"beneficiary\":") + p.beneficiary.json() + text(",\"asset\":") + p.asset.json() + text(",\"amount\":") + p.amount.json() + text(",\"payer_nonce\":") + p.payer_nonce.json() + text(",\"expires_at_epoch\":") + p.expires_at_epoch.json() + text(",\"route_policy\":");
        let t = text(",\"salt\":") + p.salt.json() + text("}");
        assert(q.json() =~= h + x.json() + t);
        assert(p.json() =~= h + p.route_policy.json() + t);
        lemma_middle_equal(h, x.json(), p.route_policy.json(), t);
        
    }
}

/// Changing the salt of ticket terms changes its canonical JSON.
#[verifier::spinoff_prover]
proof fn lemma_terms_json_salt(p: TicketTerms, x: Digest)
    ensures
        (TicketTerms { salt: x, ..p }).json() == p.json() ==> x == p.salt,
{
    let q = TicketTerms { salt: x, ..p };
    if q.json() == p.json() {
        let h = text("{\"network_id\":") + p.network_id.json() + text(",\"ticket_id\":") + p.ticket_id.json() + text(",\"payer\":") + p.payer.json() + text(",\"beneficiary\":") + p.beneficiary.json() + text(",\"asset\":") + p.asset.json() + text(",\"amount\":") + p.amount.json() + text(",\"payer_nonce\":") + p.payer_nonce.json() + text(",\"expires_at_epoch\":") + p.expires_at_epoch.json() + text(",\"route_policy\":") + p.route_policy.json() + text(",\"salt\":");
        let t = text("}");
        assert(q.json() =~= h + x.json() + t);
        assert(p.json() =~= h + p.salt.json() + t);
        lemma_middle_equal(h, x.json(), p.salt.json(), t);
        lemma_digest_json_injective(x, p.salt);
    }
}


/// The canonical JSON of ticket terms, which the payer signs, commits to
/// every term: changing any one of the network, ticket identifier, payer,
/// beneficiary, asset, amount, payer nonce, expiry, route policy or salt
/// changes the signed encoding.
pub proof fn lemma_terms_json_commits(
    p: TicketTerms,
    network_id: u32,
    ticket_id: TicketId,
    payer: AccountId,
    beneficiary: AccountId,
    asset: AssetId,
    amount: Amount,
    payer_nonce: u64,
    expires_at_epoch: u64,
    route_policy: RoutePolicy,
    salt: Digest,
)
    ensures
        (TicketTerms { network_id, ..p }).json() == p.json() ==> network_id == p.network_id,
        (TicketTerms { ticket_id, ..p }).json() == p.json() ==> ticket_id == p.ticket_id,
        (TicketTerms { payer, ..p }).json() == p.json() ==> payer == p.payer,
        (TicketTerms { beneficiary, ..p }).json() == p.json() ==> beneficiary == p.beneficiary,
        (TicketTerms { asset, ..p }).json() == p.json() ==> asset == p.asset,
        (TicketTerms { amount, ..p }).json() == p.json() ==> amount.spec_units() == p.amount.spec_units(),
        (TicketTerms { payer_nonce, ..p }).json() == p.json() ==> payer_nonce == p.payer_nonce,
        (TicketTerms { expires_at_epoch, ..p }).json() == p.json() ==> expires_at_epoch == p.expires_at_epoch,
        (TicketTerms { route_policy, ..p }).json() == p.json() ==> route_policy.json() == p.route_policy.json(),
        (TicketTerms { salt, ..p }).json() == p.json() ==> salt == p.salt,
{
    lemma_terms_json_network_id(p, network_id);
    lemma_terms_json_ticket_id(p, ticket_id);
    lemma_terms_json_payer(p, payer);
    lemma_terms_json_beneficiary(p, beneficiary);
    lemma_terms_json_asset(p, asset);
    lemma_terms_json_amount(p, amount);
    lemma_terms_json_payer_nonce(p, payer_nonce);
    lemma_terms_json_expires_at_epoch(p, expires_at_epoch);
    lemma_terms_json_route_policy(p, route_policy);
    lemma_terms_json_salt(p, salt);
}

} // verus!
