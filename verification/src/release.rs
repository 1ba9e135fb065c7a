use vstd::prelude::*;
use vstd::string::StringSliceAdditionalSpecFns;

use crate::codec::{append_text, lemma_decimal_injective, lemma_middle_equal, text, CanonicalJson};
use crate::crypto::{
    ed25519_public_key, ed25519_signature, identity_of, same_account, signature_refusal, signing_digest_bytes,
    verify_signature, KeyPair, PublicIdentity, SignatureBytes,
};
use crate::error::{VertexError, VertexResult};
use crate::ids::{
    account_digest, digest_of_one, lemma_account_json_injective, lemma_digest_json_injective,
    lemma_ticket_id_json_injective, AccountId, Digest, TicketId, TxId,
};

verus! {

broadcast use crate::ids::group_id_views;

/// The signing domain of release authorizations.
pub const RELEASE_DOMAIN: &'static str = "vertex-ticket-release-v3";

/// What a beneficiary asks for when releasing a ticket: the ticket, their next
/// release nonce, and the digest of the route they observed.
#[derive(Copy, Clone, Debug, PartialEq, Eq)]
pub struct ReleaseRequest {
    pub network_id: u32,
    pub ticket_id: TicketId,
    pub beneficiary: AccountId,
    pub release_nonce: u64,
    pub observed_route_digest: Digest,
}

/// The exact view of a release request that the beneficiary signs.
#[derive(Copy, Clone, Debug, PartialEq, Eq)]
pub struct ReleaseAuthorizationView {
    network_id: u32,
    ticket_id: TicketId,
    beneficiary: AccountId,
    release_nonce: u64,
    observed_route_digest: Digest,
}

/// A release request with the signer's identity and signature.
#[derive(Copy, Clone, Debug, PartialEq, Eq)]
pub struct SignedRelease {
    pub signer: PublicIdentity,
    pub request: ReleaseRequest,
    pub signature: SignatureBytes,
}

impl ReleaseRequest {
    /// A release request for a ticket.
    pub fn new(
        network_id: u32,
        ticket_id: TicketId,
        beneficiary: AccountId,
        release_nonce: u64,
        observed_route_digest: Digest,
    ) -> (r: ReleaseRequest)
        ensures
            r == (ReleaseRequest {
                network_id,
                ticket_id,
                beneficiary,
                release_nonce,
                observed_route_digest,
            }),
    {
        ReleaseRequest { network_id, ticket_id, beneficiary, release_nonce, observed_route_digest }
    }

    /// The view of the request that is signed: it copies every field of the
    /// request, and it encodes exactly as the request does.
    pub fn authorization_view(self) -> (r: ReleaseAuthorizationView)
        ensures
            r.request() == self,
            r.json() == self.json(),
    {
        ReleaseAuthorizationView {
            network_id: self.network_id,
            ticket_id: self.ticket_id,
            beneficiary: self.beneficiary,
            release_nonce: self.release_nonce,
            observed_route_digest: self.observed_route_digest,
        }
    }
}

/// Why a signed release's authorization is refused, if it is: the signer must
/// be the beneficiary named in the request, and the signature must verify.
pub open spec fn release_signature_refusal(s: SignedRelease) -> Option<VertexError> {
    if s.signer.account != s.request.beneficiary {
        Some(
            VertexError::UnauthorizedReleaseSigner {
                expected: s.request.beneficiary,
                received: s.signer.account,
            },
        )
    } else {
        signature_refusal(s.signer, s.signature, RELEASE_DOMAIN.spec_bytes(), s.request.json())
    }
}

/// The bytes of the transaction identifier of a signed release.
pub open spec fn release_tx_bytes(s: SignedRelease) -> Seq<u8> {
    digest_of_one("vertex-signed-release-v3".spec_bytes(), s.json())
}

impl ReleaseAuthorizationView {
    /// The request that the view holds.
    pub closed spec fn request(self) -> ReleaseRequest {
        ReleaseRequest {
            network_id: self.network_id,
            ticket_id: self.ticket_id,
            beneficiary: self.beneficiary,
            release_nonce: self.release_nonce,
            observed_route_digest: self.observed_route_digest,
        }
    }

    /// Two views are equal exactly when the requests they hold are.
    pub proof fn lemma_request_injective(a: ReleaseAuthorizationView, b: ReleaseAuthorizationView)
        ensures
            (a.request() == b.request()) == (a == b),
    {
    }
}

/// The transaction identifier of a signed release.
#[verifier::opaque]
pub open spec fn release_tx(s: SignedRelease) -> TxId {
    TxId::from_view(release_tx_bytes(s))
}

/// The release that the key pair with secret `seed` signs for `request`.
pub open spec fn signed_release_of(request: ReleaseRequest, seed: Seq<u8>) -> SignedRelease {
    SignedRelease {
        signer: identity_of(seed),
        request,
        signature: SignatureBytes::from_view(
            ed25519_signature(seed, signing_digest_bytes(RELEASE_DOMAIN.spec_bytes(), request.json())),
        ),
    }
}

impl SignedRelease {
    /// Signs the request with the beneficiary's key; refuses any other key.
    pub fn sign(request: ReleaseRequest, key_pair: &KeyPair) -> (r: VertexResult<SignedRelease>)
        ensures
            account_digest(ed25519_public_key(key_pair.seed())) != request.beneficiary@ ==> (
            r matches Err(VertexError::UnauthorizedReleaseSigner { expected, received })
                && expected == request.beneficiary && received@ == account_digest(
                ed25519_public_key(key_pair.seed()),
            )),
            account_digest(ed25519_public_key(key_pair.seed())) == request.beneficiary@ ==> r
                == Ok::<SignedRelease, VertexError>(signed_release_of(request, key_pair.seed())),
            r matches Ok(s) ==> release_signature_refusal(s) is None,
    {
        let signer = key_pair.public_identity();
        if !same_account(&signer.account, &request.beneficiary) {
            return Err(
                VertexError::UnauthorizedReleaseSigner {
                    expected: request.beneficiary,
                    received: signer.account,
                },
            );
        }
        let signature = key_pair.sign(RELEASE_DOMAIN, &request.authorization_view())?;
        proof {
            broadcast use {crate::crypto::lemma_signature_view, crate::crypto::lemma_signature_from_view};
            assert(signature == signed_release_of(request, key_pair.seed()).signature);
        }
        Ok(SignedRelease { signer, request, signature })
    }

    /// Checks that the beneficiary signed this request.
    pub fn verify(&self) -> (r: VertexResult<()>)
        ensures
            release_signature_refusal(*self) is None ==> r == Ok::<(), VertexError>(()),
            release_signature_refusal(*self) matches Some(e) ==> r == Err::<(), VertexError>(e),
    {
        if !same_account(&self.signer.account, &self.request.beneficiary) {
            return Err(
                VertexError::UnauthorizedReleaseSigner {
                    expected: self.request.beneficiary,
                    received: self.signer.account,
                },
            );
        }
        verify_signature(
            self.signer,
            self.signature,
            RELEASE_DOMAIN,
            &self.request.authorization_view(),
        )
    }

    /// The transaction identifier of the signed release.
    pub fn tx_id(&self) -> (r: VertexResult<TxId>)
        ensures
            r is Ok,
            r matches Ok(t) ==> t@ == release_tx_bytes(*self),
    {
        TxId::from_serializable("vertex-signed-release-v3", self)
    }
}

impl CanonicalJson for ReleaseRequest {
    open spec fn json(&self) -> Seq<u8> {
        text("{\"network_id\":") + self.network_id.json() + text(",\"ticket_id\":")
            + self.ticket_id.json() + text(",\"beneficiary\":") + self.beneficiary.json() + text(
            ",\"release_nonce\":",
        ) + self.release_nonce.json() + text(",\"observed_route_digest\":")
            + self.observed_route_digest.json() + text("}")
    }

    fn write_json(&self, out: &mut Vec<u8>) {
        let mut buf: Vec<u8> = Vec::new();
        append_text(&mut buf, "{\"network_id\":");
        assert(buf@ =~= text("{\"network_id\":"));
        self.network_id.write_json(&mut buf);
        append_text(&mut buf, ",\"ticket_id\":");
        self.ticket_id.write_json(&mut buf);
        append_text(&mut buf, ",\"beneficiary\":");
        self.beneficiary.write_json(&mut buf);
        append_text(&mut buf, ",\"release_nonce\":");
        self.release_nonce.write_json(&mut buf);
        append_text(&mut buf, ",\"observed_route_digest\":");
        self.observed_route_digest.write_json(&mut buf);
        append_text(&mut buf, "}");
        assert(buf@ == self.json());
        out.append(&mut buf);
    }
}

impl CanonicalJson for ReleaseAuthorizationView {
    closed spec fn json(&self) -> Seq<u8> {
        text("{\"network_id\":") + self.network_id.json() + text(",\"ticket_id\":")
            + self.ticket_id.json() + text(",\"beneficiary\":") + self.beneficiary.json() + text(
            ",\"release_nonce\":",
        ) + self.release_nonce.json() + text(",\"observed_route_digest\":")
            + self.observed_route_digest.json() + text("}")
    }

    fn write_json(&self, out: &mut Vec<u8>) {
        let request = ReleaseRequest {
            network_id: self.network_id,
            ticket_id: self.ticket_id,
            beneficiary: self.beneficiary,
            release_nonce: self.release_nonce,
            observed_route_digest: self.observed_route_digest,
        };
        request.write_json(out);
    }
}

impl CanonicalJson for SignedRelease {
    open spec fn json(&self) -> Seq<u8> {
        text("{\"signer\":") + self.signer.json() + text(",\"request\":") + self.request.json()
            + text(",\"signature\":") + self.signature.json() + text("}")
    }

    fn write_json(&self, out: &mut Vec<u8>) {
        let mut buf: Vec<u8> = Vec::new();
        append_text(&mut buf, "{\"signer\":");
        assert(buf@ =~= text("{\"signer\":"));
        self.signer.write_json(&mut buf);
        append_text(&mut buf, ",\"request\":");
        self.request.write_json(&mut buf);
        append_text(&mut buf, ",\"signature\":");
        self.signature.write_json(&mut buf);
        append_text(&mut buf, "}");
        assert(buf@ == self.json());
        out.append(&mut buf);
    }
}

/// Changing the network id of a release request changes its canonical JSON.
#[verifier::spinoff_prover]
proof fn lemma_request_json_network_id(p: ReleaseRequest, x: u32)
    ensures
        (ReleaseRequest { network_id: x, ..p }).json() == p.json() ==> x == p.network_id,
{
    let q = ReleaseRequest { network_id: x, ..p };
    if q.json() == p.json() {
        let h = text("{\"network_id\":");
        let t = text(",\"ticket_id\":") + p.ticket_id.json() + text(",\"beneficiary\":") + p.beneficiary.json() + text(",\"release_nonce\":") + p.release_nonce.json() + text(",\"observed_route_digest\":") + p.observed_route_digest.json() + text("}");
        assert(q.json() =~= h + x.json() + t);
        assert(p.json() =~= h + p.network_id.json() + t);
        lemma_middle_equal(h, x.json(), p.network_id.json(), t);
        lemma_decimal_injective(x as nat, p.network_id as nat);
    }
}

/// Changing the ticket id of a release request changes its canonical JSON.
#[verifier::spinoff_prover]
proof fn lemma_request_json_ticket_id(p: ReleaseRequest, x: TicketId)
    ensures
        (ReleaseRequest { ticket_id: x, ..p }).json() == p.json() ==> x == p.ticket_id,
{
    let q = ReleaseRequest { ticket_id: x, ..p };
    if q.json() == p.json() {
        let h = text("{\"network_id\":") + p.network_id.json() + text(",\"ticket_id\":");
        let t = text(",\"beneficiary\":") + p.beneficiary.json() + text(",\"release_nonce\":") + p.release_nonce.json() + text(",\"observed_route_digest\":") + p.observed_route_digest.json() + text("}");
        assert(q.json() =~= h + x.json() + t);
        assert(p.json() =~= h + p.ticket_id.json() + t);
        lemma_middle_equal(h, x.json(), p.ticket_id.json(), t);
        lemma_ticket_id_json_injective(x, p.ticket_id);
    }
}

/// Changing the beneficiary of a release request changes its canonical JSON.
#[verifier::spinoff_prover]
proof fn lemma_request_json_beneficiary(p: ReleaseRequest, x: AccountId)
    ensures
        (ReleaseRequest { beneficiary: x, ..p }).json() == p.json() ==> x == p.beneficiary,
{
    let q = ReleaseRequest { beneficiary: x, ..p };
    if q.json() == p.json() {
        let h = text("{\"network_id\":") + p.network_id.json() + text(",\"ticket_id\":") + p.ticket_id.json() + text(",\"beneficiary\":");
        let t = text(",\"release_nonce\":") + p.release_nonce.json() + text(",\"observed_route_digest\":") + p.observed_route_digest.json() + text("}");
        assert(q.json() =~= h + x.json() + t);
        assert(p.json() =~= h + p.beneficiary.json() + t);
        lemma_middle_equal(h, x.json(), p.beneficiary.json(), t);
        lemma_account_json_injective(x, p.beneficiary);
    }
}

/// Changing the release nonce of a release request changes its canonical JSON.
#[verifier::spinoff_prover]
proof fn lemma_request_json_release_nonce(p: ReleaseRequest, x: u64)
    ensures
        (ReleaseRequest { release_nonce: x, ..p }).json() == p.json() ==> x == p.release_nonce,
{
    let q = ReleaseRequest { release_nonce: x, ..p };
    if q.json() == p.json() {
        let h = text("{\"network_id\":") + p.network_id.json() + text(",\"ticket_id\":") + p.ticket_id.json() + text(",\"beneficiary\":") + p.beneficiary.json() + text(",\"release_nonce\":");
        let t = text(",\"observed_route_digest\":") + p.observed_route_digest.json() + text("}");
        assert(q.json() =~= h + x.json() + t);
        assert(p.json() =~= h + p.release_nonce.json() + t);
        lemma_middle_equal(h, x.json(), p.release_nonce.json(), t);
        lemma_decimal_injective(x as nat, p.release_nonce as nat);
    }
}

/// Changing the observed route digest of a release request changes its canonical JSON.
#[verifier::spinoff_prover]
proof fn lemma_request_json_observed_route_digest(p: ReleaseRequest, x: Digest)
    ensures
        (ReleaseRequest { observed_route_digest: x, ..p }).json() == p.json() ==> x == p.observed_route_digest,
{
    let q = ReleaseRequest { observed_route_digest: x, ..p };
    if q.json() == p.json() {
        let h = text("{\"network_id\":") + p.network_id.json() + text(",\"ticket_id\":") + p.ticket_id.json() + text(",\"beneficiary\":") + p.beneficiary.json() + text(",\"release_nonce\":") + p.release_nonce.json() + text(",\"observed_route_digest\":");
        let t = text("}");
        assert(q.json() =~= h + x.json() + t);
        assert(p.json() =~= h + p.observed_route_digest.json() + t);
        lemma_middle_equal(h, x.json(), p.observed_route_digest.json(), t);
        lemma_digest_json_injective(x, p.observed_route_digest);
    }
}


/// The canonical JSON of a release request, which the beneficiary signs,
/// commits to every field: changing any one of the network, ticket
/// identifier, beneficiary, release nonce or observed route digest changes
/// the signed encoding.
pub proof fn lemma_request_json_commits(
    p: ReleaseRequest,
    network_id: u32,
    ticket_id: TicketId,
    beneficiary: AccountId,
    release_nonce: u64,
    observed_route_digest: Digest,
)
    ensures
        (ReleaseRequest { network_id, ..p }).json() == p.json() ==> network_id == p.network_id,
        (ReleaseRequest { ticket_id, ..p }).json() == p.json() ==> ticket_id == p.ticket_id,
        (ReleaseRequest { beneficiary, ..p }).json() == p.json() ==> beneficiary == p.beneficiary,
        (ReleaseRequest { release_nonce, ..p }).json() == p.json() ==> release_nonce == p.release_nonce,
        (ReleaseRequest { observed_route_digest, ..p }).json() == p.json() ==> observed_route_digest == p.observed_route_digest,
{
    lemma_request_json_network_id(p, network_id);
    lemma_request_json_ticket_id(p, ticket_id);
    lemma_request_json_beneficiary(p, beneficiary);
    lemma_request_json_release_nonce(p, release_nonce);
    lemma_request_json_observed_route_digest(p, observed_route_digest);
}

} // verus!
