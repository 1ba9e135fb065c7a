use ed25519_dalek::{Signature, Signer, SigningKey, Verifier, VerifyingKey};
use vstd::prelude::*;
use vstd::string::StringSliceAdditionalSpecFns;

use crate::codec::{
    append_text, canonical_bytes, json_byte_array, json_hex_string, push_byte_array,
    push_hex_string, text, CanonicalJson,
};
use crate::error::{VertexError, VertexResult};
use crate::ids::{account_digest, array_of, lemma_array_of, digest_of_one, AccountId, Digest};

verus! {

broadcast use crate::ids::group_id_views;

// ---------------------------------------------------------------------------
// Ed25519, as ed25519-dalek computes it
// ---------------------------------------------------------------------------

/// The 32-byte Ed25519 public key that belongs to a 32-byte secret seed.
pub uninterp spec fn ed25519_public_key(seed: Seq<u8>) -> Seq<u8>;

/// The 64-byte Ed25519 signature of `message` under the secret seed
/// (Ed25519 signing is deterministic).
pub uninterp spec fn ed25519_signature(seed: Seq<u8>, message: Seq<u8>) -> Seq<u8>;

/// Whether 32 bytes decompress to a curve point, as `VerifyingKey::from_bytes` decides.
pub uninterp spec fn ed25519_key_decodes(public_key: Seq<u8>) -> bool;

/// Whether `VerifyingKey::verify` accepts `signature` over `message` for `public_key`.
pub uninterp spec fn ed25519_accepts(
    public_key: Seq<u8>,
    message: Seq<u8>,
    signature: Seq<u8>,
) -> bool;

/// Calls `SigningKey::from_bytes(seed).verifying_key().to_bytes()`. The contract
/// names the result `ed25519_public_key` of the seed and claims that it decodes
/// as a verifying key, which holds because it is the compression of a point that
/// the signing key computed; nothing else is claimed.
#[verifier::external_body]
fn ed25519_derive_public_key(seed: &[u8; 32]) -> (public_key: [u8; 32])
    ensures
        public_key@ == ed25519_public_key(seed@),
        ed25519_key_decodes(public_key@),
{
    SigningKey::from_bytes(seed).verifying_key().to_bytes()
}

/// Calls `Signer::sign` on `SigningKey::from_bytes(seed)` and returns the
/// signature's bytes. The contract names the result `ed25519_signature` of the
/// seed and message, and claims that the verifying key of the same seed accepts
/// it over the same message: an honestly made Ed25519 signature verifies.
#[verifier::external_body]
fn ed25519_sign(seed: &[u8; 32], message: &[u8]) -> (signature: [u8; 64])
    ensures
        signature@ == ed25519_signature(seed@, message@),
        ed25519_accepts(ed25519_public_key(seed@), message@, signature@),
{
    SigningKey::from_bytes(seed).sign(message).to_bytes()
}

/// What an Ed25519 check found.
#[derive(Copy, Clone, Debug, PartialEq, Eq)]
enum Ed25519Verdict {
    MalformedKey,
    Rejected,
    Accepted,
}

/// Calls `VerifyingKey::from_bytes` on the public key and, when it decodes,
/// `Verifier::verify` with `Signature::from_bytes(signature)`. The contract ties
/// the verdict to the named predicates `ed25519_key_decodes` and
/// `ed25519_accepts` of the three byte strings and claims nothing else.
#[verifier::external_body]
fn ed25519_check(public_key: &[u8; 32], message: &[u8], signature: &[u8; 64]) -> (v:
    Ed25519Verdict)
    ensures
        (v == Ed25519Verdict::MalformedKey) == !ed25519_key_decodes(public_key@),
        (v == Ed25519Verdict::Accepted) == (ed25519_key_decodes(public_key@) && ed25519_accepts(
            public_key@,
            message@,
            signature@,
        )),
{
    match VerifyingKey::from_bytes(public_key) {
        Err(_) => Ed25519Verdict::MalformedKey,
        Ok(key) => match key.verify(message, &Signature::from_bytes(signature)) {
            Ok(()) => Ed25519Verdict::Accepted,
            Err(_) => Ed25519Verdict::Rejected,
        },
    }
}

// ---------------------------------------------------------------------------
// Identities, signatures and key pairs
// ---------------------------------------------------------------------------

/// An account identifier together with the public key it claims to belong to.
#[derive(Copy, Clone, Debug, PartialEq, Eq)]
pub struct PublicIdentity {
    pub account: AccountId,
    pub public_key: [u8; 32],
}

/// The 64 bytes of an Ed25519 signature.
#[derive(Copy, Clone, Debug, PartialEq, Eq)]
pub struct SignatureBytes([u8; 64]);

/// A signing key, held as its 32-byte secret seed.
#[derive(Clone)]
pub struct KeyPair {
    seed: [u8; 32],
}

impl View for SignatureBytes {
    type V = Seq<u8>;

    closed spec fn view(&self) -> Seq<u8> {
        self.0@
    }
}

/// The 64-byte array holding the first 64 bytes of `s`.
pub open spec fn array64_of(s: Seq<u8>) -> [u8; 64] {
    [s[0], s[1], s[2], s[3], s[4], s[5], s[6], s[7], s[8], s[9], s[10], s[11], s[12], s[13], s[14], s[15], s[16], s[17], s[18], s[19], s[20], s[21], s[22], s[23], s[24], s[25], s[26], s[27], s[28], s[29], s[30], s[31], s[32], s[33], s[34], s[35], s[36], s[37], s[38], s[39], s[40], s[41], s[42], s[43], s[44], s[45], s[46], s[47], s[48], s[49], s[50], s[51], s[52], s[53], s[54], s[55], s[56], s[57], s[58], s[59], s[60], s[61], s[62], s[63]]
}

impl SignatureBytes {
    /// The signature whose bytes are `s` (meaningful when `s` is 64 bytes long).
    pub closed spec fn from_view(s: Seq<u8>) -> SignatureBytes {
        SignatureBytes(array64_of(s))
    }

    /// Wraps 64 signature bytes.
    pub fn new(bytes: [u8; 64]) -> (r: SignatureBytes)
        ensures
            r@ == bytes@,
    {
        SignatureBytes(bytes)
    }

    /// The 64 signature bytes.
    pub fn bytes(self) -> (r: [u8; 64])
        ensures
            r@ == self@,
    {
        self.0
    }
}

/// Signature bytes built from 64 bytes hold exactly those bytes.
pub broadcast proof fn lemma_signature_from_view(s: Seq<u8>)
    requires
        s.len() == 64,
    ensures
        (#[trigger] SignatureBytes::from_view(s))@ == s,
{
    assert(array64_of(s)@ =~= s);
}

/// Every signature is 64 bytes long, and two signatures are equal exactly
/// when their bytes are.
pub broadcast proof fn lemma_signature_view(a: SignatureBytes, b: SignatureBytes)
    ensures
        #![trigger a@, b@]
        a@.len() == 64,
        (a@ == b@) == (a == b),
{
    if a@ == b@ {
        assert(a.0 =~= b.0);
    }
}

/// The public identity that belongs to a secret seed: its Ed25519 public key
/// and the account derived from that key.
pub closed spec fn identity_of(seed: Seq<u8>) -> PublicIdentity {
    PublicIdentity {
        account: AccountId::from_view(account_digest(ed25519_public_key(seed))),
        public_key: array_of(ed25519_public_key(seed)),
    }
}

/// The account of the identity of a seed is the one derived from its public key.
pub proof fn lemma_identity_of(seed: Seq<u8>)
    ensures
        identity_of(seed).account == AccountId::from_view(account_digest(ed25519_public_key(seed))),
{
}

/// Whether an identity's account is the one derived from its public key.
pub open spec fn identity_consistent(identity: PublicIdentity) -> bool {
    identity.account@ == account_digest(identity.public_key@)
}

impl PublicIdentity {
    /// Refuses an identity whose account is not the one derived from its public key.
    pub fn verify_consistency(self) -> (r: VertexResult<()>)
        ensures
            identity_consistent(self) ==> r == Ok::<(), VertexError>(()),
            !identity_consistent(self) ==> r == Err::<(), VertexError>(
                VertexError::IdentityMismatch(self.account),
            ),
    {
        let expected = AccountId::from_public_key(self.public_key);
        if !same_account(&expected, &self.account) {
            return Err(VertexError::IdentityMismatch(self.account));
        }
        Ok(())
    }
}

/// Whether two account identifiers are equal.
pub(crate) fn same_account(a: &AccountId, b: &AccountId) -> (r: bool)
    ensures
        r == (*a == *b),
{
    a.same(b)
}

/// The digest that is signed for a payload under a domain.
pub open spec fn signing_digest_bytes(domain: Seq<u8>, payload: Seq<u8>) -> Seq<u8> {
    digest_of_one(domain, payload)
}

/// The digest that is signed for `payload` under `domain`: the domain-separated
/// hash of its canonical JSON encoding.
pub fn signing_digest<T: CanonicalJson>(domain: &str, payload: &T) -> (r: VertexResult<Digest>)
    ensures
        r is Ok,
        r matches Ok(d) ==> d@ == signing_digest_bytes(domain.spec_bytes(), payload.json()),
{
    Digest::from_serializable(domain, payload)
}

/// Why a signature over a payload would be refused, if it would.
pub open spec fn signature_refusal(
    identity: PublicIdentity,
    signature: SignatureBytes,
    domain: Seq<u8>,
    payload: Seq<u8>,
) -> Option<VertexError> {
    if !identity_consistent(identity) {
        Some(VertexError::IdentityMismatch(identity.account))
    } else if !ed25519_key_decodes(identity.public_key@) {
        Some(VertexError::InvalidPublicKey)
    } else if !ed25519_accepts(
        identity.public_key@,
        signing_digest_bytes(domain, payload),
        signature@,
    ) {
        Some(VertexError::InvalidSignature)
    } else {
        None
    }
}

/// Checks that `signature` is the identity's signature of `payload` under `domain`.
pub fn verify_signature<T: CanonicalJson>(
    identity: PublicIdentity,
    signature: SignatureBytes,
    domain: &str,
    payload: &T,
) -> (r: VertexResult<()>)
    ensures
        signature_refusal(identity, signature, domain.spec_bytes(), payload.json()) is None
            ==> r == Ok::<(), VertexError>(()),
        signature_refusal(identity, signature, domain.spec_bytes(), payload.json()) matches Some(
            e,
        ) ==> r == Err::<(), VertexError>(e),
{
    identity.verify_consistency()?;
    let digest = signing_digest(domain, payload)?;
    let message = digest.bytes();
    match ed25519_check(&identity.public_key, message.as_slice(), &signature.0) {
        Ed25519Verdict::MalformedKey => Err(VertexError::InvalidPublicKey),
        Ed25519Verdict::Rejected => Err(VertexError::InvalidSignature),
        Ed25519Verdict::Accepted => Ok(()),
    }
}

impl KeyPair {
    /// The secret seed of the key pair.
    pub closed spec fn seed(&self) -> Seq<u8> {
        self.seed@
    }

    /// The key pair of a 32-byte secret seed.
    pub fn from_seed(seed: [u8; 32]) -> (r: KeyPair)
        ensures
            r.seed() == seed@,
    {
        KeyPair { seed }
    }

    /// The public identity of the key pair: its public key and the account derived from it.
    pub fn public_identity(&self) -> (r: PublicIdentity)
        ensures
            r.public_key@ == ed25519_public_key(self.seed()),
            r.account@ == account_digest(r.public_key@),
            identity_consistent(r),
            ed25519_key_decodes(r.public_key@),
            r == identity_of(self.seed()),
    {
        let public_key = ed25519_derive_public_key(&self.seed);
        let r = PublicIdentity { account: AccountId::from_public_key(public_key), public_key };
        proof {
            lemma_array_of(public_key@);
            assert(r.public_key =~= array_of(public_key@));
            assert(r.account@ == identity_of(self.seed()).account@);
        }
        r
    }

    /// Signs the digest of `payload` under `domain`.
    pub fn sign<T: CanonicalJson>(&self, domain: &str, payload: &T) -> (r: VertexResult<
        SignatureBytes,
    >)
        ensures
            r is Ok,
            r matches Ok(s) ==> s@ == ed25519_signature(
                self.seed(),
                signing_digest_bytes(domain.spec_bytes(), payload.json()),
            ),
            r matches Ok(s) ==> ed25519_accepts(
                ed25519_public_key(self.seed()),
                signing_digest_bytes(domain.spec_bytes(), payload.json()),
                s@,
            ),
    {
        let digest = signing_digest(domain, payload)?;
        let message = digest.bytes();
        Ok(SignatureBytes::new(ed25519_sign(&self.seed, message.as_slice())))
    }
}

impl CanonicalJson for SignatureBytes {
    open spec fn json(&self) -> Seq<u8> {
        json_hex_string(self@)
    }

    fn write_json(&self, out: &mut Vec<u8>) {
        push_hex_string(out, self.0.as_slice());
    }
}

impl CanonicalJson for PublicIdentity {
    open spec fn json(&self) -> Seq<u8> {
        text("{\"account\":") + self.account.json() + text(",\"public_key\":") + json_byte_array(
            self.public_key@,
        ) + text("}")
    }

    fn write_json(&self, out: &mut Vec<u8>) {
        let mut buf: Vec<u8> = Vec::new();
        append_text(&mut buf, "{\"account\":");
        assert(buf@ =~= text("{\"account\":"));
        self.account.write_json(&mut buf);
        append_text(&mut buf, ",\"public_key\":");
        push_byte_array(&mut buf, self.public_key.as_slice());
        append_text(&mut buf, "}");
        assert(buf@ == self.json());
        out.append(&mut buf);
    }
}

} // verus!
