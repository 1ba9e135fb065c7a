use vstd::prelude::*;
use vstd::string::StringSliceAdditionalSpecFns;

use crate::codec::{
    append_bytes, canonical_bytes, json_hex_string, push_hex_string, CanonicalJson,
};
use crate::error::VertexResult;

verus! {

broadcast use vstd::array::group_array_axioms;

/// A 32-byte digest produced by the library's domain-separated hash.
#[derive(Copy, Clone, Debug, PartialEq, Eq, PartialOrd, Ord, Hash)]
pub struct Digest([u8; 32]);

/// The identifier of an account: the digest of its public key.
#[derive(Copy, Clone, Debug, PartialEq, Eq, PartialOrd, Ord, Hash)]
pub struct AccountId([u8; 32]);

/// The identifier of an asset.
#[derive(Copy, Clone, Debug, PartialEq, Eq, PartialOrd, Ord, Hash)]
pub struct AssetId([u8; 32]);

/// The identifier of a ticket.
#[derive(Copy, Clone, Debug, PartialEq, Eq, PartialOrd, Ord, Hash)]
pub struct TicketId([u8; 32]);

/// The identifier of a processed transaction.
#[derive(Copy, Clone, Debug, PartialEq, Eq, PartialOrd, Ord, Hash)]
pub struct TxId([u8; 32]);

impl View for Digest {
    type V = Seq<u8>;

    closed spec fn view(&self) -> Seq<u8> {
        self.0@
    }
}

impl View for AccountId {
    type V = Seq<u8>;

    closed spec fn view(&self) -> Seq<u8> {
        self.0@
    }
}

impl View for AssetId {
    type V = Seq<u8>;

    closed spec fn view(&self) -> Seq<u8> {
        self.0@
    }
}

impl View for TicketId {
    type V = Seq<u8>;

    closed spec fn view(&self) -> Seq<u8> {
        self.0@
    }
}

impl View for TxId {
    type V = Seq<u8>;

    closed spec fn view(&self) -> Seq<u8> {
        self.0@
    }
}

/// Every identifier is 32 bytes long, and two identifiers of a kind are equal
/// exactly when their bytes are.
pub broadcast proof fn lemma_digest_view(a: Digest, b: Digest)
    ensures
        #![trigger a@, b@]
        a@.len() == 32,
        (a@ == b@) == (a == b),
{
    if a@ == b@ {
        assert(a.0 =~= b.0);
    }
}

pub broadcast proof fn lemma_account_id_view(a: AccountId, b: AccountId)
    ensures
        #![trigger a@, b@]
        a@.len() == 32,
        (a@ == b@) == (a == b),
{
    if a@ == b@ {
        assert(a.0 =~= b.0);
    }
}

pub broadcast proof fn lemma_asset_id_view(a: AssetId, b: AssetId)
    ensures
        #![trigger a@, b@]
        a@.len() == 32,
        (a@ == b@) == (a == b),
{
    if a@ == b@ {
        assert(a.0 =~= b.0);
    }
}

pub broadcast proof fn lemma_ticket_id_view(a: TicketId, b: TicketId)
    ensures
        #![trigger a@, b@]
        a@.len() == 32,
        (a@ == b@) == (a == b),
{
    if a@ == b@ {
        assert(a.0 =~= b.0);
    }
}

pub broadcast proof fn lemma_tx_id_view(a: TxId, b: TxId)
    ensures
        #![trigger a@, b@]
        a@.len() == 32,
        (a@ == b@) == (a == b),
{
    if a@ == b@ {
        assert(a.0 =~= b.0);
    }
}


impl Digest {
    /// The value whose bytes are `s` (meaningful when `s` is 32 bytes long).
    pub closed spec fn from_view(s: Seq<u8>) -> Digest {
        Digest(array_of(s))
    }
}

pub broadcast proof fn lemma_digest_from_view(s: Seq<u8>)
    requires
        s.len() == 32,
    ensures
        (#[trigger] Digest::from_view(s))@ == s,
{
    lemma_array_of(s);
}

impl AccountId {
    /// The value whose bytes are `s` (meaningful when `s` is 32 bytes long).
    pub closed spec fn from_view(s: Seq<u8>) -> AccountId {
        AccountId(array_of(s))
    }
}

pub broadcast proof fn lemma_account_id_from_view(s: Seq<u8>)
    requires
        s.len() == 32,
    ensures
        (#[trigger] AccountId::from_view(s))@ == s,
{
    lemma_array_of(s);
}

impl AssetId {

    /// The value whose bytes are `s` (meaningful when `s` is 32 bytes long).
    pub closed spec fn from_view(s: Seq<u8>) -> AssetId {
        AssetId(array_of(s))
    }
}

pub broadcast proof fn lemma_asset_id_from_view(s: Seq<u8>)
    requires
        s.len() == 32,
    ensures
        (#[trigger] AssetId::from_view(s))@ == s,
{
    lemma_array_of(s);
}

impl TicketId {
    /// The value whose bytes are `s` (meaningful when `s` is 32 bytes long).
    pub closed spec fn from_view(s: Seq<u8>) -> TicketId {
        TicketId(array_of(s))
    }
}

pub broadcast proof fn lemma_ticket_id_from_view(s: Seq<u8>)
    requires
        s.len() == 32,
    ensures
        (#[trigger] TicketId::from_view(s))@ == s,
{
    lemma_array_of(s);
}

impl TxId {
    /// The value whose bytes are `s` (meaningful when `s` is 32 bytes long).
    pub closed spec fn from_view(s: Seq<u8>) -> TxId {
        TxId(array_of(s))
    }
}

pub broadcast proof fn lemma_tx_id_from_view(s: Seq<u8>)
    requires
        s.len() == 32,
    ensures
        (#[trigger] TxId::from_view(s))@ == s,
{
    lemma_array_of(s);
}

pub broadcast group group_id_views {
    lemma_digest_from_view,
    lemma_account_id_from_view,
    lemma_asset_id_from_view,
    lemma_ticket_id_from_view,
    lemma_tx_id_from_view,
    lemma_digest_view,
    lemma_account_id_view,
    lemma_asset_id_view,
    lemma_ticket_id_view,
    lemma_tx_id_view,
}


/// Different account identifiers have different canonical JSON.
pub proof fn lemma_account_json_injective(a: AccountId, b: AccountId)
    ensures
        a.json() == b.json() ==> a == b,
        a.json().len() == 66,
{
    lemma_account_id_view(a, b);
    crate::codec::lemma_hex_len(a@);
    if a.json() == b.json() {
        crate::codec::lemma_json_hex_injective(a@, b@);
    }
}

/// Different ticket identifiers have different canonical JSON.
pub proof fn lemma_ticket_id_json_injective(a: TicketId, b: TicketId)
    ensures
        a.json() == b.json() ==> a == b,
{
    lemma_ticket_id_view(a, b);
    if a.json() == b.json() {
        crate::codec::lemma_json_hex_injective(a@, b@);
    }
}

/// Different asset identifiers have different canonical JSON.
pub proof fn lemma_asset_id_json_injective(a: AssetId, b: AssetId)
    ensures
        a.json() == b.json() ==> a == b,
{
    lemma_asset_id_view(a, b);
    if a.json() == b.json() {
        crate::codec::lemma_json_hex_injective(a@, b@);
    }
}

/// Different digests have different canonical JSON.
pub proof fn lemma_digest_json_injective(a: Digest, b: Digest)
    ensures
        a.json() == b.json() ==> a == b,
{
    lemma_digest_view(a, b);
    if a.json() == b.json() {
        crate::codec::lemma_json_hex_injective(a@, b@);
    }
}

/// The 32-byte array holding the first 32 bytes of `s`.
pub open spec fn array_of(s: Seq<u8>) -> [u8; 32] {
    [s[0], s[1], s[2], s[3], s[4], s[5], s[6], s[7], s[8], s[9], s[10], s[11], s[12], s[13], s[14], s[15], s[16], s[17], s[18], s[19], s[20], s[21], s[22], s[23], s[24], s[25], s[26], s[27], s[28], s[29], s[30], s[31]]
}

/// The array built from 32 bytes holds exactly those bytes.
pub proof fn lemma_array_of(s: Seq<u8>)
    requires
        s.len() == 32,
    ensures
        array_of(s)@ == s,
{
    assert(array_of(s)@ =~= s);
}

// ---------------------------------------------------------------------------
// Byte order of identifiers
// ---------------------------------------------------------------------------

/// The outcome of comparing two keys.
#[derive(Copy, Clone, Debug, PartialEq, Eq)]
pub enum KeyOrder {
    Less,
    Equal,
    Greater,
}

/// Lexicographic order on byte strings of equal length: `a` comes first when,
/// at the first position where they differ, its byte is smaller.
pub open spec fn bytes_lt(a: Seq<u8>, b: Seq<u8>) -> bool {
    exists|i: int|
        #![trigger a[i], b[i]]
        0 <= i < a.len() && i < b.len() && a[i] < b[i] && forall|j: int|
            0 <= j < i ==> a[j] == b[j]
}

/// Byte order is transitive.
pub proof fn lemma_bytes_lt_transitive(a: Seq<u8>, b: Seq<u8>, c: Seq<u8>)
    requires
        bytes_lt(a, b),
        bytes_lt(b, c),
    ensures
        bytes_lt(a, c),
{
    let i = choose|i: int|
        #![trigger a[i], b[i]]
        0 <= i < a.len() && i < b.len() && a[i] < b[i] && forall|j: int|
            0 <= j < i ==> a[j] == b[j];
    let k = choose|k: int|
        #![trigger b[k], c[k]]
        0 <= k < b.len() && k < c.len() && b[k] < c[k] && forall|j: int|
            0 <= j < k ==> b[j] == c[j];
    if i < k {
        assert(a[i] < c[i]);
    } else if k < i {
        assert(a[k] < c[k]);
    } else {
        assert(a[i] < c[i]);
    }
}

/// Byte order is asymmetric, so ordered strings differ.
pub proof fn lemma_bytes_lt_asymmetric(a: Seq<u8>, b: Seq<u8>)
    requires
        bytes_lt(a, b),
    ensures
        !bytes_lt(b, a),
        a != b,
{
    if bytes_lt(b, a) {
        lemma_bytes_lt_transitive(a, b, a);
    }
}

/// Compares two 32-byte strings in lexicographic order.
pub fn compare_bytes(a: &[u8; 32], b: &[u8; 32]) -> (r: KeyOrder)
    ensures
        r == KeyOrder::Less ==> bytes_lt(a@, b@),
        r == KeyOrder::Equal ==> a@ == b@,
        r == KeyOrder::Greater ==> bytes_lt(b@, a@),
{
    let mut i: usize = 0;
    while i < 32
        invariant
            i <= 32,
            a@.len() == 32,
            b@.len() == 32,
            forall|j: int| 0 <= j < i ==> a@[j] == b@[j],
        decreases 32 - i,
    {
        if a[i] < b[i] {
            assert(a@[i as int] < b@[i as int]);
            return KeyOrder::Less;
        }
        if a[i] > b[i] {
            assert(b@[i as int] < a@[i as int]);
            return KeyOrder::Greater;
        }
        i = i + 1;
    }
    assert(a@ =~= b@);
    KeyOrder::Equal
}

/// Whether two 32-byte strings are equal.
fn bytes_equal(a: &[u8; 32], b: &[u8; 32]) -> (r: bool)
    ensures
        r == (a@ == b@),
{
    match compare_bytes(a, b) {
        KeyOrder::Equal => true,
        KeyOrder::Less => {
            proof {
                lemma_bytes_lt_asymmetric(a@, b@);
            }
            false
        },
        KeyOrder::Greater => {
            proof {
                lemma_bytes_lt_asymmetric(b@, a@);
            }
            false
        },
    }
}

impl AccountId {
    /// Whether two account identifiers are equal.
    pub(crate) fn same(&self, other: &AccountId) -> (r: bool)
        ensures
            r == (*self == *other),
    {
        let r = bytes_equal(&self.0, &other.0);
        proof {
            lemma_account_id_view(*self, *other);
        }
        r
    }
}

impl AssetId {
    /// Whether two asset identifiers are equal.
    pub(crate) fn same(&self, other: &AssetId) -> (r: bool)
        ensures
            r == (*self == *other),
    {
        let r = bytes_equal(&self.0, &other.0);
        proof {
            lemma_asset_id_view(*self, *other);
        }
        r
    }
}

impl Digest {
    /// Whether two digests are equal.
    pub(crate) fn same(&self, other: &Digest) -> (r: bool)
        ensures
            r == (*self == *other),
    {
        let r = bytes_equal(&self.0, &other.0);
        proof {
            lemma_digest_view(*self, *other);
        }
        r
    }
}

/// A 32-byte identifier that can key a sorted table.
pub trait TableKey: Copy + Sized {
    /// The bytes of the key.
    spec fn key_bytes(&self) -> Seq<u8>;

    /// Compares two keys by their bytes.
    fn key_compare(&self, other: &Self) -> (r: KeyOrder)
        ensures
            r == KeyOrder::Less ==> bytes_lt(self.key_bytes(), other.key_bytes()),
            r == KeyOrder::Equal ==> *self == *other,
            r == KeyOrder::Greater ==> bytes_lt(other.key_bytes(), self.key_bytes()),
    ;

    /// Keys are 32 bytes long, and equal bytes mean equal keys.
    proof fn lemma_key_bytes(a: Self, b: Self)
        ensures
            a.key_bytes().len() == 32,
            (a.key_bytes() == b.key_bytes()) == (a == b),
    ;
}

impl TableKey for AccountId {
    open spec fn key_bytes(&self) -> Seq<u8> {
        self@
    }

    fn key_compare(&self, other: &Self) -> (r: KeyOrder) {
        let r = compare_bytes(&self.0, &other.0);
        proof {
            lemma_account_id_view(*self, *other);
        }
        r
    }

    proof fn lemma_key_bytes(a: Self, b: Self) {
        lemma_account_id_view(a, b);
    }
}

impl TableKey for TicketId {
    open spec fn key_bytes(&self) -> Seq<u8> {
        self@
    }

    fn key_compare(&self, other: &Self) -> (r: KeyOrder) {
        let r = compare_bytes(&self.0, &other.0);
        proof {
            lemma_ticket_id_view(*self, *other);
        }
        r
    }

    proof fn lemma_key_bytes(a: Self, b: Self) {
        lemma_ticket_id_view(a, b);
    }
}

impl TableKey for TxId {
    open spec fn key_bytes(&self) -> Seq<u8> {
        self@
    }

    fn key_compare(&self, other: &Self) -> (r: KeyOrder) {
        let r = compare_bytes(&self.0, &other.0);
        proof {
            lemma_tx_id_view(*self, *other);
        }
        r
    }

    proof fn lemma_key_bytes(a: Self, b: Self) {
        lemma_tx_id_view(a, b);
    }
}

// ---------------------------------------------------------------------------
// Domain-separated hashing
// ---------------------------------------------------------------------------

/// The BLAKE3 hash (32 bytes) of `input`, as `blake3::hash` computes it.
pub uninterp spec fn blake3_digest(input: Seq<u8>) -> Seq<u8>;

/// Calls `blake3::hash`: the contract names the 32-byte result `blake3_digest`
/// of the input bytes and claims nothing else of it.
#[verifier::external_body]
fn blake3_hash(input: &[u8]) -> (out: [u8; 32])
    ensures
        out@ == blake3_digest(input@),
{
    *blake3::hash(input).as_bytes()
}

/// The eight big-endian bytes of `v`.
pub open spec fn be_u64(v: nat) -> Seq<u8> {
    seq![
        ((v / 0x100000000000000) % 256) as u8,
        ((v / 0x1000000000000) % 256) as u8,
        ((v / 0x10000000000) % 256) as u8,
        ((v / 0x100000000) % 256) as u8,
        ((v / 0x1000000) % 256) as u8,
        ((v / 0x10000) % 256) as u8,
        ((v / 0x100) % 256) as u8,
        (v % 256) as u8,
    ]
}

/// The four big-endian bytes of `v`.
pub open spec fn be_u32(v: nat) -> Seq<u8> {
    seq![
        ((v / 0x1000000) % 256) as u8,
        ((v / 0x10000) % 256) as u8,
        ((v / 0x100) % 256) as u8,
        (v % 256) as u8,
    ]
}

/// The big-endian bytes of a `u64`, as `u64::to_be_bytes` gives them.
pub fn u64_be_bytes(v: u64) -> (r: [u8; 8])
    ensures
        r@ == be_u64(v as nat),
{
    let r = [
        ((v / 0x100000000000000) % 256) as u8,
        ((v / 0x1000000000000) % 256) as u8,
        ((v / 0x10000000000) % 256) as u8,
        ((v / 0x100000000) % 256) as u8,
        ((v / 0x1000000) % 256) as u8,
        ((v / 0x10000) % 256) as u8,
        ((v / 0x100) % 256) as u8,
        (v % 256) as u8,
    ];
    assert(r@ =~= be_u64(v as nat));
    r
}

/// The big-endian bytes of a `u32`, as `u32::to_be_bytes` gives them.
pub fn u32_be_bytes(v: u32) -> (r: [u8; 4])
    ensures
        r@ == be_u32(v as nat),
{
    let r = [
        ((v / 0x1000000) % 256) as u8,
        ((v / 0x10000) % 256) as u8,
        ((v / 0x100) % 256) as u8,
        (v % 256) as u8,
    ];
    assert(r@ =~= be_u32(v as nat));
    r
}

/// Each part preceded by its length as eight big-endian bytes.
pub open spec fn frame_parts(parts: Seq<Seq<u8>>) -> Seq<u8>
    decreases parts.len(),
{
    if parts.len() == 0 {
        Seq::empty()
    } else {
        frame_parts(parts.drop_last()) + be_u64(parts.last().len()) + parts.last()
    }
}

/// The hash input for a domain and its parts: the domain's bytes, a zero byte,
/// then each part framed by its length.
pub open spec fn framed(domain: Seq<u8>, parts: Seq<Seq<u8>>) -> Seq<u8> {
    domain + seq![0u8] + frame_parts(parts)
}

/// The digest of a domain and its parts.
pub open spec fn digest_of(domain: Seq<u8>, parts: Seq<Seq<u8>>) -> Seq<u8> {
    blake3_digest(framed(domain, parts))
}

/// The digest of a domain and one part.
pub open spec fn digest_of_one(domain: Seq<u8>, part: Seq<u8>) -> Seq<u8> {
    digest_of(domain, seq![part])
}

/// The bytes of an account identifier derived from a public key.
pub open spec fn account_digest(public_key: Seq<u8>) -> Seq<u8> {
    digest_of_one("vertex-account-v1".spec_bytes(), public_key)
}

/// The bytes of a ticket identifier derived from its parts.
pub open spec fn ticket_digest(
    network_id: u32,
    payer: Seq<u8>,
    beneficiary: Seq<u8>,
    nonce: u64,
    salt: Seq<u8>,
) -> Seq<u8> {
    digest_of(
        "vertex-ticket-id-v2".spec_bytes(),
        seq![be_u32(network_id as nat), payer, beneficiary, be_u64(nonce as nat), salt],
    )
}

/// The framed input of a single-part digest determines the part: two parts
/// framed under one domain give the same input only when they are equal.
pub proof fn lemma_framed_one_injective(domain: Seq<u8>, x: Seq<u8>, y: Seq<u8>)
    ensures
        framed(domain, seq![x]) == framed(domain, seq![y]) ==> x == y,
{
    lemma_framed_one(domain, x);
    lemma_framed_one(domain, y);
    lemma_be_lengths(x.len() as nat);
    lemma_be_lengths(y.len() as nat);
    if framed(domain, seq![x]) == framed(domain, seq![y]) {
        let h = domain + seq![0u8];
        assert(framed(domain, seq![x]) =~= h + (be_u64(x.len() as nat) + x));
        assert(framed(domain, seq![y]) =~= h + (be_u64(y.len() as nat) + y));
        crate::codec::lemma_split_equal(h, be_u64(x.len() as nat) + x, h, be_u64(y.len() as nat) + y);
        crate::codec::lemma_split_equal(be_u64(x.len() as nat), x, be_u64(y.len() as nat), y);
    }
}

/// The framing of one part, spelled out.
proof fn lemma_framed_one(domain: Seq<u8>, x: Seq<u8>)
    ensures
        framed(domain, seq![x]) == domain + seq![0u8] + be_u64(x.len() as nat) + x,
{
    assert(seq![x].drop_last() =~= Seq::<Seq<u8>>::empty());
    assert(frame_parts(Seq::<Seq<u8>>::empty()) == Seq::<u8>::empty());
    assert(frame_parts(seq![x]) =~= be_u64(x.len() as nat) + x);
    assert(framed(domain, seq![x]) =~= domain + seq![0u8] + be_u64(x.len() as nat) + x);
}

/// An account identifier is the BLAKE3 hash of an input that carries the
/// public key at bytes 26..58; so different public keys hash different inputs.
pub proof fn lemma_account_digest_commits(public_key: Seq<u8>)
    requires
        public_key.len() == 32,
    ensures
        exists|input: Seq<u8>|
            #![trigger blake3_digest(input)]
            account_digest(public_key) == blake3_digest(input) && input.len() == 58 && input.subrange(
                26,
                58,
            ) == public_key,
{
    let d = "vertex-account-v1".spec_bytes();
    assert(d.len() == 17) by {
        reveal_strlit("vertex-account-v1");
        assert(vstd::string::is_ascii("vertex-account-v1"));
        vstd::string::is_ascii_spec_bytes("vertex-account-v1");
    }
    lemma_framed_one(d, public_key);
    lemma_be_lengths(32);
    let input = d + seq![0u8] + be_u64(32) + public_key;
    assert(input.subrange(26, 58) =~= public_key);
    assert(account_digest(public_key) == blake3_digest(input));
}

/// A ticket identifier is the BLAKE3 hash of an input that carries each of
/// its parts at a place of its own: the network at bytes 28..32, the payer at
/// 40..72, the beneficiary at 80..112, the nonce at 120..128 and the salt at
/// 136..168. So two tickets that differ in any part (a different payer, say)
/// hash different inputs.
#[verifier::spinoff_prover]
pub proof fn lemma_ticket_digest_commits(
    network_id: u32,
    payer: Seq<u8>,
    beneficiary: Seq<u8>,
    nonce: u64,
    salt: Seq<u8>,
)
    requires
        payer.len() == 32,
        beneficiary.len() == 32,
        salt.len() == 32,
    ensures
        exists|input: Seq<u8>|
            #![trigger blake3_digest(input)]
            ticket_digest(network_id, payer, beneficiary, nonce, salt) == blake3_digest(input)
                && input.len() == 168 && input.subrange(28, 32) == be_u32(network_id as nat)
                && input.subrange(40, 72) == payer && input.subrange(80, 112) == beneficiary
                && input.subrange(120, 128) == be_u64(nonce as nat) && input.subrange(136, 168)
                == salt,
{
    let d = "vertex-ticket-id-v2".spec_bytes();
    assert(d.len() == 19) by {
        reveal_strlit("vertex-ticket-id-v2");
        assert(vstd::string::is_ascii("vertex-ticket-id-v2"));
        vstd::string::is_ascii_spec_bytes("vertex-ticket-id-v2");
    }
    let n4 = be_u32(network_id as nat);
    let k8 = be_u64(nonce as nat);
    lemma_be_lengths(network_id as nat);
    lemma_be_lengths(nonce as nat);
    lemma_be_lengths(4);
    lemma_be_lengths(8);
    lemma_be_lengths(32);
    lemma_ticket_input_shape(d, n4, payer, beneficiary, k8, salt);
    lemma_ticket_input_places(d, be_u64(4), n4, be_u64(32), payer, be_u64(32), beneficiary, be_u64(8), k8, be_u64(32), salt);
    let input = d + seq![0u8] + be_u64(4) + n4 + be_u64(32) + payer + be_u64(32) + beneficiary + be_u64(8) + k8
        + be_u64(32) + salt;
    assert(ticket_digest(network_id, payer, beneficiary, nonce, salt) == blake3_digest(input));
}

/// Big-endian encodings have a fixed length.
proof fn lemma_be_lengths(v: nat)
    ensures
        be_u64(v).len() == 8,
        be_u32(v).len() == 4,
{
}

/// The framing of five parts, spelled out.
#[verifier::spinoff_prover]
proof fn lemma_ticket_input_shape(d: Seq<u8>, n4: Seq<u8>, p: Seq<u8>, b: Seq<u8>, k8: Seq<u8>, s: Seq<u8>)
    ensures
        framed(d, seq![n4, p, b, k8, s]) == d + seq![0u8] + be_u64(n4.len() as nat) + n4 + be_u64(
            p.len() as nat,
        ) + p + be_u64(b.len() as nat) + b + be_u64(k8.len() as nat) + k8 + be_u64(s.len() as nat) + s,
{
    let q0 = seq![n4];
    let q1 = q0.push(p);
    let q2 = q1.push(b);
    let q3 = q2.push(k8);
    let q4 = q3.push(s);
    assert(q4 =~= seq![n4, p, b, k8, s]);
    assert(q0.drop_last() =~= Seq::<Seq<u8>>::empty());
    assert(q1.drop_last() =~= q0);
    assert(q2.drop_last() =~= q1);
    assert(q3.drop_last() =~= q2);
    assert(q4.drop_last() =~= q3);
    assert(frame_parts(Seq::<Seq<u8>>::empty()) == Seq::<u8>::empty());
    assert(frame_parts(q0) =~= be_u64(n4.len() as nat) + n4);
    assert(frame_parts(q1) == frame_parts(q0) + be_u64(p.len() as nat) + p);
    assert(frame_parts(q2) == frame_parts(q1) + be_u64(b.len() as nat) + b);
    assert(frame_parts(q3) == frame_parts(q2) + be_u64(k8.len() as nat) + k8);
    assert(frame_parts(q4) == frame_parts(q3) + be_u64(s.len() as nat) + s);
    assert(d + seq![0u8] + frame_parts(q4) =~= d + seq![0u8] + be_u64(n4.len() as nat) + n4 + be_u64(
        p.len() as nat,
    ) + p + be_u64(b.len() as nat) + b + be_u64(k8.len() as nat) + k8 + be_u64(s.len() as nat) + s);
}

/// Where each part sits in the framed input of a ticket identifier.
#[verifier::spinoff_prover]
proof fn lemma_ticket_input_places(
    d: Seq<u8>,
    l0: Seq<u8>,
    n4: Seq<u8>,
    l1: Seq<u8>,
    p: Seq<u8>,
    l2: Seq<u8>,
    b: Seq<u8>,
    l3: Seq<u8>,
    k8: Seq<u8>,
    l4: Seq<u8>,
    s: Seq<u8>,
)
    requires
        d.len() == 19,
        l0.len() == 8,
        n4.len() == 4,
        l1.len() == 8,
        p.len() == 32,
        l2.len() == 8,
        b.len() == 32,
        l3.len() == 8,
        k8.len() == 8,
        l4.len() == 8,
        s.len() == 32,
    ensures
        ({
            let input = d + seq![0u8] + l0 + n4 + l1 + p + l2 + b + l3 + k8 + l4 + s;
            &&& input.len() == 168
            &&& input.subrange(28, 32) == n4
            &&& input.subrange(40, 72) == p
            &&& input.subrange(80, 112) == b
            &&& input.subrange(120, 128) == k8
            &&& input.subrange(136, 168) == s
        }),
{
    let input = d + seq![0u8] + l0 + n4 + l1 + p + l2 + b + l3 + k8 + l4 + s;
    assert(input.subrange(28, 32) =~= n4);
    assert(input.subrange(40, 72) =~= p);
    assert(input.subrange(80, 112) =~= b);
    assert(input.subrange(120, 128) =~= k8);
    assert(input.subrange(136, 168) =~= s);
}

impl Digest {
    /// Hashes `domain`, a zero byte, and each part preceded by its length.
    pub fn from_parts(domain: &str, parts: &[&[u8]]) -> (r: Digest)
        ensures
            r@ == digest_of(domain.spec_bytes(), parts@.map_values(|p: &[u8]| p@)),
    {
        let ghost views = parts@.map_values(|p: &[u8]| p@);
        let mut input: Vec<u8> = Vec::new();
        append_bytes(&mut input, domain.as_bytes());
        input.push(0u8);
        let ghost head = input@;
        assert(head =~= domain.spec_bytes() + seq![0u8]);
        let n = parts.len();
        let mut i: usize = 0;
        assert(views.take(0) =~= Seq::<Seq<u8>>::empty());
        while i < n
            invariant
                n == parts@.len(),
                views == parts@.map_values(|p: &[u8]| p@),
                i <= n,
                input@ == head + frame_parts(views.take(i as int)),
            decreases n - i,
        {
            let part: &[u8] = parts[i];
            let len_bytes = u64_be_bytes(part.len() as u64);
            append_bytes(&mut input, &len_bytes);
            append_bytes(&mut input, part);
            proof {
                let t = views.take(i + 1);
                assert(t.drop_last() =~= views.take(i as int));
                assert(t.last() == part@);
                assert(input@ =~= head + frame_parts(views.take(i + 1)));
            }
            i = i + 1;
        }
        assert(views.take(n as int) =~= views);
        Digest(blake3_hash(input.as_slice()))
    }

    /// Hashes `domain` with the canonical JSON encoding of `value`.
    pub fn from_serializable<T: CanonicalJson>(domain: &str, value: &T) -> (r: VertexResult<
        Digest,
    >)
        ensures
            r is Ok,
            r matches Ok(d) ==> d@ == digest_of_one(domain.spec_bytes(), value.json()),
    {
        let bytes = canonical_bytes(value)?;
        let parts: [&[u8]; 1] = [bytes.as_slice()];
        let d = Digest::from_parts(domain, &parts);
        assert(parts@.map_values(|p: &[u8]| p@) =~= seq![value.json()]);
        Ok(d)
    }

    /// The all-zero digest.
    pub fn zero() -> (r: Digest)
        ensures
            r@ == Seq::new(32, |i: int| 0u8),
    {
        let r = Digest([0u8; 32]);
        assert(r@ =~= Seq::new(32, |i: int| 0u8));
        r
    }

    /// The 32 bytes of the digest.
    pub fn bytes(self) -> (r: [u8; 32])
        ensures
            r@ == self@,
    {
        self.0
    }
}

impl AccountId {
    /// The account identifier of a public key.
    pub fn from_public_key(public_key: [u8; 32]) -> (r: AccountId)
        ensures
            r@ == account_digest(public_key@),
    {
        let parts: [&[u8]; 1] = [public_key.as_slice()];
        let d = Digest::from_parts("vertex-account-v1", &parts);
        assert(parts@.map_values(|p: &[u8]| p@) =~= seq![public_key@]);
        AccountId(d.bytes())
    }

    /// The account identifier with the given bytes.
    pub fn from_bytes(bytes: [u8; 32]) -> (r: AccountId)
        ensures
            r@ == bytes@,
    {
        AccountId(bytes)
    }
}

impl AssetId {

    /// The identifier of the ledger's native asset.
    pub fn native() -> (r: AssetId)
        ensures
            r@ == digest_of_one("vertex-native-asset-v1".spec_bytes(), "vtx".spec_bytes()),
    {
        let parts: [&[u8]; 1] = ["vtx".as_bytes()];
        let d = Digest::from_parts("vertex-native-asset-v1", &parts);
        assert(parts@.map_values(|p: &[u8]| p@) =~= seq!["vtx".spec_bytes()]);
        AssetId(d.bytes())
    }
}

impl TicketId {
    /// The ticket identifier fixed by the network, both parties, the payer's nonce and a salt.
    pub fn derive(
        network_id: u32,
        payer: AccountId,
        beneficiary: AccountId,
        nonce: u64,
        salt: Digest,
    ) -> (r: TicketId)
        ensures
            r@ == ticket_digest(network_id, payer@, beneficiary@, nonce, salt@),
    {
        let network_bytes = u32_be_bytes(network_id);
        let nonce_bytes = u64_be_bytes(nonce);
        let salt_bytes = salt.bytes();
        let parts: [&[u8]; 5] = [
            network_bytes.as_slice(),
            payer.0.as_slice(),
            beneficiary.0.as_slice(),
            nonce_bytes.as_slice(),
            salt_bytes.as_slice(),
        ];
        let d = Digest::from_parts("vertex-ticket-id-v2", &parts);
        assert(parts@.map_values(|p: &[u8]| p@) =~= seq![
            be_u32(network_id as nat),
            payer@,
            beneficiary@,
            be_u64(nonce as nat),
            salt@,
        ]);
        TicketId(d.bytes())
    }
}

impl TxId {
    /// The transaction identifier of a value: its digest under `domain`.
    pub fn from_serializable<T: CanonicalJson>(domain: &str, value: &T) -> (r: VertexResult<TxId>)
        ensures
            r is Ok,
            r matches Ok(t) ==> t@ == digest_of_one(domain.spec_bytes(), value.json()),
    {
        let d = Digest::from_serializable(domain, value)?;
        Ok(TxId(d.bytes()))
    }
}

impl CanonicalJson for Digest {
    open spec fn json(&self) -> Seq<u8> {
        json_hex_string(self@)
    }

    fn write_json(&self, out: &mut Vec<u8>) {
        push_hex_string(out, self.0.as_slice());
    }
}

impl CanonicalJson for AccountId {
    open spec fn json(&self) -> Seq<u8> {
        json_hex_string(self@)
    }

    fn write_json(&self, out: &mut Vec<u8>) {
        push_hex_string(out, self.0.as_slice());
    }
}

impl CanonicalJson for AssetId {
    open spec fn json(&self) -> Seq<u8> {
        json_hex_string(self@)
    }

    fn write_json(&self, out: &mut Vec<u8>) {
        push_hex_string(out, self.0.as_slice());
    }
}

impl CanonicalJson for TicketId {
    open spec fn json(&self) -> Seq<u8> {
        json_hex_string(self@)
    }

    fn write_json(&self, out: &mut Vec<u8>) {
        push_hex_string(out, self.0.as_slice());
    }
}

impl CanonicalJson for TxId {
    open spec fn json(&self) -> Seq<u8> {
        json_hex_string(self@)
    }

    fn write_json(&self, out: &mut Vec<u8>) {
        push_hex_string(out, self.0.as_slice());
    }
}

} // verus!
