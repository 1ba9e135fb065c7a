use vstd::prelude::*;
use vstd::string::StringSliceAdditionalSpecFns;

use crate::error::{VertexError, VertexResult};

verus! {

/// The bytes of a text fragment.
pub open spec fn text(s: &str) -> Seq<u8> {
    s.spec_bytes()
}

/// The ASCII digit for `d < 10`.
pub open spec fn decimal_digit(d: nat) -> u8 {
    (48 + d) as u8
}

/// The decimal notation of `n`, most significant digit first, without leading zeros.
pub open spec fn decimal(n: nat) -> Seq<u8>
    decreases n,
{
    if n < 10 {
        seq![decimal_digit(n)]
    } else {
        decimal(n / 10).push(decimal_digit(n % 10))
    }
}

/// The lower-case hexadecimal digit for `d < 16`.
pub open spec fn hex_digit(d: nat) -> u8 {
    if d < 10 {
        (48 + d) as u8
    } else {
        (87 + d) as u8
    }
}

/// Lower-case hexadecimal notation of a byte string, two digits per byte.
pub open spec fn hex_lower(s: Seq<u8>) -> Seq<u8>
    decreases s.len(),
{
    if s.len() == 0 {
        Seq::empty()
    } else {
        hex_lower(s.drop_last()) + seq![hex_digit(s.last() as nat / 16), hex_digit(s.last() as nat % 16)]
    }
}

/// A JSON string holding the hexadecimal notation of `s`.
pub open spec fn json_hex_string(s: Seq<u8>) -> Seq<u8> {
    seq![34u8] + hex_lower(s) + seq![34u8]
}

/// The comma-separated decimal notation of each byte of `s`.
pub open spec fn byte_items(s: Seq<u8>) -> Seq<u8>
    decreases s.len(),
{
    if s.len() == 0 {
        Seq::empty()
    } else if s.len() == 1 {
        decimal(s[0] as nat)
    } else {
        byte_items(s.drop_last()) + seq![44u8] + decimal(s.last() as nat)
    }
}

/// A JSON array holding each byte of `s` as a number.
pub open spec fn json_byte_array(s: Seq<u8>) -> Seq<u8> {
    seq![91u8] + byte_items(s) + seq![93u8]
}

/// The JSON literal `null`.
pub open spec fn json_null() -> Seq<u8> {
    seq![110u8, 117u8, 108u8, 108u8]
}

/// The JSON literal for a boolean.
pub open spec fn json_bool(b: bool) -> Seq<u8> {
    if b {
        seq![116u8, 114u8, 117u8, 101u8]
    } else {
        seq![102u8, 97u8, 108u8, 115u8, 101u8]
    }
}

/// Appends `bytes` to `out`.
pub fn append_bytes(out: &mut Vec<u8>, bytes: &[u8])
    ensures
        final(out)@ == old(out)@ + bytes@,
{
    let n = bytes.len();
    let ghost start = out@;
    let mut i: usize = 0;
    while i < n
        invariant
            n == bytes@.len(),
            i <= n,
            out@ == start + bytes@.take(i as int),
        decreases n - i,
    {
        out.push(bytes[i]);
        i = i + 1;
        assert(out@ =~= start + bytes@.take(i as int));
    }
    assert(bytes@.take(n as int) =~= bytes@);
}

/// Appends one byte to `out`.
pub fn append_byte(out: &mut Vec<u8>, b: u8)
    ensures
        final(out)@ == old(out)@ + seq![b],
{
    let ghost start = out@;
    out.push(b);
    assert(out@ =~= start + seq![b]);
}

/// Appends two bytes to `out`.
pub fn append_two(out: &mut Vec<u8>, a: u8, b: u8)
    ensures
        final(out)@ == old(out)@ + seq![a, b],
{
    let ghost start = out@;
    out.push(a);
    out.push(b);
    assert(out@ =~= start + seq![a, b]);
}

/// Appends the bytes of a text fragment to `out`.
pub fn append_text(out: &mut Vec<u8>, s: &str)
    ensures
        final(out)@ == old(out)@ + text(s),
{
    append_bytes(out, s.as_bytes());
}

/// Appends the decimal notation of `v`.
pub fn push_decimal(out: &mut Vec<u8>, v: u128)
    ensures
        final(out)@ == old(out)@ + decimal(v as nat),
    decreases v,
{
    let ghost start = out@;
    if v >= 10 {
        push_decimal(out, v / 10);
    }
    let d: u8 = (v % 10) as u8;
    out.push(48u8 + d);
    if v >= 10 {
        assert(out@ =~= start + decimal(v as nat));
    } else {
        assert(out@ =~= start + decimal(v as nat));
    }
}

fn hex_char(d: u8) -> (r: u8)
    requires
        d < 16,
    ensures
        r == hex_digit(d as nat),
{
    if d < 10 {
        48u8 + d
    } else {
        87u8 + d
    }
}

/// Appends the lower-case hexadecimal notation of `bytes`.
pub fn push_hex(out: &mut Vec<u8>, bytes: &[u8])
    ensures
        final(out)@ == old(out)@ + hex_lower(bytes@),
{
    let n = bytes.len();
    let ghost start = out@;
    let mut i: usize = 0;
    assert(bytes@.take(0) =~= Seq::<u8>::empty());
    while i < n
        invariant
            n == bytes@.len(),
            i <= n,
            out@ == start + hex_lower(bytes@.take(i as int)),
        decreases n - i,
    {
        let b = bytes[i];
        out.push(hex_char(b / 16));
        out.push(hex_char(b % 16));
        proof {
            let t = bytes@.take(i + 1);
            assert(t.drop_last() =~= bytes@.take(i as int));
            assert(t.last() == b);
        }
        i = i + 1;
        assert(out@ =~= start + hex_lower(bytes@.take(i as int)));
    }
    assert(bytes@.take(n as int) =~= bytes@);
}

/// Appends a JSON string holding the hexadecimal notation of `bytes`.
pub fn push_hex_string(out: &mut Vec<u8>, bytes: &[u8])
    ensures
        final(out)@ == old(out)@ + json_hex_string(bytes@),
{
    let ghost start = out@;
    out.push(34u8);
    push_hex(out, bytes);
    out.push(34u8);
    assert(out@ =~= start + json_hex_string(bytes@));
}

/// Appends a JSON array holding each byte of `bytes` as a number.
pub fn push_byte_array(out: &mut Vec<u8>, bytes: &[u8])
    ensures
        final(out)@ == old(out)@ + json_byte_array(bytes@),
{
    let n = bytes.len();
    let ghost start = out@;
    out.push(91u8);
    let mut i: usize = 0;
    assert(bytes@.take(0) =~= Seq::<u8>::empty());
    while i < n
        invariant
            n == bytes@.len(),
            i <= n,
            out@ == start + seq![91u8] + byte_items(bytes@.take(i as int)),
        decreases n - i,
    {
        let ghost before = out@;
        if i > 0 {
            out.push(44u8);
        }
        push_decimal(out, bytes[i] as u128);
        proof {
            let t = bytes@.take(i + 1);
            assert(t.drop_last() =~= bytes@.take(i as int));
            assert(t.last() == bytes@[i as int]);
            if i == 0 {
                assert(t.len() == 1);
                assert(t[0] == bytes@[0]);
            }
        }
        i = i + 1;
        assert(out@ =~= start + seq![91u8] + byte_items(bytes@.take(i as int)));
    }
    out.push(93u8);
    assert(bytes@.take(n as int) =~= bytes@);
    assert(out@ =~= start + json_byte_array(bytes@));
}

/// Appends the JSON literal for a boolean.
pub fn push_bool(out: &mut Vec<u8>, b: bool)
    ensures
        final(out)@ == old(out)@ + json_bool(b),
{
    let ghost start = out@;
    if b {
        out.push(116u8);
        out.push(114u8);
        out.push(117u8);
        out.push(101u8);
    } else {
        out.push(102u8);
        out.push(97u8);
        out.push(108u8);
        out.push(115u8);
        out.push(101u8);
    }
    assert(out@ =~= start + json_bool(b));
}

/// Appends the JSON literal `null`.
pub fn push_null(out: &mut Vec<u8>)
    ensures
        final(out)@ == old(out)@ + json_null(),
{
    let ghost start = out@;
    out.push(110u8);
    out.push(117u8);
    out.push(108u8);
    out.push(108u8);
    assert(out@ =~= start + json_null());
}

/// Equal sequences that start with parts of equal length agree on those
/// parts and on what follows them.
pub proof fn lemma_split_equal(x: Seq<u8>, y: Seq<u8>, u: Seq<u8>, v: Seq<u8>)
    requires
        x + y == u + v,
        x.len() == u.len(),
    ensures
        x == u,
        y == v,
{
    assert(x =~= (x + y).subrange(0, x.len() as int));
    assert(u =~= (u + v).subrange(0, u.len() as int));
    assert(y =~= (x + y).subrange(x.len() as int, (x + y).len() as int));
    assert(v =~= (u + v).subrange(u.len() as int, (u + v).len() as int));
}

/// Equal sequences that end with the same bytes agree on what comes before.
pub proof fn lemma_cancel_suffix(x: Seq<u8>, u: Seq<u8>, t: Seq<u8>)
    requires
        x + t == u + t,
    ensures
        x == u,
{
    assert((x + t).len() == (u + t).len());
    assert((x + t).len() == x.len() + t.len());
    assert((u + t).len() == u.len() + t.len());
    lemma_split_equal(x, t, u, t);
}

/// Equal sequences that differ at most in one part, between the same bytes
/// before and after it, agree on that part.
pub proof fn lemma_middle_equal(h: Seq<u8>, x: Seq<u8>, y: Seq<u8>, t: Seq<u8>)
    requires
        h + x + t == h + y + t,
    ensures
        x == y,
{
    assert(h + x + t =~= h + (x + t));
    assert(h + y + t =~= h + (y + t));
    lemma_split_equal(h, x + t, h, y + t);
    lemma_cancel_suffix(x, y, t);
}

/// Decimal notation has at least one digit.
pub proof fn lemma_decimal_len(n: nat)
    ensures
        decimal(n).len() >= 1,
        n >= 10 ==> decimal(n).len() >= 2,
    decreases n,
{
    if n >= 10 {
        lemma_decimal_len(n / 10);
    }
}

/// Different numbers have different decimal notations.
pub proof fn lemma_decimal_injective(m: nat, n: nat)
    ensures
        decimal(m) == decimal(n) ==> m == n,
    decreases m,
{
    lemma_decimal_len(m);
    lemma_decimal_len(n);
    if decimal(m) == decimal(n) {
        if m >= 10 && n >= 10 {
            assert(decimal(m).drop_last() =~= decimal(m / 10));
            assert(decimal(n).drop_last() =~= decimal(n / 10));
            lemma_decimal_injective(m / 10, n / 10);
            assert(decimal(m).last() == decimal_digit(m % 10));
            assert(decimal(n).last() == decimal_digit(n % 10));
        } else if m < 10 && n < 10 {
            assert(decimal(m)[0] == decimal(n)[0]);
        }
    }
}

/// Hexadecimal notation has two digits per byte.
pub proof fn lemma_hex_len(s: Seq<u8>)
    ensures
        hex_lower(s).len() == 2 * s.len(),
    decreases s.len(),
{
    if s.len() > 0 {
        lemma_hex_len(s.drop_last());
    }
}

/// Byte strings of equal length with the same hexadecimal notation are equal.
pub proof fn lemma_hex_injective(a: Seq<u8>, b: Seq<u8>)
    requires
        a.len() == b.len(),
        hex_lower(a) == hex_lower(b),
    ensures
        a == b,
    decreases a.len(),
{
    if a.len() > 0 {
        lemma_hex_len(a.drop_last());
        lemma_hex_len(b.drop_last());
        let ta = seq![hex_digit(a.last() as nat / 16), hex_digit(a.last() as nat % 16)];
        let tb = seq![hex_digit(b.last() as nat / 16), hex_digit(b.last() as nat % 16)];
        lemma_split_equal(hex_lower(a.drop_last()), ta, hex_lower(b.drop_last()), tb);
        lemma_hex_injective(a.drop_last(), b.drop_last());
        assert(ta[0] == tb[0] && ta[1] == tb[1]);
        assert(a.last() as nat / 16 == b.last() as nat / 16);
        assert(a.last() as nat % 16 == b.last() as nat % 16);
        assert(a.last() == b.last());
        assert(a =~= a.drop_last().push(a.last()));
        assert(b =~= b.drop_last().push(b.last()));
    }
}

/// Two byte strings of equal length have the same JSON hexadecimal string
/// only when they are equal.
pub proof fn lemma_json_hex_injective(a: Seq<u8>, b: Seq<u8>)
    requires
        a.len() == b.len(),
        json_hex_string(a) == json_hex_string(b),
    ensures
        a == b,
        json_hex_string(a).len() == 2 * a.len() + 2,
{
    lemma_hex_len(a);
    lemma_hex_len(b);
    lemma_split_equal(seq![34u8] + hex_lower(a), seq![34u8], seq![34u8] + hex_lower(b), seq![34u8]);
    lemma_split_equal(seq![34u8], hex_lower(a), seq![34u8], hex_lower(b));
    lemma_hex_injective(a, b);
}

/// A value with a canonical JSON encoding: compact, with object members in
/// declaration order, identifiers as lower-case hexadecimal strings and
/// amounts as plain numbers.
pub trait CanonicalJson {
    /// The canonical JSON encoding of the value.
    spec fn json(&self) -> Seq<u8>;

    /// Appends the canonical JSON encoding of the value to `out`.
    fn write_json(&self, out: &mut Vec<u8>)
        ensures
            final(out)@ == old(out)@ + self.json(),
    ;
}

impl CanonicalJson for u32 {
    open spec fn json(&self) -> Seq<u8> {
        decimal(*self as nat)
    }

    fn write_json(&self, out: &mut Vec<u8>) {
        push_decimal(out, *self as u128);
    }
}

impl CanonicalJson for u64 {
    open spec fn json(&self) -> Seq<u8> {
        decimal(*self as nat)
    }

    fn write_json(&self, out: &mut Vec<u8>) {
        push_decimal(out, *self as u128);
    }
}

impl CanonicalJson for usize {
    open spec fn json(&self) -> Seq<u8> {
        decimal(*self as nat)
    }

    fn write_json(&self, out: &mut Vec<u8>) {
        push_decimal(out, *self as u128);
    }
}

impl CanonicalJson for bool {
    open spec fn json(&self) -> Seq<u8> {
        json_bool(*self)
    }

    fn write_json(&self, out: &mut Vec<u8>) {
        push_bool(out, *self);
    }
}

impl CanonicalJson for [u8; 32] {
    open spec fn json(&self) -> Seq<u8> {
        json_byte_array(self@)
    }

    fn write_json(&self, out: &mut Vec<u8>) {
        push_byte_array(out, self);
    }
}

/// The canonical JSON encoding of `value`, as bytes.
pub fn canonical_bytes<T: CanonicalJson>(value: &T) -> (r: VertexResult<Vec<u8>>)
    ensures
        r is Ok,
        r matches Ok(bytes) ==> bytes@ == value.json(),
{
    let mut out: Vec<u8> = Vec::new();
    value.write_json(&mut out);
    assert(out@ =~= value.json());
    Ok(out)
}

} // verus!
