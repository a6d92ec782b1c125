//! Unsigned LEB128 varints as used by the protobuf wire format and the frame
//! length prefix.
use vstd::prelude::*;

use crate::gateway::error::ProtocolError;

verus! {

/// 128 to the power `k`.
pub open spec fn pow128(k: nat) -> nat
    decreases k,
{
    if k == 0 { 1 } else { 128 * pow128((k - 1) as nat) }
}

/// The little-endian base-128 value of the payload bits of `s`.
pub open spec fn varint_value(s: Seq<u8>) -> nat
    decreases s.len(),
{
    if s.len() == 0 { 0 } else { (s[0] % 128) as nat + 128 * varint_value(s.drop_first()) }
}

/// The canonical (shortest) varint encoding of `v`.
pub open spec fn varint_encoding(v: nat) -> Seq<u8>
    decreases v,
{
    if v < 128 { seq![v as u8] } else { seq![(v % 128 + 128) as u8] + varint_encoding(v / 128) }
}

/// `s` is the shape of a length prefix: one to five bytes, every byte but the
/// last with its continuation bit set, and a fifth byte carrying at most four bits.
pub open spec fn prefix_shape(s: Seq<u8>) -> bool {
    &&& 1 <= s.len() <= 5
    &&& forall|i: int| 0 <= i < s.len() - 1 ==> #[trigger] s[i] >= 128
    &&& s[s.len() - 1] < 128
    &&& (s.len() == 5 ==> s[4] <= 15)
}

/// What decoding `s` as a canonical 32-bit length prefix yields.
pub open spec fn u32_prefix_result(s: Seq<u8>) -> Result<u32, ProtocolError> {
    if !prefix_shape(s) {
        Err(ProtocolError::InvalidLengthPrefix)
    } else if s.len() > 1 && s[s.len() - 1] == 0 {
        Err(ProtocolError::NonCanonicalVarint)
    } else {
        Ok(varint_value(s) as u32)
    }
}

/// The powers of 128 up to the fifth.
pub proof fn lemma_pow128_values()
    ensures
        pow128(0) == 1,
        pow128(1) == 128,
        pow128(2) == 16384,
        pow128(3) == 2097152,
        pow128(4) == 268435456,
        pow128(5) == 34359738368,
{
    reveal_with_fuel(pow128, 6);
}

pub proof fn lemma_pow128_positive(k: nat)
    ensures
        pow128(k) >= 1,
    decreases k,
{
    if k > 0 {
        lemma_pow128_positive((k - 1) as nat);
    }
}

/// A varint's value is below (last payload + 1) * 128^(len-1), and at least
/// last payload * 128^(len-1).
pub proof fn lemma_varint_value_bounds(s: Seq<u8>)
    requires
        s.len() >= 1,
    ensures
        varint_value(s) < ((s[s.len() - 1] % 128) as nat + 1) * pow128((s.len() - 1) as nat),
        varint_value(s) >= ((s[s.len() - 1] % 128) as nat) * pow128((s.len() - 1) as nat),
    decreases s.len(),
{
    let last = (s[s.len() - 1] % 128) as nat;
    lemma_pow128_values();
    if s.len() == 1 {
        assert(varint_value(s.drop_first()) == 0);
        assert(varint_value(s) == (s[0] % 128) as nat + 128 * varint_value(s.drop_first()));
    } else {
        let rest = s.drop_first();
        lemma_varint_value_bounds(rest);
        assert(rest[rest.len() - 1] == s[s.len() - 1]);
        let p = pow128((rest.len() - 1) as nat);
        assert(pow128((s.len() - 1) as nat) == 128 * p);
        let r = varint_value(rest);
        let b = (s[0] % 128) as nat;
        assert(r < (last + 1) * p);
        assert(r >= last * p);
        assert(varint_value(s) == b + 128 * r);
        assert(r + 1 <= (last + 1) * p);
        assert(128 * (r + 1) <= 128 * ((last + 1) * p)) by (nonlinear_arith)
            requires r + 1 <= (last + 1) * p;
        assert(128 * ((last + 1) * p) == (last + 1) * (128 * p)) by (nonlinear_arith);
        assert(128 * (last * p) == last * (128 * p)) by (nonlinear_arith);
        assert(128 * r >= 128 * (last * p)) by (nonlinear_arith)
            requires r >= last * p;
        assert(b < 128);
        assert(varint_value(s) < 128 * (r + 1));
        assert(varint_value(s) >= 128 * r);
    }
}

/// Decoding a varint suffix from the back: prepending a byte multiplies by 128.
proof fn lemma_varint_value_prepend(s: Seq<u8>, i: int)
    requires
        0 <= i < s.len(),
    ensures
        varint_value(s.subrange(i, s.len() as int)) == (s[i] % 128) as nat + 128
            * varint_value(s.subrange(i + 1, s.len() as int)),
{
    let sub = s.subrange(i, s.len() as int);
    assert(sub.drop_first() =~= s.subrange(i + 1, s.len() as int));
}

/// Computes the payload value of `bytes[start..end]`, which must fit in 64 bits.
pub(crate) fn varint_value_of(bytes: &[u8], start: usize, end: usize) -> (value: u64)
    requires
        start < end <= bytes@.len(),
        ((bytes@[end - 1] % 128) as nat + 1) * pow128((end - start - 1) as nat) <= u64::MAX + 1,
    ensures
        value == varint_value(bytes@.subrange(start as int, end as int)),
{
    let ghost s = bytes@;
    let mut value: u64 = 0;
    let mut i: usize = end;
    proof {
        assert(s.subrange(end as int, end as int).len() == 0);
    }
    while i > start
        invariant
            start <= i <= end <= s.len(),
            s == bytes@,
            ((s[end - 1] % 128) as nat + 1) * pow128((end - start - 1) as nat) <= u64::MAX + 1,
            value == varint_value(s.subrange(i as int, end as int)),
        decreases i,
    {
        let ghost next_sub = s.subrange(i - 1, end as int);
        proof {
            lemma_varint_value_prepend(s.subrange(0, end as int), i - 1);
            assert(s.subrange(0, end as int).subrange(i - 1, end as int) =~= next_sub);
            assert(s.subrange(0, end as int).subrange(i as int, end as int) =~= s.subrange(
                i as int,
                end as int,
            ));
            lemma_varint_value_bounds(next_sub);
            assert(next_sub[next_sub.len() - 1] == s[end - 1]);
            lemma_pow_mono((next_sub.len() - 1) as nat, (end - start - 1) as nat);
            let last = (s[end - 1] % 128) as nat + 1;
            assert(last * pow128((next_sub.len() - 1) as nat) <= last * pow128(
                (end - start - 1) as nat,
            )) by (nonlinear_arith)
                requires
                    pow128((next_sub.len() - 1) as nat) <= pow128((end - start - 1) as nat),
            ;
        }
        let b = bytes[i - 1];
        value = value * 128 + (b % 128) as u64;
        i = i - 1;
    }
    value
}

pub proof fn lemma_pow_mono(a: nat, b: nat)
    requires
        a <= b,
    ensures
        pow128(a) <= pow128(b),
    decreases b,
{
    if a < b {
        lemma_pow_mono(a, (b - 1) as nat);
        lemma_pow128_positive((b - 1) as nat);
    }
}

/// Decodes a canonical unsigned 32-bit varint that occupies all of `bytes`.
pub fn decode_canonical_u32_varint(bytes: &[u8]) -> (result: Result<u32, ProtocolError>)
    ensures
        result == u32_prefix_result(bytes@),
{
    let n = bytes.len();
    if n == 0 || n > 5 {
        return Err(ProtocolError::InvalidLengthPrefix);
    }
    let mut i: usize = 0;
    while i + 1 < n
        invariant
            1 <= n <= 5,
            n == bytes@.len(),
            i < n,
            forall|j: int| 0 <= j < i ==> #[trigger] bytes@[j] >= 128,
        decreases n - i,
    {
        if bytes[i] < 128 {
            return Err(ProtocolError::InvalidLengthPrefix);
        }
        i = i + 1;
    }
    let last = bytes[n - 1];
    if last >= 128 || (n == 5 && last > 15) {
        return Err(ProtocolError::InvalidLengthPrefix);
    }
    if n > 1 && last == 0 {
        return Err(ProtocolError::NonCanonicalVarint);
    }
    proof {
        lemma_pow128_values();
        assert(bytes@.subrange(0, n as int) =~= bytes@);
        lemma_varint_value_bounds(bytes@);
        let l = (last % 128) as nat + 1;
        let e = (n - 1) as nat;
        if n == 5 {
            assert(l <= 16);
            assert(l * pow128(e) <= 16 * 268435456) by (nonlinear_arith)
                requires l <= 16, pow128(e) == 268435456;
        } else {
            lemma_pow_mono(e, 3);
            assert(l <= 128);
            assert(l * pow128(e) <= 128 * 2097152) by (nonlinear_arith)
                requires l <= 128, pow128(e) <= 2097152;
        }
    }
    let value = varint_value_of(bytes, 0, n);
    Ok(value as u32)
}

/// The canonical encoding of `value`.
pub fn encode_u32_varint(value: u32, output: &mut Vec<u8>)
    ensures
        final(output)@ == old(output)@ + varint_encoding(value as nat),
{
    let mut rest = value;
    let ghost start = output@;
    while rest >= 128
        invariant
            start + varint_encoding(value as nat) == output@ + varint_encoding(rest as nat),
        decreases rest,
    {
        let byte = (rest % 128 + 128) as u8;
        proof {
            assert(varint_encoding(rest as nat) == seq![byte] + varint_encoding((rest / 128) as nat));
            assert(output@ + varint_encoding(rest as nat) =~= output@.push(byte) + varint_encoding(
                (rest / 128) as nat,
            ));
        }
        output.push(byte);
        rest = rest / 128;
    }
    proof {
        assert(varint_encoding(rest as nat) == seq![rest as u8]);
        assert(output@ + varint_encoding(rest as nat) =~= output@.push(rest as u8));
    }
    output.push(rest as u8);
}

/// The canonical encoding is decoded back to the same value: what `encode_u32_varint`
/// writes, `decode_canonical_u32_varint` reads back unchanged.
pub proof fn lemma_u32_varint_roundtrip(v: u32)
    ensures
        u32_prefix_result(varint_encoding(v as nat)) == Ok::<u32, ProtocolError>(v),
        1 <= varint_encoding(v as nat).len() <= 5,
{
    lemma_encoding_facts(v as nat);
    lemma_encoding_len_bound(v as nat, 5);
}

/// Shape facts of the canonical encoding: value, continuation bits, nonzero last byte.
pub proof fn lemma_encoding_facts(v: nat)
    ensures
        varint_value(varint_encoding(v)) == v,
        varint_encoding(v).len() >= 1,
        forall|i: int|
            0 <= i < varint_encoding(v).len() - 1 ==> #[trigger] varint_encoding(v)[i] >= 128,
        varint_encoding(v)[varint_encoding(v).len() - 1] < 128,
        varint_encoding(v).len() > 1 ==> varint_encoding(v)[varint_encoding(v).len() - 1] != 0,
        varint_encoding(v)[varint_encoding(v).len() - 1] as nat * pow128(
            (varint_encoding(v).len() - 1) as nat,
        ) <= v,
    decreases v,
{
    let s = varint_encoding(v);
    lemma_pow128_values();
    if v < 128 {
        assert(s == seq![v as u8]);
        assert(s.drop_first().len() == 0);
        assert(varint_value(s) == (s[0] % 128) as nat + 128 * varint_value(s.drop_first()));
    } else {
        let r = varint_encoding(v / 128);
        lemma_encoding_facts(v / 128);
        assert(s == seq![(v % 128 + 128) as u8] + r);
        assert(s.drop_first() =~= r);
        assert(forall|i: int| 0 < i < s.len() ==> s[i] == r[i - 1]);
        assert(s[0] == (v % 128 + 128) as u8);
        assert((s[0] % 128) as nat == v % 128);
        assert(varint_value(s) == (s[0] % 128) as nat + 128 * varint_value(s.drop_first()));
        let last = s[s.len() - 1];
        assert(last == r[r.len() - 1]);
        assert(pow128((s.len() - 1) as nat) == 128 * pow128((r.len() - 1) as nat));
        assert(last as nat * (128 * pow128((r.len() - 1) as nat)) == 128 * (last as nat * pow128(
            (r.len() - 1) as nat,
        ))) by (nonlinear_arith);
    }
}

/// A canonical encoding of a value below 2^(7k) has at most k bytes.
pub proof fn lemma_encoding_len_bound(v: nat, k: nat)
    requires
        k >= 1,
        v < pow128(k) || (k == 5 && v < 4294967296),
    ensures
        varint_encoding(v).len() <= k,
        k == 5 && v < 4294967296 && varint_encoding(v).len() == 5 ==> varint_encoding(v)[4] <= 15,
    decreases v,
{
    lemma_pow128_values();
    if v >= 128 {
        if k == 1 {
            assert(false);
        }
        let k1 = (k - 1) as nat;
        assert(pow128(k) == 128 * pow128(k1));
        if k == 5 && v >= pow128(k) {
            assert(false);
        }
        assert(v / 128 < pow128(k1));
        lemma_encoding_len_bound(v / 128, k1);
        if k == 5 && v < 4294967296 && varint_encoding(v).len() == 5 {
            let s = varint_encoding(v);
            let r = varint_encoding(v / 128);
            assert(s[4] == r[3]);
            lemma_encoding_facts(v / 128);
            lemma_encoding_facts(v);
            assert(s[4] as nat * pow128(4) <= v);
            if s[4] > 15 {
                assert(s[4] as nat * 268435456 >= 16 * 268435456) by (nonlinear_arith)
                    requires s[4] > 15;
            }
        }
    }
}

/// A byte string with every continuation bit but the last set, and no zero last
/// byte after the first, is the canonical encoding of its own value.
proof fn lemma_canonical_shape_is_encoding(s: Seq<u8>)
    requires
        s.len() >= 1,
        forall|i: int| 0 <= i < s.len() - 1 ==> #[trigger] s[i] >= 128,
        s[s.len() - 1] < 128,
        s.len() > 1 ==> s[s.len() - 1] != 0,
    ensures
        s == varint_encoding(varint_value(s)),
    decreases s.len(),
{
    let v = varint_value(s);
    if s.len() == 1 {
        assert(s.drop_first().len() == 0);
        assert(varint_value(s) == (s[0] % 128) as nat + 128 * varint_value(s.drop_first()));
        assert(varint_encoding(v) =~= s);
    } else {
        let rest = s.drop_first();
        assert(forall|i: int| 0 <= i < rest.len() - 1 ==> #[trigger] rest[i] == s[i + 1]);
        assert(forall|i: int| 0 <= i < rest.len() - 1 ==> #[trigger] rest[i] >= 128) by {
            assert forall|i: int| 0 <= i < rest.len() - 1 implies #[trigger] rest[i] >= 128 by {
                assert(rest[i] == s[i + 1]);
            }
        }
        assert(rest[rest.len() - 1] == s[s.len() - 1]);
        lemma_canonical_shape_is_encoding(rest);
        lemma_varint_value_bounds(rest);
        lemma_pow128_positive((rest.len() - 1) as nat);
        let last = (rest[rest.len() - 1] % 128) as nat;
        assert(last >= 1);
        assert(last * pow128((rest.len() - 1) as nat) >= 1) by (nonlinear_arith)
            requires last >= 1, pow128((rest.len() - 1) as nat) >= 1;
        let r = varint_value(rest);
        assert(r >= 1);
        let b = (s[0] % 128) as nat;
        assert(v == b + 128 * r);
        assert(v >= 128);
        assert(v % 128 == b && v / 128 == r) by (nonlinear_arith)
            requires v == b + 128 * r, b < 128;
        assert(s[0] >= 128);
        assert((v % 128 + 128) as u8 == s[0]);
        assert(varint_encoding(v) == seq![(v % 128 + 128) as u8] + varint_encoding(v / 128));
        assert(varint_encoding(v) =~= s);
    }
}

/// Only the canonical encoding decodes: any bytes that decode to `v` are exactly
/// what `encode_u32_varint` writes for `v`, one to five of them.
pub proof fn lemma_u32_varint_unique(bytes: Seq<u8>, v: u32)
    requires
        u32_prefix_result(bytes) == Ok::<u32, ProtocolError>(v),
    ensures
        bytes == varint_encoding(v as nat),
        1 <= bytes.len() <= 5,
{
    lemma_pow128_values();
    lemma_canonical_shape_is_encoding(bytes);
    lemma_varint_value_bounds(bytes);
    let n = bytes.len();
    let l = (bytes[n - 1] % 128) as nat + 1;
    let e = (n - 1) as nat;
    if n == 5 {
        assert(l * pow128(e) <= 16 * 268435456) by (nonlinear_arith)
            requires l <= 16, pow128(e) == 268435456;
    } else {
        lemma_pow_mono(e, 3);
        assert(l * pow128(e) <= 128 * 2097152) by (nonlinear_arith)
            requires l <= 128, pow128(e) <= 2097152;
    }
    assert(varint_value(bytes) < 4294967296);
    assert(varint_value(bytes) == v as nat);
}

} // verus!
