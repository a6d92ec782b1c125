//! Byte-level text helpers shared by the parsers and validators.
use vstd::prelude::*;
use vstd::utf8::{encode_utf8, valid_utf8};

verus! {

/// `String::from_utf8`: the bytes as a `String` when they are valid UTF-8.
/// Claimed of std: the conversion succeeds exactly on valid UTF-8 input and the
/// string then holds exactly those bytes.
#[verifier::external_body]
pub(crate) fn string_from_utf8(bytes: Vec<u8>) -> (text: Option<String>)
    ensures
        text is Some <==> valid_utf8(bytes@),
        text matches Some(s) ==> encode_utf8(s@) == bytes@,
{
    String::from_utf8(bytes).ok()
}

/// Bytes below 128 are ASCII and always valid UTF-8.
pub proof fn lemma_ascii_valid_utf8(bytes: Seq<u8>)
    requires
        forall|i: int| 0 <= i < bytes.len() ==> #[trigger] bytes[i] < 128,
    ensures
        valid_utf8(bytes),
{
    assert(bytes.subrange(0, 0) =~= Seq::<u8>::empty());
    assert(vstd::utf8::partial_valid_utf8(bytes, 0));
    assert forall|i: int| 0 <= 0 <= i < bytes.len() <= bytes.len() implies #[trigger]
        vstd::utf8::is_leading_byte_width_1(bytes[i]) by {
        assert(bytes[i] < 128);
    }
    vstd::utf8::partial_valid_utf8_extend_ascii_block(bytes, 0, bytes.len() as int);
    assert(bytes.subrange(0, bytes.len() as int) =~= bytes);
}

/// Whether two byte strings are equal.
pub fn bytes_equal(a: &[u8], b: &[u8]) -> (equal: bool)
    ensures
        equal == (a@ == b@),
{
    if a.len() != b.len() {
        return false;
    }
    let mut i: usize = 0;
    while i < a.len()
        invariant
            i <= a@.len(),
            a@.len() == b@.len(),
            forall|j: int| 0 <= j < i ==> a@[j] == b@[j],
        decreases a@.len() - i,
    {
        if a[i] != b[i] {
            return false;
        }
        i = i + 1;
    }
    proof {
        assert(a@ =~= b@);
    }
    true
}

pub open spec fn is_ascii_digit(b: u8) -> bool {
    48 <= b <= 57
}

pub open spec fn is_ascii_lowercase(b: u8) -> bool {
    97 <= b <= 122
}

pub open spec fn is_ascii_uppercase(b: u8) -> bool {
    65 <= b <= 90
}

pub open spec fn is_ascii_alphanumeric(b: u8) -> bool {
    is_ascii_digit(b) || is_ascii_lowercase(b) || is_ascii_uppercase(b)
}

/// The ASCII lower-case form of a byte.
pub open spec fn ascii_lower(b: u8) -> u8 {
    if is_ascii_uppercase(b) {
        (b + 32) as u8
    } else {
        b
    }
}

pub fn is_alphanumeric_byte(b: u8) -> (r: bool)
    ensures
        r == is_ascii_alphanumeric(b),
{
    (b >= 48 && b <= 57) || (b >= 97 && b <= 122) || (b >= 65 && b <= 90)
}

pub fn to_lower_byte(b: u8) -> (r: u8)
    ensures
        r == ascii_lower(b),
{
    if b >= 65 && b <= 90 {
        b + 32
    } else {
        b
    }
}

/// Appends `bytes` to `out`.
pub fn append_bytes(out: &mut Vec<u8>, bytes: &[u8])
    ensures
        final(out)@ == old(out)@ + bytes@,
{
    let mut i: usize = 0;
    while i < bytes.len()
        invariant
            i <= bytes@.len(),
            out@ == old(out)@ + bytes@.subrange(0, i as int),
        decreases bytes@.len() - i,
    {
        out.push(bytes[i]);
        proof {
            assert(old(out)@ + bytes@.subrange(0, i + 1) =~= (old(out)@ + bytes@.subrange(0, i as int)).push(bytes@[i as int]));
        }
        i = i + 1;
    }
    proof {
        assert(bytes@.subrange(0, bytes@.len() as int) =~= bytes@);
    }
}

/// The big-endian bytes of a 16-bit value.
pub open spec fn be16(v: u16) -> Seq<u8> {
    seq![(v / 256) as u8, (v % 256) as u8]
}

pub fn be16_bytes(v: u16) -> (bytes: [u8; 2])
    ensures
        bytes@ == be16(v),
{
    let bytes = [(v / 256) as u8, (v % 256) as u8];
    assert(bytes@ =~= be16(v));
    bytes
}

/// The big-endian bytes of a 32-bit value.
pub open spec fn be32(v: u32) -> Seq<u8> {
    seq![(v / 16777216) as u8, ((v / 65536) % 256) as u8, ((v / 256) % 256) as u8, (v % 256) as u8]
}

pub fn be32_bytes(v: u32) -> (bytes: [u8; 4])
    ensures
        bytes@ == be32(v),
{
    let bytes = [(v / 16777216) as u8, ((v / 65536) % 256) as u8, ((v / 256) % 256) as u8, (v % 256) as u8];
    assert(bytes@ =~= be32(v));
    bytes
}

/// The UTF-8 bytes of a string.
pub open spec fn text_bytes(s: String) -> Seq<u8> {
    encode_utf8(s@)
}

/// The UTF-8 bytes of each string.
pub open spec fn texts(v: Seq<String>) -> Seq<Seq<u8>> {
    v.map_values(|s: String| text_bytes(s))
}

/// The UTF-8 bytes of a string, read in exec code.
pub fn bytes_of_string(s: &String) -> (bytes: &[u8])
    ensures
        bytes@ == text_bytes(*s),
{
    s.as_str().as_bytes()
}

/// A string holding exactly the given ASCII bytes.
pub fn string_from_ascii(bytes: &[u8]) -> (s: String)
    requires
        forall|i: int| 0 <= i < bytes@.len() ==> #[trigger] bytes@[i] < 128,
    ensures
        text_bytes(s) == bytes@,
{
    let mut copy: Vec<u8> = Vec::new();
    append_bytes(&mut copy, bytes);
    proof {
        assert(copy@ =~= bytes@);
        lemma_ascii_valid_utf8(copy@);
    }
    match string_from_utf8(copy) {
        Some(s) => s,
        None => String::new(),
    }
}

/// Whether some string of `v` has exactly the bytes `name`.
pub fn contains_text(v: &[String], name: &[u8]) -> (found: bool)
    ensures
        found == texts(v@).contains(name@),
{
    let mut i: usize = 0;
    while i < v.len()
        invariant
            i <= v@.len(),
            forall|j: int| 0 <= j < i ==> #[trigger] text_bytes(v@[j]) != name@,
        decreases v@.len() - i,
    {
        if bytes_equal(bytes_of_string(&v[i]), name) {
            proof {
                assert(texts(v@)[i as int] == name@);
            }
            return true;
        }
        i = i + 1;
    }
    proof {
        if texts(v@).contains(name@) {
            let k = choose|k: int| 0 <= k < texts(v@).len() && texts(v@)[k] == name@;
            assert(text_bytes(v@[k]) != name@);
        }
    }
    false
}

/// A copy of a list of strings.
pub fn clone_strings(v: &[String]) -> (copy: Vec<String>)
    ensures
        copy@ == v@,
{
    let mut copy: Vec<String> = Vec::new();
    let mut i: usize = 0;
    while i < v.len()
        invariant
            i <= v@.len(),
            copy@ == v@.take(i as int),
        decreases v@.len() - i,
    {
        copy.push(v[i].clone());
        proof {
            assert(v@.take(i + 1) =~= v@.take(i as int).push(v@[i as int]));
        }
        i = i + 1;
    }
    proof {
        assert(v@.take(v@.len() as int) =~= v@);
    }
    copy
}

/// The decimal digits of a number, most significant first.
pub open spec fn decimal(v: nat) -> Seq<u8>
    decreases v,
{
    if v < 10 {
        seq![(48 + v) as u8]
    } else {
        decimal(v / 10).push((48 + v % 10) as u8)
    }
}

/// Appends the decimal digits of `v`.
pub fn append_decimal(out: &mut Vec<u8>, v: u64)
    ensures
        final(out)@ == old(out)@ + decimal(v as nat),
        forall|i: int| old(out)@.len() <= i < final(out)@.len() ==> 48 <= #[trigger] final(out)@[i] <= 57,
    decreases v,
{
    if v < 10 {
        out.push(48 + v as u8);
        proof {
            assert(final(out)@ =~= old(out)@ + decimal(v as nat));
        }
    } else {
        append_decimal(out, v / 10);
        out.push(48 + (v % 10) as u8);
        proof {
            assert(final(out)@ =~= old(out)@ + decimal(v as nat));
        }
    }
}

} // verus!
