//! Length-prefixed frame encoding, the incremental frame decoder and the strict
//! scan of the protobuf frame envelope.
use vstd::prelude::*;

use crate::gateway::error::ProtocolError;
use crate::gateway::limits::ABSOLUTE_MAX_FRAME_SIZE;
use crate::gateway::varint::{
    decode_canonical_u32_varint, encode_u32_varint, lemma_pow128_values, lemma_pow_mono,
    lemma_varint_value_bounds, pow128, u32_prefix_result, varint_encoding, varint_value,
    varint_value_of, lemma_encoding_facts, lemma_encoding_len_bound, lemma_u32_varint_roundtrip,
};

verus! {

pub const MAX_U32_VARINT_BYTES: usize = 5;
pub const FIRST_MESSAGE_TAG: u32 = 10;
pub const LAST_V1_MESSAGE_TAG: u32 = 28;
pub const LAST_RESERVED_MESSAGE_TAG: u32 = 63;

/// The top-level facts of one frame envelope, with the frame's encoded bytes:
/// its sequence number, the tag of its one body, and the bytes themselves.
#[derive(Clone, Debug)]
pub struct FrameEnvelope {
    pub sequence: u64,
    pub body_tag: Option<u32>,
    pub encoded: Vec<u8>,
}

/// Reading a protobuf varint of at most ten bytes at `off`, having already seen
/// `j` continuation bytes: the value and the offset after it.
pub open spec fn wire_varint_from(s: Seq<u8>, off: int, j: nat) -> Result<(u64, int), ProtocolError>
    decreases 10 - j,
{
    if j >= 10 || off < 0 {
        Err(ProtocolError::ProtocolViolation("protobuf varint overflow"))
    } else if off + j >= s.len() {
        Err(ProtocolError::TruncatedWireValue)
    } else if j == 9 && s[off + j] % 128 > 1 {
        Err(ProtocolError::ProtocolViolation("protobuf varint overflow"))
    } else if s[off + j] < 128 {
        if j > 0 && s[off + j] == 0 {
            Err(ProtocolError::NonCanonicalVarint)
        } else {
            Ok((varint_value(s.subrange(off, off + j + 1)) as u64, off + j + 1))
        }
    } else if j == 9 {
        Err(ProtocolError::ProtocolViolation("protobuf varint overflow"))
    } else {
        wire_varint_from(s, off, j + 1)
    }
}

/// The protobuf varint at `off`.
pub open spec fn wire_varint(s: Seq<u8>, off: int) -> Result<(u64, int), ProtocolError> {
    wire_varint_from(s, off, 0)
}

pub proof fn lemma_wire_varint_advances(s: Seq<u8>, off: int, j: nat)
    ensures
        wire_varint_from(s, off, j) matches Ok((v, e)) ==> off + j < e <= s.len(),
    decreases 10 - j,
{
    if j < 10 && off >= 0 && off + j < s.len() && !(j == 9 && s[off + j] % 128 > 1) && s[off
        + j] >= 128 && j != 9 {
        lemma_wire_varint_advances(s, off, j + 1);
    }
}

/// Skipping one field value of wire type `wire_type` at `off`: the varint value
/// (for wire type 0) and the offset after the value.
pub open spec fn skip_value(s: Seq<u8>, off: int, wire_type: u64) -> Result<(u64, int), ProtocolError> {
    if wire_type == 0 {
        wire_varint(s, off)
    } else if wire_type == 1 || wire_type == 2 || wire_type == 5 {
        let header: Result<(u64, int), ProtocolError> = if wire_type == 2 {
            wire_varint(s, off)
        } else if wire_type == 1 {
            Ok((8u64, off))
        } else {
            Ok((4u64, off))
        };
        match header {
            Err(e) => Err(e),
            Ok((length, start)) => {
                if length > usize::MAX {
                    Err(ProtocolError::IntegerOverflow)
                } else if start + length > usize::MAX {
                    Err(ProtocolError::IntegerOverflow)
                } else if start + length > s.len() {
                    Err(ProtocolError::TruncatedWireValue)
                } else {
                    Ok((0u64, start + length))
                }
            },
        }
    } else {
        Err(ProtocolError::ProtocolViolation("unsupported protobuf wire type"))
    }
}

pub proof fn lemma_skip_value_advances(s: Seq<u8>, off: int, wire_type: u64)
    requires
        0 <= off,
    ensures
        skip_value(s, off, wire_type) matches Ok((v, e)) ==> off <= e <= s.len(),
{
    lemma_wire_varint_advances(s, off, 0);
}

/// The wire type a known envelope field must use, if it is constrained.
pub open spec fn expected_wire_type(tag: u32) -> Option<u64> {
    if tag == 1 {
        Some(0u64)
    } else if tag == 2 || tag == 4 || (FIRST_MESSAGE_TAG <= tag <= LAST_V1_MESSAGE_TAG) {
        Some(2u64)
    } else {
        None
    }
}

/// The strict envelope grammar, from offset `off` on: having seen the singular
/// fields in `seen`, the body field `body` and the sequence `sequence`, the
/// final sequence number and body tag, or the first violation.
pub open spec fn scan_from(
    s: Seq<u8>,
    off: int,
    seen: Set<u32>,
    body: Option<u32>,
    sequence: u64,
) -> Result<(u64, Option<u32>), ProtocolError>
    decreases s.len() - off,
{
    if off < 0 || off >= s.len() {
        Ok((sequence, body))
    } else {
        match wire_varint(s, off) {
            Err(e) => Err(e),
            Ok((key, off1)) => {
                let tag_wide = key / 8;
                let wire_type = key % 8;
                if tag_wide > u32::MAX {
                    Err(ProtocolError::IntegerOverflow)
                } else {
                    let tag = tag_wide as u32;
                    if tag == 0 {
                        Err(ProtocolError::ProtocolViolation("protobuf tag zero"))
                    } else if 5 <= tag <= 9 {
                        Err(ProtocolError::ProtocolViolation("reserved envelope field"))
                    } else if 29 <= tag <= LAST_RESERVED_MESSAGE_TAG {
                        Err(ProtocolError::UnknownMessageTag(tag))
                    } else if expected_wire_type(tag) is Some && wire_type != expected_wire_type(
                        tag,
                    )->0 {
                        Err(ProtocolError::ProtocolViolation("invalid envelope wire type"))
                    } else if tag <= LAST_V1_MESSAGE_TAG && tag != 3 && seen.contains(tag) {
                        Err(ProtocolError::DuplicateField(tag))
                    } else if FIRST_MESSAGE_TAG <= tag <= LAST_V1_MESSAGE_TAG && body is Some {
                        Err(ProtocolError::ProtocolViolation("multiple frame bodies"))
                    } else {
                        match skip_value(s, off1, wire_type) {
                            Err(e) => Err(e),
                            Ok((value, off2)) => {
                                proof {
                                    lemma_wire_varint_advances(s, off, 0);
                                    lemma_skip_value_advances(s, off1, wire_type);
                                }
                                let seen2 = if tag <= LAST_V1_MESSAGE_TAG && tag != 3 {
                                    seen.insert(tag)
                                } else {
                                    seen
                                };
                                let body2 = if FIRST_MESSAGE_TAG <= tag <= LAST_V1_MESSAGE_TAG {
                                    Some(tag)
                                } else {
                                    body
                                };
                                let sequence2 = if tag == 1 {
                                    value
                                } else {
                                    sequence
                                };
                                scan_from(s, off2, seen2, body2, sequence2)
                            },
                        }
                    }
                }
            },
        }
    }
}

/// What `decode_frame_bytes` yields for `bytes`: its sequence number and body tag.
pub open spec fn frame_bytes_result(bytes: Seq<u8>) -> Result<(u64, Option<u32>), ProtocolError> {
    if bytes.len() == 0 {
        Err(ProtocolError::EmptyFrame)
    } else if bytes.len() > ABSOLUTE_MAX_FRAME_SIZE {
        Err(ProtocolError::FrameTooLarge {
            announced: bytes.len() as usize,
            maximum: ABSOLUTE_MAX_FRAME_SIZE,
        })
    } else {
        match scan_from(bytes, 0, Set::empty(), None, 0) {
            Err(e) => Err(e),
            Ok((sequence, None)) => Err(ProtocolError::MissingBody),
            Ok((sequence, Some(tag))) => Ok((sequence, Some(tag))),
        }
    }
}

/// Envelope agreement between an exec result and the spec result.
pub open spec fn envelope_matches(
    result: Result<FrameEnvelope, ProtocolError>,
    bytes: Seq<u8>,
    spec: Result<(u64, Option<u32>), ProtocolError>,
) -> bool {
    match (result, spec) {
        (Ok(envelope), Ok((sequence, body_tag))) => envelope.sequence == sequence
            && envelope.body_tag == body_tag && envelope.encoded@ == bytes,
        (Err(e1), Err(e2)) => e1 == e2,
        _ => false,
    }
}

fn read_wire_varint(bytes: &[u8], offset: usize) -> (result: Result<(u64, usize), ProtocolError>)
    ensures
        match (result, wire_varint(bytes@, offset as int)) {
            (Ok((v1, e1)), Ok((v2, e2))) => v1 == v2 && e1 == e2,
            (Err(a), Err(b)) => a == b,
            _ => false,
        },
{
    let n = bytes.len();
    let mut j: usize = 0;
    while j < 10
        invariant
            n == bytes@.len(),
            j <= 10,
            wire_varint(bytes@, offset as int) == wire_varint_from(bytes@, offset as int, j as nat),
            forall|k: int| 0 <= k < j ==> #[trigger] bytes@[offset + k] >= 128,
            j > 0 ==> offset + j <= n,
        decreases 10 - j,
    {
        if offset >= n || j >= n - offset {
            return Err(ProtocolError::TruncatedWireValue);
        }
        let b = bytes[offset + j];
        if j == 9 && b % 128 > 1 {
            return Err(ProtocolError::ProtocolViolation("protobuf varint overflow"));
        }
        if b < 128 {
            if j > 0 && b == 0 {
                return Err(ProtocolError::NonCanonicalVarint);
            }
            proof {
                let sub = bytes@.subrange(offset as int, offset + j + 1);
                assert(sub[sub.len() - 1] == b);
                lemma_pow128_values();
                if j == 9 {
                    assert(b <= 1);
                    lemma_pow_9();
                    assert(((b % 128) as nat + 1) * pow128(9) <= 2 * pow128(9)) by (nonlinear_arith)
                        requires b <= 1;
                } else {
                    lemma_pow_mono(j as nat, 8);
                    lemma_pow_9();
                    assert(((b % 128) as nat + 1) * pow128(j as nat) <= 128 * pow128(8)) by (nonlinear_arith)
                        requires b < 128, pow128(j as nat) <= pow128(8);
                }
            }
            let value = varint_value_of(bytes, offset, offset + j + 1);
            return Ok((value, offset + j + 1));
        }
        if j == 9 {
            return Err(ProtocolError::ProtocolViolation("protobuf varint overflow"));
        }
        j = j + 1;
    }
    Err(ProtocolError::ProtocolViolation("protobuf varint overflow"))
}

proof fn lemma_pow_9()
    ensures
        pow128(8) == 72057594037927936,
        pow128(9) == 9223372036854775808,
{
    reveal_with_fuel(pow128, 10);
}

} // verus!

verus! {

fn skip_wire_value(bytes: &[u8], offset: usize, wire_type: u64) -> (result: Result<
    (u64, usize),
    ProtocolError,
>)
    ensures
        match (result, skip_value(bytes@, offset as int, wire_type)) {
            (Ok((v1, e1)), Ok((v2, e2))) => v1 == v2 && e1 == e2,
            (Err(a), Err(b)) => a == b,
            _ => false,
        },
{
    if wire_type == 0 {
        return read_wire_varint(bytes, offset);
    }
    let (length, start) = if wire_type == 1 {
        (8u64, offset)
    } else if wire_type == 5 {
        (4u64, offset)
    } else if wire_type == 2 {
        read_wire_varint(bytes, offset)?
    } else {
        return Err(ProtocolError::ProtocolViolation("unsupported protobuf wire type"));
    };
    if length > usize::MAX as u64 {
        return Err(ProtocolError::IntegerOverflow);
    }
    let length = length as usize;
    if length > usize::MAX - start {
        return Err(ProtocolError::IntegerOverflow);
    }
    let end = start + length;
    if end > bytes.len() {
        return Err(ProtocolError::TruncatedWireValue);
    }
    Ok((0, end))
}

/// Scans the envelope of one frame body against the strict v1 grammar.
pub fn scan_gateway_envelope(bytes: &[u8]) -> (result: Result<(u64, Option<u32>), ProtocolError>)
    ensures
        result == scan_from(bytes@, 0, Set::empty(), None, 0),
{
    let n = bytes.len();
    let mut offset: usize = 0;
    let mut seen: Vec<bool> = Vec::new();
    let mut t: usize = 0;
    while t < 29
        invariant
            t <= 29,
            seen@.len() == t,
            forall|k: int| 0 <= k < t ==> !#[trigger] seen@[k],
        decreases 29 - t,
    {
        seen.push(false);
        t = t + 1;
    }
    let mut body: Option<u32> = None;
    let mut sequence: u64 = 0;
    proof {
        assert(Set::<u32>::new(|k: u32| k < 29 && seen@[k as int]) =~= Set::<u32>::empty());
    }
    while offset < n
        invariant
            n == bytes@.len(),
            seen@.len() == 29,
            offset <= n,
            scan_from(bytes@, 0, Set::empty(), None, 0) == scan_from(
                bytes@,
                offset as int,
                Set::new(|k: u32| k < 29 && seen@[k as int]),
                body,
                sequence,
            ),
        decreases n - offset,
    {
        let ghost seen_set = Set::new(|k: u32| k < 29 && seen@[k as int]);
        let (key, after_key) = read_wire_varint(bytes, offset)?;
        let tag_wide = key / 8;
        let wire_type = key % 8;
        if tag_wide > u32::MAX as u64 {
            return Err(ProtocolError::IntegerOverflow);
        }
        let tag = tag_wide as u32;
        if tag == 0 {
            return Err(ProtocolError::ProtocolViolation("protobuf tag zero"));
        }
        if 5 <= tag && tag <= 9 {
            return Err(ProtocolError::ProtocolViolation("reserved envelope field"));
        }
        if 29 <= tag && tag <= LAST_RESERVED_MESSAGE_TAG {
            return Err(ProtocolError::UnknownMessageTag(tag));
        }
        let expected: Option<u64> = if tag == 1 {
            Some(0)
        } else if tag == 2 || tag == 4 || (FIRST_MESSAGE_TAG <= tag && tag <= LAST_V1_MESSAGE_TAG) {
            Some(2)
        } else {
            None
        };
        if let Some(expected_type) = expected {
            if wire_type != expected_type {
                return Err(ProtocolError::ProtocolViolation("invalid envelope wire type"));
            }
        }
        if tag <= LAST_V1_MESSAGE_TAG && tag != 3 {
            if seen[tag as usize] {
                return Err(ProtocolError::DuplicateField(tag));
            }
        }
        if FIRST_MESSAGE_TAG <= tag && tag <= LAST_V1_MESSAGE_TAG && body.is_some() {
            return Err(ProtocolError::ProtocolViolation("multiple frame bodies"));
        }
        let (value, after_value) = skip_wire_value(bytes, after_key, wire_type)?;
        proof {
            lemma_wire_varint_advances(bytes@, offset as int, 0);
            lemma_skip_value_advances(bytes@, after_key as int, wire_type);
        }
        if tag <= LAST_V1_MESSAGE_TAG && tag != 3 {
            seen.set(tag as usize, true);
            proof {
                assert(Set::new(|k: u32| k < 29 && seen@[k as int]) =~= seen_set.insert(tag));
            }
        }
        if FIRST_MESSAGE_TAG <= tag && tag <= LAST_V1_MESSAGE_TAG {
            body = Some(tag);
        }
        if tag == 1 {
            sequence = value;
        }
        offset = after_value;
    }
    Ok((sequence, body))
}

/// Checks one frame body (without its length prefix) and reports its envelope.
pub fn decode_frame_bytes(bytes: &[u8]) -> (result: Result<FrameEnvelope, ProtocolError>)
    ensures
        envelope_matches(result, bytes@, frame_bytes_result(bytes@)),
{
    if bytes.len() == 0 {
        return Err(ProtocolError::EmptyFrame);
    }
    if bytes.len() > ABSOLUTE_MAX_FRAME_SIZE {
        return Err(
            ProtocolError::FrameTooLarge { announced: bytes.len(), maximum: ABSOLUTE_MAX_FRAME_SIZE },
        );
    }
    let (sequence, body_tag) = scan_gateway_envelope(bytes)?;
    if body_tag.is_none() {
        return Err(ProtocolError::MissingBody);
    }
    let encoded = copy_bytes(bytes);
    Ok(FrameEnvelope { sequence, body_tag, encoded })
}

/// A copy of `bytes`.
pub fn copy_bytes(bytes: &[u8]) -> (copy: Vec<u8>)
    ensures
        copy@ == bytes@,
{
    let mut copy: Vec<u8> = Vec::new();
    let mut i: usize = 0;
    while i < bytes.len()
        invariant
            i <= bytes@.len(),
            copy@ == bytes@.subrange(0, i as int),
        decreases bytes@.len() - i,
    {
        copy.push(bytes[i]);
        proof {
            assert(bytes@.subrange(0, i + 1) =~= bytes@.subrange(0, i as int).push(bytes@[i as int]));
        }
        i = i + 1;
    }
    proof {
        assert(bytes@.subrange(0, bytes@.len() as int) =~= bytes@);
    }
    copy
}

/// What checking a maximum frame size yields.
pub open spec fn maximum_result(maximum_frame_size: usize) -> Result<(), ProtocolError> {
    if maximum_frame_size == 0 || maximum_frame_size > ABSOLUTE_MAX_FRAME_SIZE {
        Err(ProtocolError::InvalidField("maximum_frame_size"))
    } else {
        Ok(())
    }
}

pub fn validate_maximum(maximum_frame_size: usize) -> (result: Result<(), ProtocolError>)
    ensures
        result == maximum_result(maximum_frame_size),
{
    if maximum_frame_size == 0 || maximum_frame_size > ABSOLUTE_MAX_FRAME_SIZE {
        return Err(ProtocolError::InvalidField("maximum_frame_size"));
    }
    Ok(())
}

/// What `encode_frame` yields for an encoded frame body of `body` bytes.
pub open spec fn encode_frame_result(body: Seq<u8>, maximum_frame_size: usize) -> Result<
    Seq<u8>,
    ProtocolError,
> {
    if maximum_result(maximum_frame_size) is Err {
        Err(ProtocolError::InvalidField("maximum_frame_size"))
    } else if body.len() == 0 {
        Err(ProtocolError::EmptyFrame)
    } else if body.len() > maximum_frame_size {
        Err(ProtocolError::FrameTooLarge { announced: body.len() as usize, maximum: maximum_frame_size })
    } else {
        Ok(varint_encoding(body.len()) + body)
    }
}

/// Prefixes an encoded frame body with its canonical length.
pub fn encode_frame(body: &[u8], maximum_frame_size: usize) -> (result: Result<Vec<u8>, ProtocolError>)
    ensures
        match (result, encode_frame_result(body@, maximum_frame_size)) {
            (Ok(out), Ok(expected)) => out@ == expected,
            (Err(a), Err(b)) => a == b,
            _ => false,
        },
{
    validate_maximum(maximum_frame_size)?;
    let length = body.len();
    if length == 0 {
        return Err(ProtocolError::EmptyFrame);
    }
    if length > maximum_frame_size {
        return Err(ProtocolError::FrameTooLarge { announced: length, maximum: maximum_frame_size });
    }
    let mut encoded: Vec<u8> = Vec::new();
    encode_u32_varint(length as u32, &mut encoded);
    let mut i: usize = 0;
    let ghost head = encoded@;
    while i < length
        invariant
            length == body@.len(),
            i <= length,
            encoded@ == head + body@.subrange(0, i as int),
        decreases length - i,
    {
        encoded.push(body[i]);
        proof {
            assert(body@.subrange(0, i + 1) =~= body@.subrange(0, i as int).push(body@[i as int]));
        }
        i = i + 1;
    }
    proof {
        assert(body@.subrange(0, length as int) =~= body@);
    }
    Ok(encoded)
}

} // verus!

verus! {

/// The index of the first byte without a continuation bit among the first five
/// bytes of `s`, searching from `i`.
pub open spec fn first_terminator(s: Seq<u8>, i: nat) -> Option<nat>
    decreases 5 - i,
{
    if i >= 5 || i >= s.len() {
        None
    } else if s[i as int] < 128 {
        Some(i)
    } else {
        first_terminator(s, i + 1)
    }
}

/// One decoded frame: its sequence number, body tag and encoded bytes.
pub type SpecFrame = (u64, Option<u32>, Seq<u8>);

/// What feeding `input` to a decoder with maximum `maximum` and pending bytes
/// `pending` yields: the consumed count and any completed frame, or the error;
/// and the bytes left pending afterwards.
pub open spec fn push_outcome(maximum: usize, pending: Seq<u8>, input: Seq<u8>) -> (
    Result<(int, Option<SpecFrame>), ProtocolError>,
    Seq<u8>,
) {
    let combined = pending + input;
    match first_terminator(combined, 0) {
        Some(t) => {
            let prefix = combined.subrange(0, t + 1int);
            match u32_prefix_result(prefix) {
                Err(e) => (Err(e), Seq::empty()),
                Ok(length) => {
                    if length == 0 {
                        (Err(ProtocolError::EmptyFrame), Seq::empty())
                    } else if length > maximum {
                        (
                            Err(
                                ProtocolError::FrameTooLarge {
                                    announced: length as usize,
                                    maximum: maximum,
                                },
                            ),
                            Seq::empty(),
                        )
                    } else if t + 1 + length <= combined.len() {
                        let frame = combined.subrange(t + 1int, t + 1 + length);
                        match frame_bytes_result(frame) {
                            Err(e) => (Err(e), Seq::empty()),
                            Ok((sequence, body_tag)) => (
                                Ok(
                                    (
                                        t + 1 + length - pending.len(),
                                        Some((sequence, body_tag, frame)),
                                    ),
                                ),
                                Seq::empty(),
                            ),
                        }
                    } else {
                        (Ok((input.len() as int, None)), combined)
                    }
                },
            }
        },
        None => {
            if combined.len() > 5 {
                (Err(ProtocolError::InvalidLengthPrefix), Seq::empty())
            } else {
                (Ok((input.len() as int, None)), combined)
            }
        },
    }
}

/// The result of one `push`: how many input bytes were consumed and the frame,
/// if one was completed.
#[derive(Debug)]
pub struct DecodeProgress {
    pub consumed: usize,
    pub frame: Option<FrameEnvelope>,
}

/// Incremental, single-frame decoder. It never buffers more than the negotiated
/// frame maximum plus a length prefix, and never queues decoded frames.
#[derive(Debug)]
pub struct FrameDecoder {
    maximum_frame_size: usize,
    prefix: Vec<u8>,
    expected_body: Option<usize>,
    body: Vec<u8>,
}

proof fn lemma_first_terminator_skip(s: Seq<u8>, i: nat)
    requires
        forall|k: int| 0 <= k < i && k < s.len() ==> #[trigger] s[k] >= 128,
    ensures
        first_terminator(s, 0) == first_terminator(s, i),
    decreases i,
{
    if i > 0 {
        lemma_first_terminator_skip(s, (i - 1) as nat);
        let k = (i - 1) as nat;
        if k < 5 && k < s.len() {
            assert(s[k as int] >= 128);
        }
    }
}

proof fn lemma_first_terminator_prefix(s: Seq<u8>, t: nat, extra: Seq<u8>)
    requires
        first_terminator(s, 0) == Some(t),
    ensures
        first_terminator(s + extra, 0) == Some(t),
{
    lemma_first_terminator_prefix_from(s, t, extra, 0);
}

proof fn lemma_first_terminator_prefix_from(s: Seq<u8>, t: nat, extra: Seq<u8>, i: nat)
    requires
        first_terminator(s, i) == Some(t),
    ensures
        first_terminator(s + extra, i) == Some(t),
    decreases 5 - i,
{
    if i < 5 && i < s.len() && s[i as int] >= 128 {
        lemma_first_terminator_prefix_from(s, t, extra, i + 1);
    }
}

proof fn lemma_first_terminator_bound(s: Seq<u8>, i: nat)
    ensures
        first_terminator(s, i) matches Some(t) ==> i <= t < 5 && t < s.len() && s[t as int]
            < 128,
    decreases 5 - i,
{
    if i < 5 && i < s.len() && s[i as int] >= 128 {
        lemma_first_terminator_bound(s, i + 1);
    }
}

/// Where the terminating byte of a length prefix lies in bytes that begin with
/// it, or that it not yet lies in a part of it.
proof fn lemma_prefix_terminator(s: Seq<u8>, prefix: Seq<u8>)
    requires
        1 <= prefix.len() <= 5,
        forall|i: int| 0 <= i < prefix.len() - 1 ==> #[trigger] prefix[i] >= 128,
        prefix[prefix.len() - 1] < 128,
        forall|i: int| 0 <= i < prefix.len() && i < s.len() ==> #[trigger] s[i] == prefix[i],
    ensures
        s.len() >= prefix.len() ==> first_terminator(s, 0) == Some((prefix.len() - 1) as nat),
        s.len() < prefix.len() ==> first_terminator(s, 0) is None,
{
    let t = (prefix.len() - 1) as nat;
    assert forall|k: int| 0 <= k < t && k < s.len() implies #[trigger] s[k] >= 128 by {
        assert(s[k] == prefix[k]);
    }
    lemma_first_terminator_skip(s, t);
    if t < s.len() {
        assert(s[t as int] == prefix[t as int]);
    }
}

/// A frame written by `encode_frame` is read back: a fresh decoder fed the
/// written bytes up to any split point `k` and then the rest consumes exactly
/// `k` bytes first, and yields the one frame, with the sequence number and body
/// tag that `decode_frame_bytes` reads from its body, as soon as the last byte
/// has arrived, whatever `k` is. (`FrameDecoder::push` yields `push_outcome`
/// of the bytes it holds, and `FrameDecoder::new` holds none.)
pub proof fn lemma_split_stream_reads_back(body: Seq<u8>, maximum: usize, k: int)
    requires
        encode_frame_result(body, maximum) is Ok,
        frame_bytes_result(body) is Ok,
        0 <= k <= encode_frame_result(body, maximum)->Ok_0.len(),
    ensures
        ({
            let bytes = encode_frame_result(body, maximum)->Ok_0;
            let (sequence, body_tag) = frame_bytes_result(body)->Ok_0;
            let frame = Some((sequence, body_tag, body));
            let (first, pending) = push_outcome(maximum, Seq::<u8>::empty(), bytes.take(k));
            if k < bytes.len() {
                &&& first == Ok::<(int, Option<SpecFrame>), ProtocolError>((k, None))
                &&& pending == bytes.take(k)
                &&& push_outcome(maximum, pending, bytes.skip(k)) == (
                    Ok::<(int, Option<SpecFrame>), ProtocolError>((bytes.len() - k, frame)),
                    Seq::<u8>::empty(),
                )
            } else {
                &&& first == Ok::<(int, Option<SpecFrame>), ProtocolError>((k, frame))
                &&& pending == Seq::<u8>::empty()
            }
        }),
{
    let n = body.len();
    let enc = varint_encoding(n);
    let bytes = encode_frame_result(body, maximum)->Ok_0;
    assert(bytes == enc + body);
    lemma_encoding_facts(n);
    lemma_encoding_len_bound(n, 5);
    lemma_u32_varint_roundtrip(n as u32);
    assert((n as u32) as nat == n);
    let p = enc.len();
    let t = (p - 1) as nat;
    assert(bytes.len() == p + n);
    // The first push.
    let first_input = bytes.take(k);
    let combined1 = Seq::<u8>::empty() + first_input;
    assert(combined1 =~= first_input);
    lemma_prefix_terminator(combined1, enc);
    if k >= p {
        assert(combined1.subrange(0, t + 1int) =~= enc);
        if k == bytes.len() {
            assert(combined1.subrange(t + 1int, t + 1int + n) =~= body);
        }
    }
    // The second push.
    if k < bytes.len() {
        let (first, pending) = push_outcome(maximum, Seq::<u8>::empty(), first_input);
        assert(pending == first_input);
        let combined2 = pending + bytes.skip(k);
        assert(combined2 =~= bytes);
        lemma_prefix_terminator(combined2, enc);
        assert(combined2.subrange(0, t + 1int) =~= enc);
        assert(combined2.subrange(t + 1int, t + 1int + n) =~= body);
    }
}

impl FrameDecoder {
    pub closed spec fn maximum(&self) -> usize {
        self.maximum_frame_size
    }

    /// The bytes of the current, not yet complete frame (prefix and body).
    pub closed spec fn pending(&self) -> Seq<u8> {
        self.prefix@ + self.body@
    }

    /// The announced body length, once the length prefix is complete.
    pub closed spec fn expected(&self) -> Option<usize> {
        self.expected_body
    }

    pub closed spec fn wf(&self) -> bool {
        &&& 1 <= self.maximum_frame_size <= ABSOLUTE_MAX_FRAME_SIZE
        &&& match self.expected_body {
            None => {
                &&& self.body@.len() == 0
                &&& self.prefix@.len() <= 5
                &&& forall|k: int| 0 <= k < self.prefix@.len() ==> #[trigger] self.prefix@[k] >= 128
            },
            Some(length) => {
                &&& 1 <= self.prefix@.len() <= 5
                &&& first_terminator(self.prefix@, 0) == Some((self.prefix@.len() - 1) as nat)
                &&& u32_prefix_result(self.prefix@) == Ok::<u32, ProtocolError>(length as u32)
                &&& 1 <= length <= self.maximum_frame_size
                &&& self.body@.len() < length
            },
        }
    }

    /// What the decoder holds is always a proper beginning of a frame within the
    /// maximum: an unterminated prefix, or a valid prefix and part of its body.
    proof fn lemma_pending_bounded(&self)
        requires
            self.wf(),
        ensures
            self.pending().len() <= self.maximum() + 5,
            self.expected() is None ==> first_terminator(self.pending(), 0) is None,
            self.expected() matches Some(length) ==> ({
                let t = (self.prefix@.len() - 1) as nat;
                &&& first_terminator(self.pending(), 0) == Some(t)
                &&& self.pending().subrange(0, t + 1int) == self.prefix@
                &&& self.pending().len() < t + 1 + length
            }),
    {
        if let Some(length) = self.expected_body {
            lemma_first_terminator_prefix(self.prefix@, (self.prefix@.len() - 1) as nat, self.body@);
            assert(self.pending().subrange(0, self.prefix@.len() as int) =~= self.prefix@);
        } else {
            assert(self.pending() =~= self.prefix@);
            lemma_first_terminator_skip(self.prefix@, self.prefix@.len());
        }
    }

    /// A decoder for frames of at most `maximum_frame_size` bytes.
    pub fn new(maximum_frame_size: usize) -> (result: Result<Self, ProtocolError>)
        ensures
            match result {
                Ok(decoder) => maximum_result(maximum_frame_size) is Ok && decoder.wf()
                    && decoder.maximum() == maximum_frame_size && decoder.pending().len() == 0
                    && decoder.expected() is None,
                Err(e) => maximum_result(maximum_frame_size) == Err::<(), ProtocolError>(e),
            },
    {
        validate_maximum(maximum_frame_size)?;
        Ok(FrameDecoder { maximum_frame_size, prefix: Vec::new(), expected_body: None, body: Vec::new() })
    }

    /// Changes the maximum; refused if the frame being received already exceeds it.
    pub fn set_maximum_frame_size(&mut self, maximum_frame_size: usize) -> (result: Result<
        (),
        ProtocolError,
    >)
        requires
            old(self).wf(),
        ensures
            final(self).wf(),
            final(self).pending() == old(self).pending(),
            final(self).expected() == old(self).expected(),
            match result {
                Ok(()) => maximum_result(maximum_frame_size) is Ok && (old(self).expected() matches Some(e)
                    ==> e <= maximum_frame_size) && final(self).maximum() == maximum_frame_size,
                Err(e) => final(self).maximum() == old(self).maximum() && if maximum_result(
                    maximum_frame_size,
                ) is Err {
                    e == ProtocolError::InvalidField("maximum_frame_size")
                } else {
                    old(self).expected() matches Some(expected) && expected > maximum_frame_size
                        && e == (ProtocolError::FrameTooLarge {
                        announced: expected,
                        maximum: maximum_frame_size,
                    })
                },
            },
    {
        validate_maximum(maximum_frame_size)?;
        if let Some(expected) = self.expected_body {
            if expected > maximum_frame_size {
                return Err(
                    ProtocolError::FrameTooLarge { announced: expected, maximum: maximum_frame_size },
                );
            }
        }
        self.maximum_frame_size = maximum_frame_size;
        Ok(())
    }

    /// The number of bytes held for the frame being received.
    pub fn buffered_bytes(&self) -> (count: usize)
        requires
            self.wf(),
        ensures
            count == self.pending().len(),
            count <= self.maximum() + 5,
            count <= ABSOLUTE_MAX_FRAME_SIZE + 5,
    {
        proof {
            self.lemma_pending_bounded();
        }
        self.prefix.len() + self.body.len()
    }

    fn reset(&mut self)
        requires
            1 <= old(self).maximum_frame_size <= ABSOLUTE_MAX_FRAME_SIZE,
        ensures
            final(self).wf(),
            final(self).pending() == Seq::<u8>::empty(),
            final(self).expected() is None,
            final(self).maximum() == old(self).maximum(),
    {
        self.prefix = Vec::new();
        self.expected_body = None;
        self.body = Vec::new();
        proof {
            assert(self.pending() =~= Seq::<u8>::empty());
        }
    }

    /// Feeds `input`; consumes bytes up to the end of at most one frame.
    pub fn push(&mut self, input: &[u8]) -> (result: Result<DecodeProgress, ProtocolError>)
        requires
            old(self).wf(),
        ensures
            final(self).wf(),
            final(self).maximum() == old(self).maximum(),
            final(self).pending().len() <= final(self).maximum() + 5,
            match result {
                Ok(progress) => {
                    &&& progress.consumed <= input@.len()
                    &&& progress.frame is None ==> progress.consumed == input@.len()
                    &&& progress.frame is Some ==> final(self).pending().len() == 0
                },
                Err(_) => final(self).pending().len() == 0,
            },
            ({
                let (expected, rest) = push_outcome(old(self).maximum(), old(self).pending(), input@);
                &&& final(self).pending() == rest
                &&& match (result, expected) {
                    (Ok(progress), Ok((consumed, frame))) => progress.consumed == consumed
                        && match (progress.frame, frame) {
                        (None, None) => true,
                        (Some(envelope), Some((sequence, body_tag, bytes))) => envelope.sequence
                            == sequence && envelope.body_tag == body_tag && envelope.encoded@
                            == bytes,
                        _ => false,
                    },
                    (Err(a), Err(b)) => a == b,
                    _ => false,
                }
            }),
    {
        let ghost pending0 = self.pending();
        let ghost combined = pending0 + input@;
        let ghost p0 = pending0.len();
        proof {
            self.lemma_pending_bounded();
        }
        let mut consumed: usize = 0;
        proof {
            if old(self).expected() is None {
                assert(pending0 =~= self.prefix@);
                assert(combined.subrange(0, p0 as int) =~= self.prefix@);
                assert forall|k: int| 0 <= k < self.prefix@.len() && k < combined.len() implies #[trigger] combined[k] >= 128 by {
                    assert(combined[k] == self.prefix@[k]);
                }
                lemma_first_terminator_skip(combined, self.prefix@.len());
            }
        }
        while self.expected_body.is_none() && consumed < input.len()
            invariant
                self.wf(),
                self.maximum() == old(self).maximum(),
                consumed <= input@.len(),
                combined == pending0 + input@,
                pending0 == old(self).pending(),
                p0 == pending0.len(),
                old(self).expected() is Some ==> consumed == 0 && self.prefix@ == old(self).prefix@
                    && self.body@ == old(self).body@ && self.expected() == old(self).expected(),
                old(self).expected() is None ==> self.body@.len() == 0 && self.prefix@
                    == combined.subrange(0, p0 + consumed),
                old(self).expected() is None && self.expected() is None ==> first_terminator(
                    combined,
                    0,
                ) == first_terminator(combined, self.prefix@.len()),
                old(self).expected() is None && self.expected() is Some ==> first_terminator(
                    combined,
                    0,
                ) == Some((self.prefix@.len() - 1) as nat),
            decreases input@.len() - consumed,
        {
            if self.prefix.len() == MAX_U32_VARINT_BYTES {
                proof {
                    assert(combined.len() > 5);
                    assert(first_terminator(combined, 5) is None);
                    assert(first_terminator(combined, 0) is None);
                }
                self.reset();
                return Err(ProtocolError::InvalidLengthPrefix);
            }
            let byte = input[consumed];
            self.prefix.push(byte);
            consumed = consumed + 1;
            proof {
                assert(combined.subrange(0, p0 + consumed) =~= combined.subrange(0, p0 + consumed - 1).push(byte));
            }
            if byte < 128 {
                proof {
                    assert(first_terminator(combined, (self.prefix@.len() - 1) as nat) == Some(
                        (self.prefix@.len() - 1) as nat,
                    ));
                    assert(self.prefix@ == combined.subrange(0, (self.prefix@.len() - 1) + 1));
                    lemma_first_terminator_skip(self.prefix@, (self.prefix@.len() - 1) as nat);
                    assert(first_terminator(self.prefix@, (self.prefix@.len() - 1) as nat) == Some(
                        (self.prefix@.len() - 1) as nat,
                    ));
                }
                let length = match decode_canonical_u32_varint(self.prefix.as_slice()) {
                    Ok(length) => length as usize,
                    Err(error) => {
                        self.reset();
                        return Err(error);
                    },
                };
                if length == 0 {
                    self.reset();
                    return Err(ProtocolError::EmptyFrame);
                }
                if length > self.maximum_frame_size {
                    let maximum = self.maximum_frame_size;
                    self.reset();
                    return Err(ProtocolError::FrameTooLarge { announced: length, maximum });
                }
                self.body = Vec::new();
                self.expected_body = Some(length);
            } else {
                proof {
                    assert(first_terminator(combined, (self.prefix@.len() - 1) as nat)
                        == first_terminator(combined, self.prefix@.len()));
                }
            }
        }
        if self.expected_body.is_none() {
            proof {
                assert(consumed == input@.len());
                assert(self.prefix@ =~= combined);
                lemma_first_terminator_bound(combined, self.prefix@.len());
                assert(self.pending() =~= combined);
            }
            return Ok(DecodeProgress { consumed, frame: None });
        }
        let expected = match self.expected_body {
            Some(length) => length,
            None => 0,
        };
        let ghost t = (self.prefix@.len() - 1) as nat;
        proof {
            if old(self).expected() is Some {
                old(self).lemma_pending_bounded();
                lemma_first_terminator_prefix(pending0, t, input@);
                assert(combined.subrange(0, t + 1int) =~= pending0.subrange(0, t + 1int));
            } else {
                assert(combined.subrange(0, t + 1int) =~= self.prefix@);
            }
            assert(first_terminator(combined, 0) == Some(t));
            assert(combined.subrange(0, t + 1int) == self.prefix@);
            assert(self.prefix@.len() + self.body@.len() == p0 + consumed);
        }
        let remaining = expected - self.body.len();
        let available = input.len() - consumed;
        let take = if remaining < available {
            remaining
        } else {
            available
        };
        let start = consumed;
        let ghost body0 = self.body@;
        while consumed < start + take
            invariant
                start <= consumed <= start + take <= input@.len(),
                take <= remaining,
                remaining == expected - body0.len(),
                self.body@ == body0 + input@.subrange(start as int, consumed as int),
                self.prefix@.len() + body0.len() == p0 + start,
                self.wf() || true,
                1 <= self.maximum_frame_size <= ABSOLUTE_MAX_FRAME_SIZE,
                self.maximum() == old(self).maximum(),
                self.expected_body == Some(expected),
                self.prefix@ == combined.subrange(0, t + 1int),
                combined == pending0 + input@,
                pending0 == old(self).pending(),
                u32_prefix_result(self.prefix@) == Ok::<u32, ProtocolError>(expected as u32),
                first_terminator(self.prefix@, 0) == Some(t),
                t == self.prefix@.len() - 1,
                1 <= expected <= self.maximum_frame_size,
            decreases start + take - consumed,
        {
            self.body.push(input[consumed]);
            proof {
                assert(input@.subrange(start as int, consumed + 1) =~= input@.subrange(
                    start as int,
                    consumed as int,
                ).push(input@[consumed as int]));
            }
            consumed = consumed + 1;
        }
        proof {
            assert(self.prefix@ + self.body@ =~= combined.subrange(0, p0 + consumed));
        }
        if self.body.len() == expected {
            let mut bytes: Vec<u8> = Vec::new();
            core::mem::swap(&mut bytes, &mut self.body);
            self.reset();
            proof {
                assert(bytes@ =~= combined.subrange(t + 1int, t + 1 + expected));
            }
            let envelope = decode_frame_bytes(bytes.as_slice())?;
            return Ok(DecodeProgress { consumed, frame: Some(envelope) });
        }
        proof {
            assert(consumed == input@.len());
            assert(self.pending() =~= combined);
        }
        Ok(DecodeProgress { consumed, frame: None })
    }
}

} // verus!
