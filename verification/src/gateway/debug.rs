//! Payload-safe frame summaries for debugging tools.
use vstd::prelude::*;

use crate::gateway::error::ProtocolError;
use crate::gateway::framing::{DecodeProgress, FrameDecoder};
use crate::gateway::session::total_length;
use crate::gateway::wire::{Body, DestinationValue, GatewayFrame};
use vstd::utf8::{encode_utf8, valid_utf8};

use crate::text::{append_bytes, append_decimal, decimal};

verus! {

/// The equivalent of a packet-list row. It keeps lengths and coarse kinds
/// only, never bytes, hostnames, addresses, tokens, nonces, session IDs or
/// correlation IDs.
#[derive(Clone, Debug, PartialEq, Eq)]
pub struct FrameSummary {
    pub sequence: u64,
    pub message: &'static str,
    pub stream_id: Option<u64>,
    pub sensitive_length: Option<usize>,
    pub detail: &'static str,
}

/// `a + b`, capped at the largest `usize`.
pub open spec fn saturating(a: nat, b: nat) -> usize {
    if a + b > usize::MAX {
        usize::MAX
    } else {
        (a + b) as usize
    }
}

/// The summary of a frame: message kind, stream, redacted length and detail.
pub open spec fn summary_parts(frame: GatewayFrame) -> (&'static str, Option<u64>, Option<usize>, &'static str) {
    match frame.body {
        Some(Body::ClientHello(m)) => (
            "ClientHello",
            None,
            Some(m.session_nonce@.len() as usize),
            "values-redacted",
        ),
        Some(Body::ServerHello(m)) => (
            "ServerHello",
            None,
            Some(saturating(m.server_nonce@.len(), m.ephemeral_session_id@.len())),
            "values-redacted",
        ),
        Some(Body::Authenticate(m)) => (
            "Authenticate",
            None,
            Some(saturating(m.anonymous_capability_token@.len(), m.proof_of_possession@.len())),
            "credentials-redacted",
        ),
        Some(Body::AuthenticationResult(_)) => ("AuthenticationResult", None, None, "values-redacted"),
        Some(Body::OpenTcpStream(m)) => (
            "OpenTcpStream",
            Some(m.stream_id),
            None,
            match m.destination {
                Some(d) => match d.value {
                    Some(DestinationValue::Hostname(_)) => "hostname-redacted",
                    Some(DestinationValue::IpAddress(_)) => "ip-redacted",
                    None => "destination-missing",
                },
                None => "destination-missing",
            },
        ),
        Some(Body::TcpStreamOpened(m)) => ("TcpStreamOpened", Some(m.stream_id), None, ""),
        Some(Body::TcpStreamRejected(m)) => ("TcpStreamRejected", Some(m.stream_id), None, ""),
        Some(Body::Data(m)) => ("Data", Some(m.stream_id), Some(m.payload@.len() as usize), "payload-redacted"),
        Some(Body::WindowUpdate(m)) => (
            "WindowUpdate",
            if m.stream_id != 0 {
                Some(m.stream_id)
            } else {
                None
            },
            None,
            if m.stream_id == 0 {
                "connection"
            } else {
                "stream"
            },
        ),
        Some(Body::HalfClose(m)) => ("HalfClose", Some(m.stream_id), None, ""),
        Some(Body::CloseStream(m)) => ("CloseStream", Some(m.stream_id), None, ""),
        Some(Body::ResolveDomain(_)) => ("ResolveDomain", None, None, "hostname-redacted"),
        Some(Body::ResolveResult(m)) => (
            "ResolveResult",
            None,
            Some(total_length(m.ip_addresses@.map_values(|a: Vec<u8>| a@)) as usize),
            "addresses-redacted",
        ),
        Some(Body::RotateSession(_)) => ("RotateSession", None, None, "nonce-redacted"),
        Some(Body::SessionRotated(_)) => ("SessionRotated", None, None, "nonce-redacted"),
        Some(Body::Ping(_)) => ("Ping", None, None, "nonce-redacted"),
        Some(Body::Pong(_)) => ("Pong", None, None, "nonce-redacted"),
        Some(Body::Error(m)) => (
            "Error",
            if m.stream_id != 0 {
                Some(m.stream_id)
            } else {
                None
            },
            None,
            "correlation-redacted",
        ),
        Some(Body::GoAway(_)) => ("GoAway", None, None, ""),
        None => ("Unknown", None, None, "body-missing"),
    }
}

fn addresses_length(v: &Vec<Vec<u8>>) -> (length: usize)
    requires
        total_length(v@.map_values(|a: Vec<u8>| a@)) <= usize::MAX,
    ensures
        length == total_length(v@.map_values(|a: Vec<u8>| a@)),
{
    let ghost views = v@.map_values(|a: Vec<u8>| a@);
    let mut total: usize = 0;
    let mut i: usize = 0;
    while i < v.len()
        invariant
            i <= v@.len(),
            views == v@.map_values(|a: Vec<u8>| a@),
            total_length(views) <= usize::MAX,
            total == total_length(views.take(i as int)),
        decreases v@.len() - i,
    {
        proof {
            assert(views.take(i + 1).drop_last() =~= views.take(i as int));
            lemma_prefix_length(views, i + 1);
        }
        total = total + v[i].len();
        i = i + 1;
    }
    proof {
        assert(views.take(v@.len() as int) =~= views);
    }
    total
}

proof fn lemma_prefix_length(s: Seq<Seq<u8>>, k: int)
    requires
        0 <= k <= s.len(),
    ensures
        total_length(s.take(k)) <= total_length(s),
    decreases s.len(),
{
    if k < s.len() {
        assert(s.drop_last().take(k) =~= s.take(k));
        lemma_prefix_length(s.drop_last(), k);
    } else {
        assert(s.take(k) =~= s);
    }
}

impl FrameSummary {
    /// Summarizes a frame without any of its sensitive values.
    pub fn from_frame(frame: &GatewayFrame) -> (summary: Self)
        requires
            frame.body matches Some(Body::ResolveResult(m)) ==> total_length(
                m.ip_addresses@.map_values(|a: Vec<u8>| a@),
            ) <= usize::MAX,
        ensures
            summary.sequence == frame.sequence,
            (summary.message, summary.stream_id, summary.sensitive_length, summary.detail)
                == summary_parts(*frame),
    {
        let (message, stream_id, sensitive_length, detail): (&'static str, Option<u64>, Option<usize>, &'static str) = match &frame.body {
            Some(Body::ClientHello(m)) => ("ClientHello", None, Some(m.session_nonce.len()), "values-redacted"),
            Some(Body::ServerHello(m)) => (
                "ServerHello",
                None,
                Some(m.server_nonce.len().saturating_add(m.ephemeral_session_id.len())),
                "values-redacted",
            ),
            Some(Body::Authenticate(m)) => (
                "Authenticate",
                None,
                Some(m.anonymous_capability_token.len().saturating_add(m.proof_of_possession.len())),
                "credentials-redacted",
            ),
            Some(Body::AuthenticationResult(_)) => ("AuthenticationResult", None, None, "values-redacted"),
            Some(Body::OpenTcpStream(m)) => {
                let detail: &'static str = match &m.destination {
                    Some(d) => match &d.value {
                        Some(DestinationValue::Hostname(_)) => "hostname-redacted",
                        Some(DestinationValue::IpAddress(_)) => "ip-redacted",
                        None => "destination-missing",
                    },
                    None => "destination-missing",
                };
                ("OpenTcpStream", Some(m.stream_id), None, detail)
            },
            Some(Body::TcpStreamOpened(m)) => ("TcpStreamOpened", Some(m.stream_id), None, ""),
            Some(Body::TcpStreamRejected(m)) => ("TcpStreamRejected", Some(m.stream_id), None, ""),
            Some(Body::Data(m)) => ("Data", Some(m.stream_id), Some(m.payload.len()), "payload-redacted"),
            Some(Body::WindowUpdate(m)) => (
                "WindowUpdate",
                if m.stream_id != 0 {
                    Some(m.stream_id)
                } else {
                    None
                },
                None,
                if m.stream_id == 0 {
                    "connection"
                } else {
                    "stream"
                },
            ),
            Some(Body::HalfClose(m)) => ("HalfClose", Some(m.stream_id), None, ""),
            Some(Body::CloseStream(m)) => ("CloseStream", Some(m.stream_id), None, ""),
            Some(Body::ResolveDomain(_)) => ("ResolveDomain", None, None, "hostname-redacted"),
            Some(Body::ResolveResult(m)) => (
                "ResolveResult",
                None,
                Some(addresses_length(&m.ip_addresses)),
                "addresses-redacted",
            ),
            Some(Body::RotateSession(_)) => ("RotateSession", None, None, "nonce-redacted"),
            Some(Body::SessionRotated(_)) => ("SessionRotated", None, None, "nonce-redacted"),
            Some(Body::Ping(_)) => ("Ping", None, None, "nonce-redacted"),
            Some(Body::Pong(_)) => ("Pong", None, None, "nonce-redacted"),
            Some(Body::Error(m)) => (
                "Error",
                if m.stream_id != 0 {
                    Some(m.stream_id)
                } else {
                    None
                },
                None,
                "correlation-redacted",
            ),
            Some(Body::GoAway(_)) => ("GoAway", None, None, ""),
            None => ("Unknown", None, None, "body-missing"),
        };
        FrameSummary { sequence: frame.sequence, message, stream_id, sensitive_length, detail }
    }
}

/// Incremental debug decoder: it frames and checks bytes and yields each
/// completed frame's envelope; a decoded frame is summarized by
/// `FrameSummary::from_frame`, which keeps no sensitive bytes.
pub struct DebugDecoder {
    inner: FrameDecoder,
}

impl DebugDecoder {
    pub closed spec fn decoder(&self) -> FrameDecoder {
        self.inner
    }

    pub fn new(maximum_frame_size: usize) -> (result: Result<Self, ProtocolError>)
        ensures
            match result {
                Ok(decoder) => decoder.decoder().wf() && decoder.decoder().maximum()
                    == maximum_frame_size && decoder.decoder().pending().len() == 0,
                Err(e) => crate::gateway::framing::maximum_result(maximum_frame_size) == Err::<
                    (),
                    ProtocolError,
                >(e),
            },
    {
        Ok(DebugDecoder { inner: FrameDecoder::new(maximum_frame_size)? })
    }

    /// Feeds bytes to the frame decoder, as `FrameDecoder::push` does.
    pub fn push(&mut self, input: &[u8]) -> (result: Result<DecodeProgress, ProtocolError>)
        requires
            old(self).decoder().wf(),
        ensures
            final(self).decoder().wf(),
            final(self).decoder().maximum() == old(self).decoder().maximum(),
            ({
                let (expected, rest) = crate::gateway::framing::push_outcome(
                    old(self).decoder().maximum(),
                    old(self).decoder().pending(),
                    input@,
                );
                &&& final(self).decoder().pending() == rest
                &&& match (result, expected) {
                    (Ok(progress), Ok((consumed, frame))) => progress.consumed == consumed && match (
                        progress.frame,
                        frame,
                    ) {
                        (None, None) => true,
                        (Some(envelope), Some((sequence, body_tag, bytes))) => envelope.sequence
                            == sequence && envelope.body_tag == body_tag && envelope.encoded@
                            == bytes,
                        _ => false,
                    },
                    (Err(e), Err(f)) => e == f,
                    _ => false,
                }
            }),
    {
        self.inner.push(input)
    }
}

/// ` label` followed by the decimal value, when there is a value.
pub open spec fn optional_part(label: Seq<u8>, value: Option<nat>) -> Seq<u8> {
    match value {
        Some(v) => label + decimal(v),
        None => Seq::empty(),
    }
}

/// The one-line rendering of a summary:
/// `seq=<n> type=<message>[ stream=<id>][ sensitive_bytes=<n>][ detail=<detail>]`.
pub open spec fn rendered(s: FrameSummary) -> Seq<u8> {
    seq![115u8, 101, 113, 61] + decimal(s.sequence as nat) + seq![32u8, 116, 121, 112, 101, 61]
        + encode_utf8(s.message@) + optional_part(
        seq![32u8, 115, 116, 114, 101, 97, 109, 61],
        match s.stream_id {
            Some(id) => Some(id as nat),
            None => None,
        },
    ) + optional_part(
        seq![32u8, 115, 101, 110, 115, 105, 116, 105, 118, 101, 95, 98, 121, 116, 101, 115, 61],
        match s.sensitive_length {
            Some(n) => Some(n as nat),
            None => None,
        },
    ) + if s.detail@.len() == 0 {
        Seq::empty()
    } else {
        seq![32u8, 100, 101, 116, 97, 105, 108, 61] + encode_utf8(s.detail@)
    }
}

/// Appends valid UTF-8 to valid UTF-8.
fn append_text(out: &mut Vec<u8>, bytes: &[u8])
    requires
        valid_utf8(old(out)@),
        valid_utf8(bytes@),
    ensures
        final(out)@ == old(out)@ + bytes@,
        valid_utf8(final(out)@),
{
    append_bytes(out, bytes);
    proof {
        vstd::utf8::valid_utf8_concat(old(out)@, bytes@);
    }
}

fn append_ascii(out: &mut Vec<u8>, bytes: &[u8])
    requires
        valid_utf8(old(out)@),
        forall|i: int| 0 <= i < bytes@.len() ==> #[trigger] bytes@[i] < 128,
    ensures
        final(out)@ == old(out)@ + bytes@,
        valid_utf8(final(out)@),
{
    proof {
        crate::text::lemma_ascii_valid_utf8(bytes@);
    }
    append_text(out, bytes);
}

fn append_number(out: &mut Vec<u8>, v: u64)
    requires
        valid_utf8(old(out)@),
    ensures
        final(out)@ == old(out)@ + decimal(v as nat),
        valid_utf8(final(out)@),
{
    let mut digits: Vec<u8> = Vec::new();
    append_decimal(&mut digits, v);
    proof {
        assert(digits@ =~= decimal(v as nat));
        assert forall|i: int| 0 <= i < digits@.len() implies #[trigger] digits@[i] < 128 by {
            assert(48 <= digits@[i] <= 57);
        }
    }
    append_ascii(out, digits.as_slice());
}

impl FrameSummary {
    /// The one-line rendering described by `rendered`.
    pub fn render(&self) -> (text: String)
        ensures
            crate::text::text_bytes(text) == rendered(*self),
    {
        let mut out: Vec<u8> = Vec::new();
        proof {
            crate::text::lemma_ascii_valid_utf8(out@);
        }
        let seq_label = [115u8, 101, 113, 61];
        append_ascii(&mut out, &seq_label);
        append_number(&mut out, self.sequence);
        let type_label = [32u8, 116, 121, 112, 101, 61];
        append_ascii(&mut out, &type_label);
        proof {
            vstd::utf8::encode_utf8_valid_utf8(self.message@);
        }
        append_text(&mut out, self.message.as_bytes());
        proof {
            assert(seq_label@ =~= seq![115u8, 101, 113, 61]);
            assert(type_label@ =~= seq![32u8, 116, 121, 112, 101, 61]);
        }
        let ghost head = out@;
        let ghost stream_part = optional_part(
            seq![32u8, 115, 116, 114, 101, 97, 109, 61],
            match self.stream_id {
                Some(id) => Some(id as nat),
                None => None,
            },
        );
        if let Some(id) = self.stream_id {
            let label = [32u8, 115, 116, 114, 101, 97, 109, 61];
            append_ascii(&mut out, &label);
            append_number(&mut out, id);
            proof {
                assert(label@ =~= seq![32u8, 115, 116, 114, 101, 97, 109, 61]);
                assert(out@ =~= head + stream_part);
            }
        } else {
            proof {
                assert(out@ =~= head + stream_part);
            }
        }
        let ghost with_stream = out@;
        let ghost length_part = optional_part(
            seq![32u8, 115, 101, 110, 115, 105, 116, 105, 118, 101, 95, 98, 121, 116, 101, 115, 61],
            match self.sensitive_length {
                Some(n) => Some(n as nat),
                None => None,
            },
        );
        if let Some(n) = self.sensitive_length {
            let label = [32u8, 115, 101, 110, 115, 105, 116, 105, 118, 101, 95, 98, 121, 116, 101, 115, 61];
            append_ascii(&mut out, &label);
            append_number(&mut out, n as u64);
            proof {
                assert(label@ =~= seq![32u8, 115, 101, 110, 115, 105, 116, 105, 118, 101, 95, 98, 121, 116, 101, 115, 61]);
                assert(out@ =~= with_stream + length_part);
            }
        } else {
            proof {
                assert(out@ =~= with_stream + length_part);
            }
        }
        let ghost with_length = out@;
        let ghost detail_part = if self.detail@.len() == 0 {
            Seq::<u8>::empty()
        } else {
            seq![32u8, 100, 101, 116, 97, 105, 108, 61] + encode_utf8(self.detail@)
        };
        proof {
            assert(self.detail@.len() == 0 <==> encode_utf8(self.detail@).len() == 0) by {
                if self.detail@.len() != 0 {
                    let d = self.detail@;
                    assert(encode_utf8(d) == vstd::utf8::encode_scalar(d[0] as u32) + encode_utf8(
                        d.drop_first(),
                    ));
                    assert(vstd::utf8::encode_scalar(d[0] as u32).len() >= 1);
                }
            }
        }
        let detail_bytes = self.detail.as_bytes();
        if detail_bytes.len() != 0 {
            let label = [32u8, 100, 101, 116, 97, 105, 108, 61];
            append_ascii(&mut out, &label);
            proof {
                vstd::utf8::encode_utf8_valid_utf8(self.detail@);
                assert(label@ =~= seq![32u8, 100, 101, 116, 97, 105, 108, 61]);
            }
            append_text(&mut out, detail_bytes);
            proof {
                assert(out@ =~= with_length + detail_part);
            }
        } else {
            proof {
                assert(encode_utf8(self.detail@).len() == 0);
                assert(self.detail@.len() == 0);
                assert(out@ =~= with_length + detail_part);
            }
        }
        proof {
            assert(out@ =~= rendered(*self));
        }
        match crate::text::string_from_utf8(out) {
            Some(text) => text,
            None => String::new(),
        }
    }
}

} // verus!
