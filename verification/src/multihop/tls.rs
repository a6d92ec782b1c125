//! The checks around the TLS 1.3 mutual-authentication boundary between
//! gateways: the negotiated parameters, the peer's pinned leaf, and the
//! authenticated stream with its exporter binding.
use vstd::prelude::*;

use crate::crypto::sha256_of;
use crate::multihop::error::{Error, ErrorCode};
use crate::multihop::identity::{authorization, leaf_digest, pins_distinct, IdentityPurpose, PeerIdentity, TrustBundle};
use crate::multihop::route::GatewayRole;

verus! {

/// The ALPN protocol of the inter-gateway transport:
/// "onionroute-inter-gateway/1".
pub open spec fn inter_gateway_alpn() -> Seq<u8> {
    seq![111u8, 110, 105, 111, 110, 114, 111, 117, 116, 101, 45, 105, 110, 116, 101, 114, 45, 103, 97, 116, 101, 119, 97, 121, 47, 49]
}

/// The ALPN protocol, as bytes.
pub fn alpn_protocol() -> (alpn: Vec<u8>)
    ensures
        alpn@ == inter_gateway_alpn(),
{
    let alpn = vec![111u8, 110, 105, 111, 110, 114, 111, 117, 116, 101, 45, 105, 110, 116, 101, 114, 45, 103, 97, 116, 101, 119, 97, 121, 47, 49];
    assert(alpn@ =~= inter_gateway_alpn());
    alpn
}

/// The connection must have negotiated TLS 1.3 and the inter-gateway ALPN
/// protocol (`ProtocolIncompatible` otherwise).
pub fn ensure_tls_parameters(negotiated_tls13: bool, alpn: Option<&[u8]>) -> (result: Result<(), Error>)
    ensures
        result is Ok <==> negotiated_tls13 && (alpn matches Some(a) && a@ == inter_gateway_alpn()),
        result matches Err(e) ==> e.code == ErrorCode::ProtocolIncompatible,
{
    let expected = alpn_protocol();
    let alpn_ok = match alpn {
        Some(a) => crate::text::bytes_equal(a, expected.as_slice()),
        None => false,
    };
    if !negotiated_tls13 || !alpn_ok {
        return Err(Error::new(ErrorCode::ProtocolIncompatible));
    }
    Ok(())
}

/// The local identity of a connector or acceptor must be a data-plane
/// identity of the given role (`WrongRole` otherwise).
pub fn check_local_identity(identity: &PeerIdentity, role: GatewayRole) -> (result: Result<(), Error>)
    ensures
        result is Ok <==> identity.role == role && identity.purpose == IdentityPurpose::InterGatewayDataPlane,
        result matches Err(e) ==> e.code == ErrorCode::WrongRole,
{
    if identity.role != role || identity.purpose != IdentityPurpose::InterGatewayDataPlane {
        return Err(Error::new(ErrorCode::WrongRole));
    }
    Ok(())
}

/// Identifies the peer of a finished TLS handshake by its first certificate:
/// none is `InvalidIdentity`; otherwise the leaf must authorize as a
/// data-plane identity of the expected role (and service ID, if given).
pub fn identify_peer(
    bundle: &TrustBundle,
    leaf: Option<&[u8]>,
    expected_role: GatewayRole,
    expected_service_id: Option<&str>,
    now_unix_seconds: u64,
) -> (result: Result<PeerIdentity, Error>)
    requires
        pins_distinct(bundle.peers_spec()),
    ensures
        leaf is None ==> result == Err::<PeerIdentity, Error>(Error { code: ErrorCode::InvalidIdentity }),
        leaf matches Some(l) ==> match authorization(
            *bundle,
            leaf_digest(l@),
            expected_role,
            IdentityPurpose::InterGatewayDataPlane,
            match expected_service_id {
                Some(id) => Some(id@),
                None => None,
            },
            now_unix_seconds,
        ) {
            Ok(peer) => result == Ok::<PeerIdentity, Error>(peer),
            Err(code) => result == Err::<PeerIdentity, Error>(Error { code }),
        },
{
    match leaf {
        Some(l) => bundle.authorize_leaf(
            l,
            expected_role,
            IdentityPurpose::InterGatewayDataPlane,
            expected_service_id,
            now_unix_seconds,
        ),
        None => Err(Error::new(ErrorCode::InvalidIdentity)),
    }
}

/// An authenticated TLS stream with its peer and the ephemeral exporter
/// binding that the application handshake binds to. The binding is never to
/// be logged.
pub struct AuthenticatedTls<T> {
    io: T,
    peer: PeerIdentity,
    channel_binding: [u8; 32],
}

impl<T> AuthenticatedTls<T> {
    pub closed spec fn peer_spec(&self) -> PeerIdentity {
        self.peer
    }

    pub closed spec fn channel_binding_spec(&self) -> [u8; 32] {
        self.channel_binding
    }

    /// A stream whose peer was identified and whose exporter binding was
    /// taken from the TLS session.
    pub fn new(io: T, peer: PeerIdentity, channel_binding: [u8; 32]) -> (tls: Self)
        ensures
            tls.peer_spec() == peer,
            tls.channel_binding_spec() == channel_binding,
    {
        AuthenticatedTls { io, peer, channel_binding }
    }

    pub fn peer(&self) -> (peer: &PeerIdentity)
        ensures
            *peer == self.peer_spec(),
    {
        &self.peer
    }

    pub fn channel_binding(&self) -> (binding: &[u8; 32])
        ensures
            *binding == self.channel_binding_spec(),
    {
        &self.channel_binding
    }

    pub fn io_mut(&mut self) -> &mut T {
        &mut self.io
    }

    pub fn into_inner(self) -> T {
        self.io
    }
}

} // verus!
