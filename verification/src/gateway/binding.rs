//! The hello transcript binding that authentication signs or MACs.
use vstd::prelude::*;

use crate::crypto::{sha256, sha256_of};
use crate::gateway::error::ProtocolError;
use crate::gateway::wire::ProtocolVersion;
use crate::text::{append_bytes, be32, be32_bytes};

verus! {

/// The bytes of `onionroute-gateway-auth-v1` followed by a zero byte.
pub open spec fn auth_binding_domain() -> Seq<u8> {
    seq![
        111u8, 110, 105, 111, 110, 114, 111, 117, 116, 101, 45, 103, 97, 116, 101, 119, 97, 121, 45,
        97, 117, 116, 104, 45, 118, 49, 0,
    ]
}

/// What is hashed: the domain, both nonces, the session ID and the selected
/// version's major and minor as big-endian 32-bit values.
pub open spec fn binding_transcript(
    client_nonce: Seq<u8>,
    server_nonce: Seq<u8>,
    session_id: Seq<u8>,
    version: ProtocolVersion,
) -> Seq<u8> {
    auth_binding_domain() + client_nonce + server_nonce + session_id + be32(version.major) + be32(
        version.minor,
    )
}

/// The outcome of `session_nonce_binding`.
pub open spec fn binding_result(
    client_nonce: Seq<u8>,
    server_nonce: Seq<u8>,
    session_id: Seq<u8>,
    version: ProtocolVersion,
) -> Result<Seq<u8>, ProtocolError> {
    if client_nonce.len() != 32 {
        Err(ProtocolError::InvalidField("client_nonce"))
    } else if server_nonce.len() != 32 {
        Err(ProtocolError::InvalidField("server_nonce"))
    } else if session_id.len() != 16 {
        Err(ProtocolError::InvalidField("ephemeral_session_id"))
    } else if version.major == 0 {
        Err(ProtocolError::InvalidField("selected_version"))
    } else {
        Ok(sha256_of(binding_transcript(client_nonce, server_nonce, session_id, version)))
    }
}

fn domain_bytes() -> (bytes: Vec<u8>)
    ensures
        bytes@ == auth_binding_domain(),
{
    let bytes = vec![
        111u8, 110, 105, 111, 110, 114, 111, 117, 116, 101, 45, 103, 97, 116, 101, 119, 97, 121, 45,
        97, 117, 116, 104, 45, 118, 49, 0,
    ];
    assert(bytes@ =~= auth_binding_domain());
    bytes
}

/// Computes the standard v1 hello transcript binding used by `Authenticate`.
/// A token scheme with proof of possession signs or MACs this 32-byte value.
pub fn session_nonce_binding(
    client_nonce: &[u8],
    server_nonce: &[u8],
    ephemeral_session_id: &[u8],
    selected_version: &ProtocolVersion,
) -> (result: Result<[u8; 32], ProtocolError>)
    ensures
        match (result, binding_result(
            client_nonce@,
            server_nonce@,
            ephemeral_session_id@,
            *selected_version,
        )) {
            (Ok(digest), Ok(expected)) => digest@ == expected,
            (Err(e), Err(f)) => e == f,
            _ => false,
        },
{
    if client_nonce.len() != 32 {
        return Err(ProtocolError::InvalidField("client_nonce"));
    }
    if server_nonce.len() != 32 {
        return Err(ProtocolError::InvalidField("server_nonce"));
    }
    if ephemeral_session_id.len() != 16 {
        return Err(ProtocolError::InvalidField("ephemeral_session_id"));
    }
    if selected_version.major == 0 {
        return Err(ProtocolError::InvalidField("selected_version"));
    }
    let mut transcript = domain_bytes();
    append_bytes(&mut transcript, client_nonce);
    append_bytes(&mut transcript, server_nonce);
    append_bytes(&mut transcript, ephemeral_session_id);
    let major = be32_bytes(selected_version.major);
    let minor = be32_bytes(selected_version.minor);
    append_bytes(&mut transcript, &major);
    append_bytes(&mut transcript, &minor);
    proof {
        assert(transcript@ =~= binding_transcript(
            client_nonce@,
            server_nonce@,
            ephemeral_session_id@,
            *selected_version,
        ));
    }
    Ok(sha256(transcript.as_slice()))
}

} // verus!
