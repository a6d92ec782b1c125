//! Version selection and capability negotiation.
//!
//! Capabilities are compared by their bytes. A requested capability may carry
//! the prefix `required:`, which makes the handshake fail when the peer does
//! not enable it.
use vstd::prelude::*;

use crate::gateway::error::ProtocolError;
use crate::gateway::limits::{MAX_CAPABILITIES, MAX_CAPABILITY_NAME};
use crate::gateway::wire::{ProtocolVersion, ProtocolVersionRange};
use crate::text::{bytes_equal, bytes_of_string, contains_text, string_from_ascii, text_bytes, texts};

verus! {

pub const TCP_CONNECT_V1: &'static str = "tcp-connect-v1";
pub const FLOW_CONTROL_V1: &'static str = "flow-control-v1";
pub const RESOLVE_DOMAIN_V1: &'static str = "resolve-domain-v1";
pub const SESSION_ROTATION_V1: &'static str = "session-rotation-v1";

/// The bytes of `tcp-connect-v1`.
pub open spec fn tcp_connect_name() -> Seq<u8> {
    seq![116u8, 99, 112, 45, 99, 111, 110, 110, 101, 99, 116, 45, 118, 49]
}

/// The bytes of `flow-control-v1`.
pub open spec fn flow_control_name() -> Seq<u8> {
    seq![102u8, 108, 111, 119, 45, 99, 111, 110, 116, 114, 111, 108, 45, 118, 49]
}

/// The bytes of `resolve-domain-v1`.
pub open spec fn resolve_domain_name() -> Seq<u8> {
    seq![114u8, 101, 115, 111, 108, 118, 101, 45, 100, 111, 109, 97, 105, 110, 45, 118, 49]
}

/// The bytes of `session-rotation-v1`.
pub open spec fn session_rotation_name() -> Seq<u8> {
    seq![115u8, 101, 115, 115, 105, 111, 110, 45, 114, 111, 116, 97, 116, 105, 111, 110, 45, 118, 49]
}

/// The bytes of `required:`.
pub open spec fn required_prefix() -> Seq<u8> {
    seq![114u8, 101, 113, 117, 105, 114, 101, 100, 58]
}

pub fn tcp_connect_bytes() -> (bytes: Vec<u8>)
    ensures
        bytes@ == tcp_connect_name(),
{
    let bytes = vec![116u8, 99, 112, 45, 99, 111, 110, 110, 101, 99, 116, 45, 118, 49];
    assert(bytes@ =~= tcp_connect_name());
    bytes
}

pub fn flow_control_bytes() -> (bytes: Vec<u8>)
    ensures
        bytes@ == flow_control_name(),
{
    let bytes = vec![102u8, 108, 111, 119, 45, 99, 111, 110, 116, 114, 111, 108, 45, 118, 49];
    assert(bytes@ =~= flow_control_name());
    bytes
}

pub fn resolve_domain_bytes() -> (bytes: Vec<u8>)
    ensures
        bytes@ == resolve_domain_name(),
{
    let bytes = vec![114u8, 101, 115, 111, 108, 118, 101, 45, 100, 111, 109, 97, 105, 110, 45, 118, 49];
    assert(bytes@ =~= resolve_domain_name());
    bytes
}

pub fn session_rotation_bytes() -> (bytes: Vec<u8>)
    ensures
        bytes@ == session_rotation_name(),
{
    let bytes = vec![
        115u8, 101, 115, 115, 105, 111, 110, 45, 114, 111, 116, 97, 116, 105, 111, 110, 45, 118, 49,
    ];
    assert(bytes@ =~= session_rotation_name());
    bytes
}

/// Whether `b` begins with `required:`.
pub open spec fn is_required(b: Seq<u8>) -> bool {
    b.len() >= 9 && b.subrange(0, 9) == required_prefix()
}

/// A capability's name: its bytes without the `required:` prefix.
pub open spec fn capability_name(b: Seq<u8>) -> Seq<u8> {
    if is_required(b) {
        b.subrange(9, b.len() as int)
    } else {
        b
    }
}

/// Bytes allowed in a capability: lower-case letters, digits, `-`, `:` and `.`.
pub open spec fn capability_byte(c: u8) -> bool {
    (97 <= c <= 122) || (48 <= c <= 57) || c == 45 || c == 58 || c == 46
}

/// A well-formed capability: one to 64 allowed bytes whose name is non-empty
/// and neither begins nor ends with `-`.
pub open spec fn capability_well_formed(b: Seq<u8>) -> bool {
    let name = capability_name(b);
    &&& 1 <= b.len() <= MAX_CAPABILITY_NAME
    &&& forall|i: int| 0 <= i < b.len() ==> capability_byte(#[trigger] b[i])
    &&& name.len() > 0
    &&& name[0] != 45
    &&& name[name.len() - 1] != 45
}

/// The outcome of `validate_capabilities`.
pub open spec fn capabilities_result(caps: Seq<Seq<u8>>) -> Result<(), ProtocolError> {
    if caps.len() > MAX_CAPABILITIES {
        Err(ProtocolError::InvalidField("capabilities"))
    } else if exists|i: int| 0 <= i < caps.len() && !capability_well_formed(#[trigger] caps[i]) {
        Err(ProtocolError::InvalidField("capability_name"))
    } else {
        Ok(())
    }
}

pub fn version(major: u32, minor: u32) -> (v: ProtocolVersion)
    ensures
        v == (ProtocolVersion { major, minor }),
{
    ProtocolVersion { major, minor }
}

pub fn version_range(major: u32, minimum_minor: u32, maximum_minor: u32) -> (range:
    ProtocolVersionRange)
    ensures
        range == (ProtocolVersionRange {
            minimum: Some(ProtocolVersion { major, minor: minimum_minor }),
            maximum: Some(ProtocolVersion { major, minor: maximum_minor }),
        }),
{
    ProtocolVersionRange {
        minimum: Some(version(major, minimum_minor)),
        maximum: Some(version(major, maximum_minor)),
    }
}

/// The outcome of `validate_version_range`: the major with the minor bounds.
pub open spec fn version_range_result(range: ProtocolVersionRange) -> Result<
    (u32, u32, u32),
    ProtocolError,
> {
    match (range.minimum, range.maximum) {
        (None, _) => Err(ProtocolError::InvalidField("minimum_version")),
        (Some(_), None) => Err(ProtocolError::InvalidField("maximum_version")),
        (Some(minimum), Some(maximum)) => if minimum.major == 0 || minimum.major != maximum.major
            || minimum.minor > maximum.minor {
            Err(ProtocolError::InvalidField("supported_versions"))
        } else {
            Ok((minimum.major, minimum.minor, maximum.minor))
        },
    }
}

pub fn validate_version_range(range: &ProtocolVersionRange) -> (result: Result<
    (u32, u32, u32),
    ProtocolError,
>)
    ensures
        result == version_range_result(*range),
{
    let minimum = match range.minimum {
        Some(minimum) => minimum,
        None => return Err(ProtocolError::InvalidField("minimum_version")),
    };
    let maximum = match range.maximum {
        Some(maximum) => maximum,
        None => return Err(ProtocolError::InvalidField("maximum_version")),
    };
    if minimum.major == 0 || minimum.major != maximum.major || minimum.minor > maximum.minor {
        return Err(ProtocolError::InvalidField("supported_versions"));
    }
    Ok((minimum.major, minimum.minor, maximum.minor))
}

/// The outcome of `select_version`: the highest minor common to both ranges
/// within one major.
pub open spec fn selection_result(client: ProtocolVersionRange, server: ProtocolVersionRange) -> Result<
    ProtocolVersion,
    ProtocolError,
> {
    match version_range_result(client) {
        Err(e) => Err(e),
        Ok((client_major, client_min, client_max)) => match version_range_result(server) {
            Err(e) => Err(e),
            Ok((server_major, server_min, server_max)) => {
                let minimum = if client_min >= server_min {
                    client_min
                } else {
                    server_min
                };
                let maximum = if client_max <= server_max {
                    client_max
                } else {
                    server_max
                };
                if client_major != server_major || minimum > maximum {
                    Err(ProtocolError::IncompatibleVersion)
                } else {
                    Ok(ProtocolVersion { major: client_major, minor: maximum })
                }
            },
        },
    }
}

/// Selects the highest common minor within one major.
pub fn select_version(client: &ProtocolVersionRange, server: &ProtocolVersionRange) -> (result:
    Result<ProtocolVersion, ProtocolError>)
    ensures
        result == selection_result(*client, *server),
{
    let (client_major, client_min, client_max) = validate_version_range(client)?;
    let (server_major, server_min, server_max) = validate_version_range(server)?;
    if client_major != server_major {
        return Err(ProtocolError::IncompatibleVersion);
    }
    let minimum = if client_min >= server_min {
        client_min
    } else {
        server_min
    };
    let maximum = if client_max <= server_max {
        client_max
    } else {
        server_max
    };
    if minimum > maximum {
        return Err(ProtocolError::IncompatibleVersion);
    }
    Ok(version(client_major, maximum))
}

/// Verifies both that the selected version is allowed and that the server did
/// not silently choose a lower minor than the advertised highest intersection.
pub fn verify_server_selection(
    client: &ProtocolVersionRange,
    server: &ProtocolVersionRange,
    selected: &ProtocolVersion,
) -> (result: Result<(), ProtocolError>)
    ensures
        result == match selection_result(*client, *server) {
            Err(e) => Err(e),
            Ok(expected) => if expected == *selected {
                Ok(())
            } else {
                Err(ProtocolError::SilentDowngrade)
            },
        },
{
    let expected = select_version(client, server)?;
    if expected.major != selected.major || expected.minor != selected.minor {
        return Err(ProtocolError::SilentDowngrade);
    }
    Ok(())
}

/// Whether `b` begins with `required:`.
fn has_required_prefix(b: &[u8]) -> (r: bool)
    ensures
        r == is_required(b@),
{
    if b.len() < 9 {
        return false;
    }
    let r = b[0] == 114 && b[1] == 101 && b[2] == 113 && b[3] == 117 && b[4] == 105 && b[5] == 114
        && b[6] == 101 && b[7] == 100 && b[8] == 58;
    proof {
        if r {
            assert(b@.subrange(0, 9) =~= required_prefix());
        } else {
            if b@.subrange(0, 9) == required_prefix() {
                assert(b@.subrange(0, 9)[0] == b@[0]);
                assert(b@.subrange(0, 9)[8] == b@[8]);
                assert(b@.subrange(0, 9)[1] == b@[1]);
                assert(b@.subrange(0, 9)[2] == b@[2]);
                assert(b@.subrange(0, 9)[3] == b@[3]);
                assert(b@.subrange(0, 9)[4] == b@[4]);
                assert(b@.subrange(0, 9)[5] == b@[5]);
                assert(b@.subrange(0, 9)[6] == b@[6]);
                assert(b@.subrange(0, 9)[7] == b@[7]);
            }
        }
    }
    r
}

/// The name of capability bytes `b`, as a slice of `b`.
fn name_bytes(b: &[u8]) -> (name: &[u8])
    ensures
        name@ == capability_name(b@),
{
    if has_required_prefix(b) {
        let (_, rest) = b.split_at(9);
        rest
    } else {
        b
    }
}

fn capability_ok(b: &[u8]) -> (ok: bool)
    ensures
        ok == capability_well_formed(b@),
{
    if b.len() == 0 || b.len() > MAX_CAPABILITY_NAME {
        return false;
    }
    let mut i: usize = 0;
    while i < b.len()
        invariant
            i <= b@.len(),
            forall|k: int| 0 <= k < i ==> capability_byte(#[trigger] b@[k]),
        decreases b@.len() - i,
    {
        let c = b[i];
        if !((c >= 97 && c <= 122) || (c >= 48 && c <= 57) || c == 45 || c == 58 || c == 46) {
            return false;
        }
        i = i + 1;
    }
    let name = name_bytes(b);
    name.len() > 0 && name[0] != 45 && name[name.len() - 1] != 45
}

pub fn validate_capabilities(capabilities: &[String]) -> (result: Result<(), ProtocolError>)
    ensures
        result == capabilities_result(texts(capabilities@)),
{
    if capabilities.len() > MAX_CAPABILITIES {
        return Err(ProtocolError::InvalidField("capabilities"));
    }
    let mut i: usize = 0;
    while i < capabilities.len()
        invariant
            i <= capabilities@.len(),
            capabilities@.len() <= MAX_CAPABILITIES,
            forall|k: int| 0 <= k < i ==> capability_well_formed(#[trigger] texts(capabilities@)[k]),
        decreases capabilities@.len() - i,
    {
        if !capability_ok(bytes_of_string(&capabilities[i])) {
            proof {
                assert(!capability_well_formed(texts(capabilities@)[i as int]));
            }
            return Err(ProtocolError::InvalidField("capability_name"));
        }
        i = i + 1;
    }
    Ok(())
}

/// Whether the name of `caps[i]` equals the name of an earlier entry.
pub open spec fn repeats_earlier(caps: Seq<Seq<u8>>, i: int) -> bool {
    exists|j: int| 0 <= j < i && capability_name(#[trigger] caps[j]) == capability_name(caps[i])
}

/// The names enabled from `caps[i..]`, or the first failure among them.
pub open spec fn negotiation_from(caps: Seq<Seq<u8>>, i: int, supported: Seq<Seq<u8>>) -> Result<
    Seq<Seq<u8>>,
    ProtocolError,
>
    decreases caps.len() - i,
{
    if i < 0 || i >= caps.len() {
        Ok(Seq::empty())
    } else if repeats_earlier(caps, i) {
        Err(ProtocolError::InvalidField("duplicate_capability"))
    } else if supported.contains(capability_name(caps[i])) {
        match negotiation_from(caps, i + 1, supported) {
            Ok(rest) => Ok(seq![capability_name(caps[i])] + rest),
            Err(e) => Err(e),
        }
    } else if is_required(caps[i]) {
        Err(ProtocolError::IncompatibleVersion)
    } else {
        negotiation_from(caps, i + 1, supported)
    }
}

/// The outcome of `negotiate_capabilities`: the names of the requested
/// capabilities that the server supports, in request order.
pub open spec fn negotiation_result(requested: Seq<Seq<u8>>, supported: Seq<Seq<u8>>) -> Result<
    Seq<Seq<u8>>,
    ProtocolError,
> {
    match capabilities_result(requested) {
        Err(e) => Err(e),
        Ok(()) => negotiation_from(requested, 0, supported),
    }
}

spec fn prepend(head: Seq<Seq<u8>>, r: Result<Seq<Seq<u8>>, ProtocolError>) -> Result<
    Seq<Seq<u8>>,
    ProtocolError,
> {
    match r {
        Ok(rest) => Ok(head + rest),
        Err(e) => Err(e),
    }
}

/// The index of an earlier request with the same name as `names[i]`, if any.
fn earlier_with_name(names: &Vec<Vec<u8>>, name: &[u8]) -> (found: bool)
    ensures
        found == exists|j: int| 0 <= j < names@.len() && #[trigger] names@[j]@ == name@,
{
    let mut j: usize = 0;
    while j < names.len()
        invariant
            j <= names@.len(),
            forall|k: int| 0 <= k < j ==> #[trigger] names@[k]@ != name@,
        decreases names@.len() - j,
    {
        if bytes_equal(names[j].as_slice(), name) {
            return true;
        }
        j = j + 1;
    }
    false
}

fn copy_vec(b: &[u8]) -> (v: Vec<u8>)
    ensures
        v@ == b@,
{
    let mut v: Vec<u8> = Vec::new();
    crate::text::append_bytes(&mut v, b);
    proof {
        assert(v@ =~= b@);
    }
    v
}

pub fn negotiate_capabilities(requested: &[String], server_supported: &[String]) -> (result: Result<
    Vec<String>,
    ProtocolError,
>)
    ensures
        match (result, negotiation_result(texts(requested@), texts(server_supported@))) {
            (Ok(enabled), Ok(names)) => texts(enabled@) == names,
            (Err(e), Err(f)) => e == f,
            _ => false,
        },
{
    validate_capabilities(requested)?;
    let ghost caps = texts(requested@);
    let ghost supported = texts(server_supported@);
    let mut seen: Vec<Vec<u8>> = Vec::new();
    let mut enabled: Vec<String> = Vec::new();
    let mut i: usize = 0;
    while i < requested.len()
        invariant
            i <= requested@.len(),
            caps == texts(requested@),
            supported == texts(server_supported@),
            capabilities_result(caps) is Ok,
            seen@.len() == i,
            forall|k: int| 0 <= k < i ==> #[trigger] seen@[k]@ == capability_name(caps[k]),
            forall|a: int, b: int| 0 <= a < b < i ==> capability_name(#[trigger] caps[a])
                != capability_name(#[trigger] caps[b]),
            negotiation_from(caps, 0, supported) == prepend(
                texts(enabled@),
                negotiation_from(caps, i as int, supported),
            ),
        decreases requested@.len() - i,
    {
        let bytes = bytes_of_string(&requested[i]);
        let required = has_required_prefix(bytes);
        let name = name_bytes(bytes);
        proof {
            assert(caps[i as int] == bytes@);
        }
        if earlier_with_name(&seen, name) {
            proof {
                let j = choose|j: int| 0 <= j < seen@.len() && #[trigger] seen@[j]@ == name@;
                assert(capability_name(caps[j]) == capability_name(caps[i as int]));
                assert(repeats_earlier(caps, i as int));
            }
            return Err(ProtocolError::InvalidField("duplicate_capability"));
        }
        proof {
            assert(!repeats_earlier(caps, i as int)) by {
                if repeats_earlier(caps, i as int) {
                    let j = choose|j: int| 0 <= j < i && capability_name(#[trigger] caps[j])
                        == capability_name(caps[i as int]);
                    assert(seen@[j]@ == name@);
                }
            }
        }
        let is_supported = contains_text(server_supported, name);
        if is_supported {
            proof {
                assert(capability_well_formed(caps[i as int]));
                assert forall|k: int| 0 <= k < name@.len() implies #[trigger] name@[k] < 128 by {
                    if is_required(bytes@) {
                        assert(name@[k] == bytes@[k + 9]);
                    }
                    assert(capability_byte(bytes@[if is_required(bytes@) { k + 9 } else { k }]));
                }
            }
            let owned = string_from_ascii(name);
            let ghost before = texts(enabled@);
            enabled.push(owned);
            proof {
                assert(texts(enabled@) =~= before.push(name@));
                assert(before.push(name@) =~= before + seq![name@]);
                match negotiation_from(caps, i + 1, supported) {
                    Ok(rest) => {
                        assert(before + (seq![name@] + rest) =~= before.push(name@) + rest);
                    },
                    Err(_) => {},
                }
            }
        } else if required {
            return Err(ProtocolError::IncompatibleVersion);
        }
        seen.push(copy_vec(name));
        proof {
            assert forall|a: int, b: int| 0 <= a < b < i + 1 implies capability_name(
                #[trigger] caps[a],
            ) != capability_name(#[trigger] caps[b]) by {
                if b == i {
                    assert(!repeats_earlier(caps, i as int));
                    if capability_name(caps[a]) == capability_name(caps[b]) {
                        assert(0 <= a < i && capability_name(caps[a]) == capability_name(caps[i as int]));
                    }
                }
            }
        }
        i = i + 1;
    }
    proof {
        assert(texts(enabled@) + Seq::<Seq<u8>>::empty() =~= texts(enabled@));
    }
    Ok(enabled)
}

/// The outcome of `verify_enabled_capabilities`: the server may enable only
/// requested names, each once, and must enable every required one.
pub open spec fn enabled_check_result(requested: Seq<Seq<u8>>, enabled: Seq<Seq<u8>>) -> Result<
    (),
    ProtocolError,
> {
    match capabilities_result(requested) {
        Err(e) => Err(e),
        Ok(()) => match capabilities_result(enabled) {
            Err(e) => Err(e),
            Ok(()) => if (exists|a: int, b: int|
                0 <= a < b < enabled.len() && #[trigger] enabled[a] == #[trigger] enabled[b]) || (
            exists|k: int|
                0 <= k < enabled.len() && !requested.map_values(|r: Seq<u8>| capability_name(r)).contains(
                    #[trigger] enabled[k],
                )) {
                Err(ProtocolError::ProtocolViolation("server enabled an unrequested capability"))
            } else if exists|k: int|
                0 <= k < requested.len() && is_required(#[trigger] requested[k]) && !enabled.contains(
                    capability_name(requested[k]),
                ) {
                Err(ProtocolError::IncompatibleVersion)
            } else {
                Ok(())
            },
        },
    }
}

/// Whether some entry of `requested` has the name `name`.
fn requested_name(requested: &[String], name: &[u8]) -> (found: bool)
    ensures
        found == texts(requested@).map_values(|r: Seq<u8>| capability_name(r)).contains(name@),
{
    let ghost names = texts(requested@).map_values(|r: Seq<u8>| capability_name(r));
    let mut i: usize = 0;
    while i < requested.len()
        invariant
            i <= requested@.len(),
            names == texts(requested@).map_values(|r: Seq<u8>| capability_name(r)),
            forall|k: int| 0 <= k < i ==> #[trigger] names[k] != name@,
        decreases requested@.len() - i,
    {
        let candidate = name_bytes(bytes_of_string(&requested[i]));
        if bytes_equal(candidate, name) {
            proof {
                assert(names[i as int] == name@);
            }
            return true;
        }
        i = i + 1;
    }
    proof {
        if names.contains(name@) {
            let k = choose|k: int| 0 <= k < names.len() && names[k] == name@;
            assert(names[k] != name@);
        }
    }
    false
}

pub fn verify_enabled_capabilities(requested: &[String], enabled: &[String]) -> (result: Result<
    (),
    ProtocolError,
>)
    ensures
        result == enabled_check_result(texts(requested@), texts(enabled@)),
{
    validate_capabilities(requested)?;
    validate_capabilities(enabled)?;
    let ghost req = texts(requested@);
    let ghost en = texts(enabled@);
    let mut k: usize = 0;
    while k < enabled.len()
        invariant
            k <= enabled@.len(),
            req == texts(requested@),
            en == texts(enabled@),
            capabilities_result(req) is Ok,
            capabilities_result(en) is Ok,
            forall|a: int, b: int| 0 <= a < b < k ==> #[trigger] en[a] != #[trigger] en[b],
            forall|j: int| 0 <= j < k ==> req.map_values(|r: Seq<u8>| capability_name(r)).contains(
                #[trigger] en[j],
            ),
        decreases enabled@.len() - k,
    {
        let name = bytes_of_string(&enabled[k]);
        let mut j: usize = 0;
        while j < k
            invariant
                j <= k < enabled@.len(),
                en == texts(enabled@),
                req == texts(requested@),
                capabilities_result(req) is Ok,
                capabilities_result(en) is Ok,
                name@ == en[k as int],
                forall|a: int| 0 <= a < j ==> #[trigger] en[a] != en[k as int],
            decreases k - j,
        {
            if bytes_equal(bytes_of_string(&enabled[j]), name) {
                proof {
                    assert(en[j as int] == en[k as int]);
                }
                return Err(ProtocolError::ProtocolViolation("server enabled an unrequested capability"));
            }
            j = j + 1;
        }
        if !requested_name(requested, name) {
            proof {
                assert(!req.map_values(|r: Seq<u8>| capability_name(r)).contains(en[k as int]));
            }
            return Err(ProtocolError::ProtocolViolation("server enabled an unrequested capability"));
        }
        k = k + 1;
    }
    let mut i: usize = 0;
    while i < requested.len()
        invariant
            i <= requested@.len(),
            req == texts(requested@),
            en == texts(enabled@),
            capabilities_result(req) is Ok,
            capabilities_result(en) is Ok,
            forall|a: int, b: int| 0 <= a < b < en.len() ==> #[trigger] en[a] != #[trigger] en[b],
            forall|j: int| 0 <= j < en.len() ==> req.map_values(|r: Seq<u8>| capability_name(r)).contains(
                #[trigger] en[j],
            ),
            forall|m: int| 0 <= m < i && is_required(#[trigger] req[m]) ==> en.contains(
                capability_name(req[m]),
            ),
        decreases requested@.len() - i,
    {
        let bytes = bytes_of_string(&requested[i]);
        if has_required_prefix(bytes) {
            let name = name_bytes(bytes);
            if !contains_text(enabled, name) {
                proof {
                    assert(req[i as int] == bytes@);
                    assert(is_required(req[i as int]) && !en.contains(capability_name(req[i as int])));
                }
                return Err(ProtocolError::IncompatibleVersion);
            }
        }
        i = i + 1;
    }
    Ok(())
}

/// Whether `v` lies in a well-formed range.
pub open spec fn in_range(v: ProtocolVersion, range: ProtocolVersionRange) -> bool {
    match version_range_result(range) {
        Ok((major, minimum, maximum)) => v.major == major && minimum <= v.minor <= maximum,
        Err(_) => false,
    }
}

/// Version selection picks a version both sides support and no common
/// version is higher; it fails with `IncompatibleVersion` exactly when both
/// ranges are well-formed and share no version.
pub proof fn lemma_selection_is_maximal(client: ProtocolVersionRange, server: ProtocolVersionRange)
    ensures
        selection_result(client, server) matches Ok(v) ==> in_range(v, client) && in_range(v, server)
            && forall|w: ProtocolVersion| #[trigger] in_range(w, client) && in_range(w, server)
                ==> w.minor <= v.minor,
        selection_result(client, server) == Err::<ProtocolVersion, ProtocolError>(
            ProtocolError::IncompatibleVersion,
        ) ==> forall|w: ProtocolVersion| !(#[trigger] in_range(w, client) && in_range(w, server)),
{
}

/// A server's selection passes verification exactly when it is the maximal
/// common version.
pub proof fn lemma_only_maximal_selection_verifies(
    client: ProtocolVersionRange,
    server: ProtocolVersionRange,
    selected: ProtocolVersion,
)
    requires
        selection_result(client, server) is Ok,
    ensures
        (match selection_result(client, server) {
            Err(e) => Err(e),
            Ok(expected) => if expected == selected {
                Ok(())
            } else {
                Err(ProtocolError::SilentDowngrade)
            },
        }) is Ok <==> selection_result(client, server) == Ok::<ProtocolVersion, ProtocolError>(
            selected,
        ),
{
}

/// What negotiating `caps[i..]` enables: names of those capabilities, each once,
/// covering every required one, with no name repeating an earlier request.
proof fn lemma_negotiation_from_facts(caps: Seq<Seq<u8>>, i: int, supported: Seq<Seq<u8>>)
    requires
        0 <= i <= caps.len(),
        negotiation_from(caps, i, supported) is Ok,
    ensures
        ({
            let rest = negotiation_from(caps, i, supported)->Ok_0;
            &&& rest.len() <= caps.len() - i
            &&& forall|k: int|
                0 <= k < rest.len() ==> exists|j: int|
                    i <= j < caps.len() && #[trigger] rest[k] == capability_name(caps[j])
            &&& forall|j: int|
                i <= j < caps.len() && is_required(#[trigger] caps[j]) ==> rest.contains(
                    capability_name(caps[j]),
                )
            &&& forall|j: int| i <= j < caps.len() ==> !#[trigger] repeats_earlier(caps, j)
            &&& forall|a: int, b: int| 0 <= a < b < rest.len() ==> #[trigger] rest[a] != #[trigger] rest[b]
        }),
    decreases caps.len() - i,
{
    let rest = negotiation_from(caps, i, supported)->Ok_0;
    if i < caps.len() {
        assert(!repeats_earlier(caps, i));
        let tail = negotiation_from(caps, i + 1, supported)->Ok_0;
        lemma_negotiation_from_facts(caps, i + 1, supported);
        let n = capability_name(caps[i]);
        if supported.contains(n) {
            assert(rest == seq![n] + tail);
            assert forall|k: int| 0 <= k < rest.len() implies exists|j: int|
                i <= j < caps.len() && #[trigger] rest[k] == capability_name(caps[j]) by {
                if k == 0 {
                    assert(rest[k] == capability_name(caps[i]));
                } else {
                    assert(rest[k] == tail[k - 1]);
                    let j = choose|j: int| i + 1 <= j < caps.len() && #[trigger] tail[k - 1] == capability_name(caps[j]);
                    assert(rest[k] == capability_name(caps[j]));
                }
            }
            assert forall|j: int| i <= j < caps.len() && is_required(#[trigger] caps[j]) implies rest.contains(
                capability_name(caps[j]),
            ) by {
                if j == i {
                    assert(rest[0] == n);
                } else {
                    assert(tail.contains(capability_name(caps[j])));
                    let k = choose|k: int| 0 <= k < tail.len() && tail[k] == capability_name(caps[j]);
                    assert(rest[k + 1] == tail[k]);
                }
            }
            assert forall|a: int, b: int| 0 <= a < b < rest.len() implies #[trigger] rest[a] != #[trigger] rest[b] by {
                if a == 0 {
                    assert(rest[b] == tail[b - 1]);
                    let j = choose|j: int| i + 1 <= j < caps.len() && #[trigger] tail[b - 1] == capability_name(caps[j]);
                    assert(!repeats_earlier(caps, j));
                    if rest[a] == rest[b] {
                        assert(capability_name(caps[i]) == capability_name(caps[j]));
                        assert(repeats_earlier(caps, j));
                    }
                } else {
                    assert(rest[a] == tail[a - 1]);
                    assert(rest[b] == tail[b - 1]);
                }
            }
        } else {
            assert(!is_required(caps[i]));
            assert(rest == tail);
        }
    }
}

/// A capability's name is itself well-formed, unless it too begins with `required:`.
proof fn lemma_name_well_formed(c: Seq<u8>)
    requires
        capability_well_formed(c),
        !(is_required(c) && is_required(capability_name(c))),
    ensures
        capability_well_formed(capability_name(c)),
{
    let n = capability_name(c);
    if is_required(c) {
        assert forall|k: int| 0 <= k < n.len() implies capability_byte(#[trigger] n[k]) by {
            assert(n[k] == c[k + 9]);
        }
        assert(capability_name(n) == n);
    }
}

/// A client accepts what an honest server negotiates: the capabilities enabled by
/// `negotiate_capabilities` pass `verify_enabled_capabilities` for the same request,
/// provided no request begins with `required:` twice.
pub proof fn lemma_negotiated_capabilities_verify(
    requested: Seq<Seq<u8>>,
    supported: Seq<Seq<u8>>,
    enabled: Seq<Seq<u8>>,
)
    requires
        negotiation_result(requested, supported) == Ok::<Seq<Seq<u8>>, ProtocolError>(enabled),
        forall|k: int|
            0 <= k < requested.len() ==> !(is_required(#[trigger] requested[k]) && is_required(
                capability_name(requested[k]),
            )),
    ensures
        enabled_check_result(requested, enabled) == Ok::<(), ProtocolError>(()),
{
    assert(capabilities_result(requested) is Ok);
    lemma_negotiation_from_facts(requested, 0, supported);
    let names = requested.map_values(|r: Seq<u8>| capability_name(r));
    assert forall|k: int| 0 <= k < enabled.len() implies capability_well_formed(#[trigger] enabled[k])
        && names.contains(enabled[k]) by {
        let j = choose|j: int| 0 <= j < requested.len() && #[trigger] enabled[k] == capability_name(requested[j]);
        assert(capability_well_formed(requested[j]));
        lemma_name_well_formed(requested[j]);
        assert(names[j] == enabled[k]);
    }
    assert(capabilities_result(enabled) is Ok);
    assert(!(exists|a: int, b: int|
        0 <= a < b < enabled.len() && #[trigger] enabled[a] == #[trigger] enabled[b]));
    assert(!(exists|k: int|
        0 <= k < enabled.len() && !names.contains(#[trigger] enabled[k])));
    assert(!(exists|k: int|
        0 <= k < requested.len() && is_required(#[trigger] requested[k]) && !enabled.contains(
            capability_name(requested[k]),
        )));
}

} // verus!
