//! Destination policy with a hostname pre-check and a resolved-address
//! post-check. The policy fails closed: emergency rules can only add denials.
use vstd::prelude::*;
use vstd::utf8::encode_utf8;

use crate::address::{same_address, is_non_public, network_contains, network_holds, network_valid, non_public, IpNetwork};
use crate::daemon::dns::{all_ascii, label_views, split_dots, split_labels, IpAddress};
use crate::daemon::error::{GatewayError, GatewayErrorCode};
use crate::text::{
    ascii_lower, bytes_equal, is_alphanumeric_byte, is_ascii_alphanumeric, lemma_ascii_valid_utf8,
    string_from_utf8, to_lower_byte,
};

verus! {

/// A stream's destination: a hostname, resolved later, or an address.
#[derive(Clone, Debug, PartialEq, Eq)]
pub enum Destination {
    Hostname(String),
    Ip(IpAddress),
}

pub open spec fn policy_denied() -> GatewayError {
    GatewayError { code: GatewayErrorCode::PolicyDenied }
}

/// A DNS label: 1 to 63 letters, digits and hyphens, not starting or ending
/// with a hyphen.
pub open spec fn label_ok(label: Seq<u8>) -> bool {
    &&& 1 <= label.len() <= 63
    &&& label[0] != 45
    &&& label[label.len() - 1] != 45
    &&& forall|i: int| 0 <= i < label.len() ==> is_ascii_alphanumeric(#[trigger] label[i]) || label[i] == 45
}

pub open spec fn labels_ok(labels: Seq<Seq<u8>>) -> bool {
    forall|k: int| 0 <= k < labels.len() ==> label_ok(#[trigger] labels[k])
}

/// The decimal value of a string of digits.
pub open spec fn decimal_value(digits: Seq<u8>) -> nat
    decreases digits.len(),
{
    if digits.len() == 0 {
        0
    } else {
        decimal_value(digits.drop_last()) * 10 + (digits.last() - 48) as nat
    }
}

/// One octet of a dotted-decimal IPv4 address: one to three digits, no
/// leading zero, at most 255.
pub open spec fn octet_text(label: Seq<u8>) -> bool {
    &&& 1 <= label.len() <= 3
    &&& forall|i: int| 0 <= i < label.len() ==> 48 <= #[trigger] label[i] <= 57
    &&& (label.len() == 1 || label[0] != 48)
    &&& decimal_value(label) <= 255
}

/// Whether a hostname is written as an IPv4 address.
pub open spec fn ipv4_literal(hostname: Seq<u8>) -> bool {
    let labels = split_dots(hostname);
    labels.len() == 4 && forall|k: int| 0 <= k < 4 ==> octet_text(#[trigger] labels[k])
}

/// The hostname without one trailing dot.
pub open spec fn without_final_dot(hostname: Seq<u8>) -> Seq<u8> {
    if hostname.len() > 0 && hostname.last() == 46 {
        hostname.drop_last()
    } else {
        hostname
    }
}

pub open spec fn lower_bytes(bytes: Seq<u8>) -> Seq<u8> {
    bytes.map_values(|b: u8| ascii_lower(b))
}

/// The canonical form of a hostname: without a trailing dot, 1 to 253 ASCII
/// bytes, not an IPv4 address, made of valid labels, in lower case. Hostnames
/// without one are refused. (An IPv6 address always holds a colon, which no
/// label may.)
pub open spec fn canonical_form(hostname: Seq<u8>) -> Option<Seq<u8>> {
    let h = without_final_dot(hostname);
    if h.len() == 0 || h.len() > 253 || !all_ascii(h) || ipv4_literal(h) || !labels_ok(split_dots(h)) {
        None
    } else {
        Some(lower_bytes(h))
    }
}

pub open spec fn ends_with(s: Seq<u8>, suffix: Seq<u8>) -> bool {
    suffix.len() <= s.len() && s.subrange(s.len() - suffix.len(), s.len() as int) == suffix
}

/// The hostnames that are never a destination, as bytes.
pub open spec fn forbidden_names() -> Seq<Seq<u8>> {
    seq![
        seq![108u8, 111, 99, 97, 108, 104, 111, 115, 116],
        seq![109u8, 101, 116, 97, 100, 97, 116, 97],
        seq![109u8, 101, 116, 97, 100, 97, 116, 97, 46, 103, 111, 111, 103, 108, 101, 46, 105, 110, 116, 101, 114, 110, 97, 108],
        seq![105u8, 110, 115, 116, 97, 110, 99, 101, 45, 100, 97, 116, 97],
        seq![107u8, 117, 98, 101, 114, 110, 101, 116, 101, 115, 46, 100, 101, 102, 97, 117, 108, 116],
        seq![108u8, 111, 99, 97, 108],
        seq![105u8, 110, 116, 101, 114, 110, 97, 108],
        seq![104u8, 111, 109, 101, 46, 97, 114, 112, 97],
        seq![111u8, 110, 105, 111, 110],
    ]
}

/// The hostname endings that are never a destination, as bytes.
pub open spec fn forbidden_endings() -> Seq<Seq<u8>> {
    seq![
        seq![46u8, 108, 111, 99, 97, 108, 104, 111, 115, 116],
        seq![46u8, 108, 111, 99, 97, 108],
        seq![46u8, 105, 110, 116, 101, 114, 110, 97, 108],
        seq![46u8, 104, 111, 109, 101, 46, 97, 114, 112, 97],
        seq![46u8, 111, 110, 105, 111, 110],
    ]
}

fn forbidden_name_list() -> (list: Vec<Vec<u8>>)
    ensures
        label_views(list@) == forbidden_names(),
{
    let mut list: Vec<Vec<u8>> = Vec::new();
    list.push(vec![108u8, 111, 99, 97, 108, 104, 111, 115, 116]);
    list.push(vec![109u8, 101, 116, 97, 100, 97, 116, 97]);
    list.push(vec![109u8, 101, 116, 97, 100, 97, 116, 97, 46, 103, 111, 111, 103, 108, 101, 46, 105, 110, 116, 101, 114, 110, 97, 108]);
    list.push(vec![105u8, 110, 115, 116, 97, 110, 99, 101, 45, 100, 97, 116, 97]);
    list.push(vec![107u8, 117, 98, 101, 114, 110, 101, 116, 101, 115, 46, 100, 101, 102, 97, 117, 108, 116]);
    list.push(vec![108u8, 111, 99, 97, 108]);
    list.push(vec![105u8, 110, 116, 101, 114, 110, 97, 108]);
    list.push(vec![104u8, 111, 109, 101, 46, 97, 114, 112, 97]);
    list.push(vec![111u8, 110, 105, 111, 110]);
    proof {
        assert(label_views(list@) =~= forbidden_names());
    }
    list
}

fn forbidden_ending_list() -> (list: Vec<Vec<u8>>)
    ensures
        label_views(list@) == forbidden_endings(),
{
    let mut list: Vec<Vec<u8>> = Vec::new();
    list.push(vec![46u8, 108, 111, 99, 97, 108, 104, 111, 115, 116]);
    list.push(vec![46u8, 108, 111, 99, 97, 108]);
    list.push(vec![46u8, 105, 110, 116, 101, 114, 110, 97, 108]);
    list.push(vec![46u8, 104, 111, 109, 101, 46, 97, 114, 112, 97]);
    list.push(vec![46u8, 111, 110, 105, 111, 110]);
    proof {
        assert(label_views(list@) =~= forbidden_endings());
    }
    list
}

/// Local, metadata and special-use names are never destinations.
pub open spec fn forbidden_hostname(hostname: Seq<u8>) -> bool {
    forbidden_names().contains(hostname) || exists|k: int|
        0 <= k < forbidden_endings().len() && ends_with(hostname, #[trigger] forbidden_endings()[k])
}

/// A hostname equal to or under an emergency-denied suffix.
pub open spec fn emergency_denied(hostname: Seq<u8>, suffixes: Seq<Seq<u8>>) -> bool {
    exists|k: int|
        0 <= k < suffixes.len() && (hostname == #[trigger] suffixes[k] || ends_with(
            hostname,
            seq![46u8] + suffixes[k],
        ))
}

/// Whether `list` holds `item`.
pub fn contains_bytes(list: &Vec<Vec<u8>>, item: &[u8]) -> (found: bool)
    ensures
        found == label_views(list@).contains(item@),
{
    let mut i: usize = 0;
    while i < list.len()
        invariant
            i <= list@.len(),
            forall|j: int| 0 <= j < i ==> list@[j]@ != item@,
        decreases list@.len() - i,
    {
        if bytes_equal(list[i].as_slice(), item) {
            proof {
                assert(label_views(list@)[i as int] == item@);
            }
            return true;
        }
        i = i + 1;
    }
    proof {
        if label_views(list@).contains(item@) {
            let j = choose|j: int| 0 <= j < label_views(list@).len() && label_views(list@)[j] == item@;
            assert(list@[j]@ == item@);
        }
    }
    false
}

/// Whether `s` ends with `suffix`.
pub fn bytes_end_with(s: &[u8], suffix: &[u8]) -> (result: bool)
    ensures
        result == ends_with(s@, suffix@),
{
    if suffix.len() > s.len() {
        return false;
    }
    let offset = s.len() - suffix.len();
    let mut p: usize = offset;
    while p < s.len()
        invariant
            offset + suffix@.len() == s@.len(),
            offset <= p <= s@.len(),
            forall|j: int| 0 <= j < p - offset ==> s@[offset + j] == suffix@[j],
        decreases s@.len() - p,
    {
        if s[p] != suffix[p - offset] {
            proof {
                assert(s@.subrange(offset as int, s@.len() as int)[p - offset] != suffix@[p - offset]);
            }
            return false;
        }
        p = p + 1;
    }
    proof {
        assert(s@.subrange(offset as int, s@.len() as int) =~= suffix@);
    }
    true
}

fn check_label(label: &Vec<u8>) -> (ok: bool)
    ensures
        ok == label_ok(label@),
{
    let n = label.len();
    if n == 0 || n > 63 || label[0] == 45 || label[n - 1] == 45 {
        return false;
    }
    let mut i: usize = 0;
    while i < n
        invariant
            n == label@.len(),
            i <= n,
            forall|j: int| 0 <= j < i ==> is_ascii_alphanumeric(#[trigger] label@[j]) || label@[j] == 45,
        decreases n - i,
    {
        if !is_alphanumeric_byte(label[i]) && label[i] != 45 {
            return false;
        }
        i = i + 1;
    }
    true
}

pub(crate) fn check_labels(labels: &Vec<Vec<u8>>) -> (ok: bool)
    ensures
        ok == labels_ok(label_views(labels@)),
{
    let mut k: usize = 0;
    while k < labels.len()
        invariant
            k <= labels@.len(),
            forall|j: int| 0 <= j < k ==> label_ok(#[trigger] label_views(labels@)[j]),
        decreases labels@.len() - k,
    {
        if !check_label(&labels[k]) {
            proof {
                assert(label_views(labels@)[k as int] == labels@[k as int]@);
            }
            return false;
        }
        k = k + 1;
    }
    true
}

fn check_octet(label: &Vec<u8>) -> (ok: bool)
    ensures
        ok == octet_text(label@),
{
    let n = label.len();
    if n == 0 || n > 3 {
        return false;
    }
    let mut value: u32 = 0;
    let mut i: usize = 0;
    while i < n
        invariant
            n == label@.len(),
            1 <= n <= 3,
            i <= n,
            forall|j: int| 0 <= j < i ==> 48 <= #[trigger] label@[j] <= 57,
            value == decimal_value(label@.subrange(0, i as int)),
            value < 1000,
            i == 0 ==> value == 0,
            i == 1 ==> value < 10,
            i == 2 ==> value < 100,
        decreases n - i,
    {
        let b = label[i];
        if b < 48 || b > 57 {
            return false;
        }
        proof {
            assert(label@.subrange(0, i + 1).drop_last() =~= label@.subrange(0, i as int));
        }
        value = value * 10 + (b - 48) as u32;
        i = i + 1;
    }
    proof {
        assert(label@.subrange(0, n as int) =~= label@);
    }
    (n == 1 || label[0] != 48) && value <= 255
}

fn check_ipv4_literal(labels: &Vec<Vec<u8>>) -> (literal: bool)
    ensures
        labels@.len() == 4 ==> literal == (forall|k: int| 0 <= k < 4 ==> octet_text(#[trigger] label_views(labels@)[k])),
        labels@.len() != 4 ==> !literal,
{
    if labels.len() != 4 {
        return false;
    }
    let mut k: usize = 0;
    while k < 4
        invariant
            labels@.len() == 4,
            k <= 4,
            forall|j: int| 0 <= j < k ==> octet_text(#[trigger] label_views(labels@)[j]),
        decreases 4 - k,
    {
        if !check_octet(&labels[k]) {
            proof {
                assert(label_views(labels@)[k as int] == labels@[k as int]@);
            }
            return false;
        }
        k = k + 1;
    }
    true
}

/// Checks a hostname and returns its canonical, lower-case form; anything
/// that is not a plain DNS name is `PolicyDenied`.
pub fn canonical_hostname(hostname: &str) -> (result: Result<String, GatewayError>)
    ensures
        match canonical_form(encode_utf8(hostname@)) {
            Some(c) => result matches Ok(s) && encode_utf8(s@) == c,
            None => result == Err::<String, GatewayError>(policy_denied()),
        },
{
    let bytes = hostname.as_bytes();
    let n = if bytes.len() > 0 && bytes[bytes.len() - 1] == 46 { bytes.len() - 1 } else { bytes.len() };
    let mut trimmed: Vec<u8> = Vec::new();
    let mut i: usize = 0;
    while i < n
        invariant
            n <= bytes@.len(),
            i <= n,
            trimmed@ == bytes@.subrange(0, i as int),
        decreases n - i,
    {
        trimmed.push(bytes[i]);
        proof {
            assert(bytes@.subrange(0, i + 1) =~= bytes@.subrange(0, i as int).push(bytes@[i as int]));
        }
        i = i + 1;
    }
    proof {
        assert(trimmed@ =~= without_final_dot(bytes@));
    }
    if n == 0 || n > 253 {
        return Err(GatewayError::new(GatewayErrorCode::PolicyDenied));
    }
    let mut j: usize = 0;
    while j < n
        invariant
            n == trimmed@.len(),
            j <= n,
            trimmed@ == without_final_dot(bytes@),
            bytes@ == encode_utf8(hostname@),
            forall|k: int| 0 <= k < j ==> #[trigger] trimmed@[k] < 128,
        decreases n - j,
    {
        if trimmed[j] >= 128 {
            proof {
                assert(!all_ascii(trimmed@)) by {
                    assert(trimmed@[j as int] >= 128);
                }
            }
            return Err(GatewayError::new(GatewayErrorCode::PolicyDenied));
        }
        j = j + 1;
    }
    let labels = split_labels(trimmed.as_slice());
    if check_ipv4_literal(&labels) || !check_labels(&labels) {
        return Err(GatewayError::new(GatewayErrorCode::PolicyDenied));
    }
    let mut lower: Vec<u8> = Vec::new();
    let mut k: usize = 0;
    while k < n
        invariant
            n == trimmed@.len(),
            k <= n,
            lower@ == lower_bytes(trimmed@.subrange(0, k as int)),
            forall|q: int| 0 <= q < n ==> #[trigger] trimmed@[q] < 128,
        decreases n - k,
    {
        lower.push(to_lower_byte(trimmed[k]));
        proof {
            assert(lower_bytes(trimmed@.subrange(0, k + 1)) =~= lower_bytes(trimmed@.subrange(0, k as int)).push(
                ascii_lower(trimmed@[k as int]),
            ));
        }
        k = k + 1;
    }
    proof {
        assert(trimmed@.subrange(0, n as int) =~= trimmed@);
        assert forall|q: int| 0 <= q < lower@.len() implies #[trigger] lower@[q] < 128 by {
            assert(lower@[q] == ascii_lower(trimmed@[q]));
        }
        lemma_ascii_valid_utf8(lower@);
    }
    let ghost expected = lower@;
    match string_from_utf8(lower) {
        Some(s) => Ok(s),
        None => Err(GatewayError::new(GatewayErrorCode::PolicyDenied)),
    }
}

/// Whether a canonical hostname is a local, metadata or special-use name.
pub fn is_forbidden_hostname(hostname: &[u8]) -> (forbidden: bool)
    ensures
        forbidden == forbidden_hostname(hostname@),
{
    let names = forbidden_name_list();
    if contains_bytes(&names, hostname) {
        return true;
    }
    let endings = forbidden_ending_list();
    let mut k: usize = 0;
    while k < endings.len()
        invariant
            label_views(endings@) == forbidden_endings(),
            k <= endings@.len(),
            forall|j: int| 0 <= j < k ==> !ends_with(hostname@, #[trigger] forbidden_endings()[j]),
        decreases endings@.len() - k,
    {
        if bytes_end_with(hostname, endings[k].as_slice()) {
            proof {
                assert(forbidden_endings()[k as int] == endings@[k as int]@);
            }
            return true;
        }
        proof {
            assert(forbidden_endings()[k as int] == endings@[k as int]@);
        }
        k = k + 1;
    }
    false
}

/// The fixed part of the policy.
#[derive(Clone, Debug)]
pub struct AclConfig {
    pub blocked_ports: Vec<u16>,
    pub management_networks: Vec<IpNetwork>,
    pub emergency_deny_networks: Vec<IpNetwork>,
    pub emergency_deny_host_suffixes: Vec<String>,
    pub cloud_metadata_ips: Vec<IpAddress>,
}

/// Every network of a list has a prefix that fits its family.
pub open spec fn networks_valid(networks: Seq<IpNetwork>) -> bool {
    forall|i: int| 0 <= i < networks.len() ==> network_valid(#[trigger] networks[i])
}

pub open spec fn some_network_holds(networks: Seq<IpNetwork>, address: IpAddress) -> bool {
    exists|i: int| 0 <= i < networks.len() && network_holds(#[trigger] networks[i], address)
}

/// Whether some network of the list holds the address.
pub fn any_network_contains(networks: &Vec<IpNetwork>, address: &IpAddress) -> (held: bool)
    requires
        networks_valid(networks@),
    ensures
        held == some_network_holds(networks@, *address),
{
    let mut i: usize = 0;
    while i < networks.len()
        invariant
            networks_valid(networks@),
            i <= networks@.len(),
            forall|j: int| 0 <= j < i ==> !network_holds(#[trigger] networks@[j], *address),
        decreases networks@.len() - i,
    {
        if network_contains(&networks[i], address) {
            return true;
        }
        i = i + 1;
    }
    false
}

/// A suffix list entry is 1 to 253 ASCII bytes.
pub open spec fn suffix_acceptable(suffix: Seq<char>) -> bool {
    encode_utf8(suffix).len() > 0 && encode_utf8(suffix).len() <= 253 && vstd::utf8::is_ascii_chars(suffix)
}

fn check_suffix(suffix: &String) -> (ok: bool)
    ensures
        ok == suffix_acceptable(suffix@),
{
    let text = suffix.as_str();
    let bytes = text.as_bytes();
    bytes.len() > 0 && bytes.len() <= 253 && text.is_ascii()
}

fn suffixes_acceptable(suffixes: &Vec<String>) -> (ok: bool)
    ensures
        ok == forall|i: int| 0 <= i < suffixes@.len() ==> suffix_acceptable(#[trigger] suffixes@[i]@),
{
    let mut i: usize = 0;
    while i < suffixes.len()
        invariant
            i <= suffixes@.len(),
            forall|j: int| 0 <= j < i ==> suffix_acceptable(#[trigger] suffixes@[j]@),
        decreases suffixes@.len() - i,
    {
        if !check_suffix(&suffixes[i]) {
            return false;
        }
        i = i + 1;
    }
    true
}

/// The lower-case bytes of an ASCII suffix.
fn lowered(suffix: &String) -> (bytes: Vec<u8>)
    ensures
        bytes@ == lower_bytes(encode_utf8(suffix@)),
{
    let source = suffix.as_str().as_bytes();
    let mut out: Vec<u8> = Vec::new();
    let mut i: usize = 0;
    while i < source.len()
        invariant
            i <= source@.len(),
            source@ == encode_utf8(suffix@),
            out@ == lower_bytes(source@.subrange(0, i as int)),
        decreases source@.len() - i,
    {
        out.push(to_lower_byte(source[i]));
        proof {
            assert(lower_bytes(source@.subrange(0, i + 1)) =~= lower_bytes(source@.subrange(0, i as int)).push(
                ascii_lower(source@[i as int]),
            ));
        }
        i = i + 1;
    }
    proof {
        assert(source@.subrange(0, source@.len() as int) =~= source@);
    }
    out
}

/// The lower-case bytes of every suffix.
pub open spec fn lowered_all(suffixes: Seq<String>) -> Seq<Seq<u8>> {
    suffixes.map_values(|s: String| lower_bytes(encode_utf8(s@)))
}

fn lower_all(suffixes: &Vec<String>) -> (out: Vec<Vec<u8>>)
    ensures
        label_views(out@) == lowered_all(suffixes@),
{
    let mut out: Vec<Vec<u8>> = Vec::new();
    let mut i: usize = 0;
    while i < suffixes.len()
        invariant
            i <= suffixes@.len(),
            label_views(out@) == lowered_all(suffixes@.subrange(0, i as int)),
        decreases suffixes@.len() - i,
    {
        let ghost before = label_views(out@);
        out.push(lowered(&suffixes[i]));
        proof {
            assert(label_views(out@) =~= before.push(lower_bytes(encode_utf8(suffixes@[i as int]@))));
            assert(lowered_all(suffixes@.subrange(0, i + 1)) =~= lowered_all(suffixes@.subrange(0, i as int)).push(
                lower_bytes(encode_utf8(suffixes@[i as int]@)),
            ));
        }
        i = i + 1;
    }
    proof {
        assert(suffixes@.subrange(0, suffixes@.len() as int) =~= suffixes@);
    }
    out
}

impl Default for AclConfig {
    fn default() -> (config: Self)
        ensures
            config.blocked_ports@ == seq![
                22u16, 23, 25, 111, 135, 137, 138, 139, 445, 2375, 2376, 3306, 3389, 5432, 5900, 6379,
                6443, 9051, 9151, 9200, 11211, 27017,
            ],
            config.management_networks@.len() == 0,
            config.emergency_deny_networks@.len() == 0,
            config.emergency_deny_host_suffixes@.len() == 0,
            config.cloud_metadata_ips@ == seq![
                IpAddress::V4([169u8, 254, 169, 254]),
                IpAddress::V4([100u8, 100, 100, 200]),
                IpAddress::V4([168u8, 63, 129, 16]),
            ],
    {
        let blocked_ports = vec![
            22u16, 23, 25, 111, 135, 137, 138, 139, 445, 2375, 2376, 3306, 3389, 5432, 5900, 6379,
            6443, 9051, 9151, 9200, 11211, 27017,
        ];
        let cloud_metadata_ips = vec![
            IpAddress::V4([169u8, 254, 169, 254]),
            IpAddress::V4([100u8, 100, 100, 200]),
            IpAddress::V4([168u8, 63, 129, 16]),
        ];
        AclConfig {
            blocked_ports,
            management_networks: Vec::new(),
            emergency_deny_networks: Vec::new(),
            emergency_deny_host_suffixes: Vec::new(),
            cloud_metadata_ips,
        }
    }
}

impl AclConfig {
    /// The configuration is usable: port 0 is not listed, at most 64
    /// management and 256 emergency networks, at most 256 emergency suffixes
    /// of 1 to 253 ASCII bytes.
    pub open spec fn valid(&self) -> bool {
        &&& !self.blocked_ports@.contains(0u16)
        &&& self.management_networks@.len() <= 64
        &&& self.emergency_deny_networks@.len() <= 256
        &&& self.emergency_deny_host_suffixes@.len() <= 256
        &&& forall|i: int|
            0 <= i < self.emergency_deny_host_suffixes@.len() ==> suffix_acceptable(
                #[trigger] self.emergency_deny_host_suffixes@[i]@,
            )
    }

    /// Checks the configuration; an unusable one is `InvalidConfiguration`.
    pub fn validate(&self) -> (result: Result<(), GatewayError>)
        ensures
            result is Ok <==> self.valid(),
            result matches Err(e) ==> e.code == GatewayErrorCode::InvalidConfiguration,
    {
        let mut i: usize = 0;
        while i < self.blocked_ports.len()
            invariant
                i <= self.blocked_ports@.len(),
                forall|j: int| 0 <= j < i ==> self.blocked_ports@[j] != 0,
            decreases self.blocked_ports@.len() - i,
        {
            if self.blocked_ports[i] == 0 {
                return Err(GatewayError::new(GatewayErrorCode::InvalidConfiguration));
            }
            i = i + 1;
        }
        if self.management_networks.len() > 64 || self.emergency_deny_networks.len() > 256
            || self.emergency_deny_host_suffixes.len() > 256 || !suffixes_acceptable(
            &self.emergency_deny_host_suffixes,
        ) {
            return Err(GatewayError::new(GatewayErrorCode::InvalidConfiguration));
        }
        Ok(())
    }
}

/// Ports never reachable: 0, SMTP, the Tor control ports and BitTorrent.
pub open spec fn always_blocked_port(port: u16) -> bool {
    port == 0 || port == 25 || port == 9051 || port == 9151 || (6881 <= port <= 6889)
}

/// The destination policy: the configured denials plus replaceable
/// emergency denials of networks and hostname suffixes.
pub struct AclEngine {
    config: AclConfig,
    emergency_networks: Vec<IpNetwork>,
    emergency_suffixes: Vec<Vec<u8>>,
}

impl AclEngine {
    pub closed spec fn blocked_ports(&self) -> Seq<u16> {
        self.config.blocked_ports@
    }

    pub closed spec fn metadata_addresses(&self) -> Seq<IpAddress> {
        self.config.cloud_metadata_ips@
    }

    pub closed spec fn management_networks(&self) -> Seq<IpNetwork> {
        self.config.management_networks@
    }

    pub closed spec fn emergency_networks(&self) -> Seq<IpNetwork> {
        self.emergency_networks@
    }

    /// The emergency-denied hostname suffixes, in lower case.
    pub closed spec fn emergency_suffixes(&self) -> Seq<Seq<u8>> {
        label_views(self.emergency_suffixes@)
    }

    pub open spec fn wf(&self) -> bool {
        networks_valid(self.management_networks()) && networks_valid(self.emergency_networks())
    }

    /// A policy from its configuration; the emergency denials start as the
    /// configured ones, suffixes in lower case.
    pub fn new(config: AclConfig) -> (engine: Self)
        requires
            networks_valid(config.management_networks@),
            networks_valid(config.emergency_deny_networks@),
        ensures
            engine.wf(),
            engine.blocked_ports() == config.blocked_ports@,
            engine.metadata_addresses() == config.cloud_metadata_ips@,
            engine.management_networks() == config.management_networks@,
            engine.emergency_networks() == config.emergency_deny_networks@,
            engine.emergency_suffixes() == lowered_all(config.emergency_deny_host_suffixes@),
    {
        let networks = config.emergency_deny_networks.clone();
        let suffixes = lower_all(&config.emergency_deny_host_suffixes);
        proof {
            assert(networks@ =~= config.emergency_deny_networks@);
        }
        AclEngine { config, emergency_networks: networks, emergency_suffixes: suffixes }
    }

    /// Replaces the emergency denials. More than 256 networks or suffixes, or
    /// a suffix that is empty, longer than 253 bytes or not ASCII, is refused
    /// with `PolicyDenied` and changes nothing.
    pub fn replace_emergency_denies(&mut self, networks: Vec<IpNetwork>, hostname_suffixes: Vec<String>) -> (result: Result<(), GatewayError>)
        requires
            old(self).wf(),
            networks_valid(networks@),
        ensures
            final(self).wf(),
            final(self).blocked_ports() == old(self).blocked_ports(),
            final(self).metadata_addresses() == old(self).metadata_addresses(),
            final(self).management_networks() == old(self).management_networks(),
            result is Ok <==> networks@.len() <= 256 && hostname_suffixes@.len() <= 256 && forall|i: int|
                0 <= i < hostname_suffixes@.len() ==> suffix_acceptable(#[trigger] hostname_suffixes@[i]@),
            result is Ok ==> final(self).emergency_networks() == networks@ && final(self).emergency_suffixes()
                == lowered_all(hostname_suffixes@),
            result matches Err(e) ==> e == policy_denied() && final(self).emergency_networks()
                == old(self).emergency_networks() && final(self).emergency_suffixes() == old(self).emergency_suffixes(),
    {
        if networks.len() > 256 || hostname_suffixes.len() > 256 || !suffixes_acceptable(&hostname_suffixes) {
            return Err(GatewayError::new(GatewayErrorCode::PolicyDenied));
        }
        self.emergency_suffixes = lower_all(&hostname_suffixes);
        self.emergency_networks = networks;
        Ok(())
    }

    /// Refuses always-blocked and configured ports.
    pub fn check_port(&self, port: u16) -> (result: Result<(), GatewayError>)
        ensures
            result is Ok <==> !always_blocked_port(port) && !self.blocked_ports().contains(port),
            result matches Err(e) ==> e == policy_denied(),
    {
        if port == 0 || port == 25 || port == 9051 || port == 9151 || (6881 <= port && port <= 6889) {
            return Err(GatewayError::new(GatewayErrorCode::PolicyDenied));
        }
        let mut i: usize = 0;
        while i < self.config.blocked_ports.len()
            invariant
                i <= self.config.blocked_ports@.len(),
                forall|j: int| 0 <= j < i ==> self.config.blocked_ports@[j] != port,
            decreases self.config.blocked_ports@.len() - i,
        {
            if self.config.blocked_ports[i] == port {
                proof {
                    assert(self.blocked_ports()[i as int] == port);
                }
                return Err(GatewayError::new(GatewayErrorCode::PolicyDenied));
            }
            i = i + 1;
        }
        Ok(())
    }

    /// Whether an address is allowed: public, not a metadata address, and in
    /// no management or emergency-denied network. Called for every resolved
    /// address and again right before dialing it.
    pub open spec fn ip_allowed(&self, address: IpAddress) -> bool {
        &&& !non_public(address)
        &&& !self.metadata_addresses().contains(address)
        &&& !some_network_holds(self.management_networks(), address)
        &&& !some_network_holds(self.emergency_networks(), address)
    }

    /// Checks an address; a refused one is `PolicyDenied`.
    pub fn check_ip(&self, address: &IpAddress) -> (result: Result<(), GatewayError>)
        requires
            self.wf(),
        ensures
            result is Ok <==> self.ip_allowed(*address),
            result matches Err(e) ==> e == policy_denied(),
    {
        if is_non_public(address) {
            return Err(GatewayError::new(GatewayErrorCode::PolicyDenied));
        }
        let mut i: usize = 0;
        while i < self.config.cloud_metadata_ips.len()
            invariant
                i <= self.config.cloud_metadata_ips@.len(),
                forall|j: int| 0 <= j < i ==> self.config.cloud_metadata_ips@[j] != *address,
            decreases self.config.cloud_metadata_ips@.len() - i,
        {
            if same_address(&self.config.cloud_metadata_ips[i], address) {
                proof {
                    assert(self.metadata_addresses()[i as int] == *address);
                }
                return Err(GatewayError::new(GatewayErrorCode::PolicyDenied));
            }
            i = i + 1;
        }
        if any_network_contains(&self.config.management_networks, address) || any_network_contains(
            &self.emergency_networks,
            address,
        ) {
            return Err(GatewayError::new(GatewayErrorCode::PolicyDenied));
        }
        Ok(())
    }

    /// Whether a canonical hostname falls under an emergency-denied suffix.
    fn emergency_hostname_denied(&self, hostname: &[u8]) -> (denied: bool)
        ensures
            denied == emergency_denied(hostname@, self.emergency_suffixes()),
    {
        let mut k: usize = 0;
        while k < self.emergency_suffixes.len()
            invariant
                k <= self.emergency_suffixes@.len(),
                forall|j: int|
                    0 <= j < k ==> !(hostname@ == #[trigger] self.emergency_suffixes()[j] || ends_with(
                        hostname@,
                        seq![46u8] + self.emergency_suffixes()[j],
                    )),
            decreases self.emergency_suffixes@.len() - k,
        {
            let suffix = &self.emergency_suffixes[k];
            let mut dotted: Vec<u8> = Vec::new();
            dotted.push(46u8);
            let mut i: usize = 0;
            while i < suffix.len()
                invariant
                    i <= suffix@.len(),
                    dotted@ == seq![46u8] + suffix@.subrange(0, i as int),
                decreases suffix@.len() - i,
            {
                dotted.push(suffix[i]);
                proof {
                    assert(seq![46u8] + suffix@.subrange(0, i + 1) =~= (seq![46u8] + suffix@.subrange(0, i as int)).push(
                        suffix@[i as int],
                    ));
                }
                i = i + 1;
            }
            proof {
                assert(suffix@.subrange(0, suffix@.len() as int) =~= suffix@);
                assert(self.emergency_suffixes()[k as int] == suffix@);
            }
            if bytes_equal(hostname, suffix.as_slice()) || bytes_end_with(hostname, dotted.as_slice()) {
                return true;
            }
            k = k + 1;
        }
        false
    }

    /// Whether a destination is allowed on a port: the port is allowed and
    /// either the hostname has a canonical form that is neither forbidden nor
    /// emergency-denied, or the address is allowed.
    pub open spec fn destination_allowed(&self, destination: Destination, port: u16) -> bool {
        &&& !always_blocked_port(port)
        &&& !self.blocked_ports().contains(port)
        &&& match destination {
            Destination::Hostname(name) => match canonical_form(encode_utf8(name@)) {
                Some(c) => !forbidden_hostname(c) && !emergency_denied(c, self.emergency_suffixes()),
                None => false,
            },
            Destination::Ip(address) => self.ip_allowed(address),
        }
    }

    /// Checks a requested destination and port; a refused one is
    /// `PolicyDenied`.
    pub fn check_destination(&self, destination: &Destination, port: u16) -> (result: Result<(), GatewayError>)
        requires
            self.wf(),
        ensures
            result is Ok <==> self.destination_allowed(*destination, port),
            result matches Err(e) ==> e == policy_denied(),
    {
        if let Err(e) = self.check_port(port) {
            return Err(e);
        }
        match destination {
            Destination::Hostname(hostname) => {
                let canonical = match canonical_hostname(hostname.as_str()) {
                    Ok(c) => c,
                    Err(e) => {
                        return Err(e);
                    },
                };
                let bytes = canonical.as_str().as_bytes();
                if is_forbidden_hostname(bytes) || self.emergency_hostname_denied(bytes) {
                    return Err(GatewayError::new(GatewayErrorCode::PolicyDenied));
                }
                Ok(())
            },
            Destination::Ip(address) => self.check_ip(address),
        }
    }
}

/// Emergency rules can only add denials: a policy whose emergency networks
/// and suffixes include another's, with the same fixed rules, allows no
/// destination the other refuses.
pub proof fn lemma_emergency_only_denies(
    base: AclEngine,
    stricter: AclEngine,
    destination: Destination,
    port: u16,
)
    requires
        stricter.blocked_ports() == base.blocked_ports(),
        stricter.metadata_addresses() == base.metadata_addresses(),
        stricter.management_networks() == base.management_networks(),
        forall|i: int| 0 <= i < base.emergency_networks().len() ==> stricter.emergency_networks().contains(
            #[trigger] base.emergency_networks()[i],
        ),
        forall|i: int| 0 <= i < base.emergency_suffixes().len() ==> stricter.emergency_suffixes().contains(
            #[trigger] base.emergency_suffixes()[i],
        ),
        stricter.destination_allowed(destination, port),
    ensures
        base.destination_allowed(destination, port),
{
    match destination {
        Destination::Hostname(name) => {
            if let Some(c) = canonical_form(encode_utf8(name@)) {
                if emergency_denied(c, base.emergency_suffixes()) {
                    let k = choose|k: int|
                        0 <= k < base.emergency_suffixes().len() && (c == #[trigger] base.emergency_suffixes()[k]
                            || ends_with(c, seq![46u8] + base.emergency_suffixes()[k]));
                    let s = base.emergency_suffixes()[k];
                    assert(stricter.emergency_suffixes().contains(s));
                    let j = choose|j: int| 0 <= j < stricter.emergency_suffixes().len() && stricter.emergency_suffixes()[j] == s;
                    assert(c == stricter.emergency_suffixes()[j] || ends_with(c, seq![46u8] + stricter.emergency_suffixes()[j]));
                }
            }
        },
        Destination::Ip(address) => {
            if some_network_holds(base.emergency_networks(), address) {
                let i = choose|i: int| 0 <= i < base.emergency_networks().len() && network_holds(#[trigger] base.emergency_networks()[i], address);
                let n = base.emergency_networks()[i];
                assert(stricter.emergency_networks().contains(n));
                let j = choose|j: int| 0 <= j < stricter.emergency_networks().len() && stricter.emergency_networks()[j] == n;
                assert(network_holds(stricter.emergency_networks()[j], address));
            }
        },
    }
}

/// Private, loopback, link-local and other reserved IPv4 destinations are
/// refused whatever the configuration: `check_ip`, and `check_destination`
/// for an IP destination on any port, deny every address of 10/8, 127/8,
/// 169.254/16, 172.16/12 (second octet 16 through 31) and 192.168/16.
pub proof fn lemma_private_v4_denied(engine: AclEngine, a: u8, b: u8, c: u8, d: u8, port: u16)
    requires
        a == 10 || a == 127 || (a == 169 && b == 254) || (a == 172 && 16 <= b && b <= 31) || (
        a == 192 && b == 168),
    ensures
        !engine.ip_allowed(IpAddress::V4([a, b, c, d])),
        !engine.destination_allowed(Destination::Ip(IpAddress::V4([a, b, c, d])), port),
{
    crate::address::lemma_v4_reserved_ranges(a, b, c, d);
}

} // verus!
