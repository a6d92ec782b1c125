//! Bounded DNS wire parsing and query construction for the explicit-upstream
//! resolver. Names are handled as their ASCII bytes.
use vstd::prelude::*;
use vstd::utf8::encode_utf8;

use crate::daemon::error::{GatewayError, GatewayErrorCode};
use crate::text::{
    ascii_lower, is_alphanumeric_byte, is_ascii_alphanumeric, lemma_ascii_valid_utf8,
    string_from_utf8, to_lower_byte,
};

verus! {

pub const DNS_HEADER_BYTES: usize = 12;
pub const TYPE_A: u16 = 1;
pub const TYPE_CNAME: u16 = 5;
pub const TYPE_AAAA: u16 = 28;
pub const CLASS_IN: u16 = 1;

/// Name walks follow at most this many labels and pointers.
pub const MAX_NAME_STEPS: usize = 17;

/// An IP address carried in a DNS answer.
#[derive(Clone, Copy, Debug, PartialEq, Eq, Hash)]
pub enum IpAddress {
    V4([u8; 4]),
    V6([u8; 16]),
}

/// The big-endian 16-bit value at `offset`.
pub open spec fn be16(wire: Seq<u8>, offset: int) -> u16 {
    (wire[offset] * 256 + wire[offset + 1]) as u16
}

fn dns_failure() -> (error: GatewayError)
    ensures
        error.code == GatewayErrorCode::DnsFailure,
{
    GatewayError::new(GatewayErrorCode::DnsFailure)
}

pub fn read_u16(wire: &[u8], offset: usize) -> (result: Result<u16, GatewayError>)
    ensures
        match result {
            Ok(value) => offset + 2 <= wire@.len() && value == be16(wire@, offset as int),
            Err(e) => offset + 2 > wire@.len() && e.code == GatewayErrorCode::DnsFailure,
        },
{
    if offset >= wire.len() || wire.len() - offset < 2 {
        return Err(dns_failure());
    }
    Ok(wire[offset] as u16 * 256 + wire[offset + 1] as u16)
}

/// A label of letters, digits and hyphens that neither starts nor ends with a
/// hyphen.
pub open spec fn label_valid(label: Seq<u8>) -> bool {
    &&& label.len() > 0
    &&& forall|i: int| 0 <= i < label.len() ==> is_ascii_alphanumeric(#[trigger] label[i]) || label[i] == 45
    &&& label[0] != 45
    &&& label[label.len() - 1] != 45
}

/// Labels joined with dots.
pub open spec fn joined(labels: Seq<Seq<u8>>) -> Seq<u8>
    decreases labels.len(),
{
    if labels.len() == 0 {
        Seq::empty()
    } else if labels.len() == 1 {
        labels[0]
    } else {
        joined(labels.drop_last()).push(46) + labels.last()
    }
}

/// Walking a possibly compressed DNS name from `cursor`, with `steps` label
/// or pointer steps left, the positions already visited, the (lower-cased)
/// labels so far, the expanded length so far and the end of the name's
/// encoding once a pointer was followed. Yields the labels and the end.
pub open spec fn walk_name(
    wire: Seq<u8>,
    cursor: int,
    steps: nat,
    visited: Set<int>,
    labels: Seq<Seq<u8>>,
    expanded: int,
    end: Option<int>,
) -> Option<(Seq<Seq<u8>>, int)>
    decreases steps,
{
    if steps == 0 || visited.contains(cursor) || cursor < 0 || cursor >= wire.len() {
        None
    } else {
        let length = wire[cursor];
        let seen = visited.insert(cursor);
        if length >= 192 {
            if cursor + 1 >= wire.len() {
                None
            } else {
                let target = (length - 192) * 256 + wire[cursor + 1];
                if target >= wire.len() {
                    None
                } else {
                    walk_name(
                        wire,
                        target,
                        (steps - 1) as nat,
                        seen,
                        labels,
                        expanded,
                        if end is Some {
                            end
                        } else {
                            Some(cursor + 2)
                        },
                    )
                }
            }
        } else if length >= 64 {
            None
        } else if length == 0 {
            if labels.len() == 0 || expanded > 253 {
                None
            } else {
                Some(
                    (
                        labels,
                        match end {
                            Some(e) => e,
                            None => cursor + 1,
                        },
                    ),
                )
            }
        } else {
            let stop = cursor + 1 + length;
            if stop > wire.len() || !label_valid(wire.subrange(cursor + 1, stop)) {
                None
            } else {
                walk_name(
                    wire,
                    stop,
                    (steps - 1) as nat,
                    seen,
                    labels.push(wire.subrange(cursor + 1, stop).map_values(|b: u8| ascii_lower(b))),
                    expanded + length + if labels.len() >= 1 {
                        1int
                    } else {
                        0
                    },
                    end,
                )
            }
        }
    }
}

/// The name encoded at `start` as lower-case bytes, and the end of its
/// encoding.
pub open spec fn name_at(wire: Seq<u8>, start: int) -> Option<(Seq<u8>, int)> {
    match walk_name(wire, start, MAX_NAME_STEPS as nat, Set::empty(), Seq::empty(), 0, None) {
        Some((labels, end)) => Some((joined(labels), end)),
        None => None,
    }
}

/// Every byte is ASCII.
pub open spec fn all_ascii(s: Seq<u8>) -> bool {
    forall|i: int| 0 <= i < s.len() ==> #[trigger] s[i] < 128
}

/// The positions held in `v`.
spec fn positions(v: Seq<usize>) -> Set<int> {
    Set::new(|p: int| exists|i: int| 0 <= i < v.len() && v[i] as int == p)
}

fn holds_position(v: &Vec<usize>, x: usize) -> (found: bool)
    ensures
        found == positions(v@).contains(x as int),
{
    let mut i: usize = 0;
    while i < v.len()
        invariant
            i <= v@.len(),
            forall|j: int| 0 <= j < i ==> v@[j] != x,
        decreases v@.len() - i,
    {
        if v[i] == x {
            proof {
                assert(v@[i as int] as int == x as int);
            }
            return true;
        }
        i = i + 1;
    }
    false
}

proof fn lemma_joined_push(labels: Seq<Seq<u8>>, label: Seq<u8>)
    ensures
        joined(labels.push(label)) == if labels.len() == 0 {
            label
        } else {
            joined(labels).push(46) + label
        },
{
    assert(labels.push(label).drop_last() =~= labels);
}

proof fn lemma_joined_ascii(labels: Seq<Seq<u8>>)
    requires
        forall|k: int| 0 <= k < labels.len() ==> all_ascii(#[trigger] labels[k]),
    ensures
        all_ascii(joined(labels)),
    decreases labels.len(),
{
    if labels.len() > 1 {
        lemma_joined_ascii(labels.drop_last());
        let prefix = joined(labels.drop_last()).push(46);
        assert forall|i: int| 0 <= i < joined(labels).len() implies #[trigger] joined(labels)[i]
            < 128 by {
            if i >= prefix.len() {
                assert(joined(labels)[i] == labels.last()[i - prefix.len()]);
            } else if i < prefix.len() - 1 {
                assert(joined(labels)[i] == joined(labels.drop_last())[i]);
            }
        }
    }
}

/// The name bytes encoded at `start`, lower-cased, and the end of the name's
/// encoding. Compression pointers are followed at most a bounded number of
/// times and never to a position already visited.
pub fn read_name_bytes(wire: &[u8], start: usize) -> (result: Result<(Vec<u8>, usize), GatewayError>)
    ensures
        match result {
            Ok((name, end)) => name_at(wire@, start as int) == Some((name@, end as int)),
            Err(e) => name_at(wire@, start as int) is None && e.code == GatewayErrorCode::DnsFailure,
        },
        result matches Ok((name, end)) ==> all_ascii(name@),
{
    let mut cursor = start;
    let mut consumed_end: Option<usize> = None;
    let mut name: Vec<u8> = Vec::new();
    let mut label_count: usize = 0;
    let mut visited: Vec<usize> = Vec::new();
    let mut expanded: usize = 0;
    let ghost mut labels: Seq<Seq<u8>> = Seq::empty();
    let mut step: usize = 0;
    proof {
        assert(positions(visited@) =~= Set::<int>::empty());
    }
    while step < MAX_NAME_STEPS
        invariant
            step <= MAX_NAME_STEPS,
            name_at(wire@, start as int) == match walk_name(
                wire@,
                cursor as int,
                (MAX_NAME_STEPS - step) as nat,
                positions(visited@),
                labels,
                expanded as int,
                match consumed_end {
                    Some(e) => Some(e as int),
                    None => None,
                },
            ) {
                Some((found, end)) => Some((joined(found), end)),
                None => None,
            },
            name@ == joined(labels),
            label_count == labels.len(),
            label_count <= step,
            expanded <= step * 64,
            consumed_end matches Some(e) ==> e <= wire@.len() + 1,
            visited@.len() == step,
            forall|k: int| 0 <= k < labels.len() ==> all_ascii(#[trigger] labels[k]),
        decreases MAX_NAME_STEPS - step,
    {
        let ghost steps = (MAX_NAME_STEPS - step) as nat;
        let ghost end_spec = match consumed_end {
            Some(e) => Some(e as int),
            None => None::<int>,
        };
        if holds_position(&visited, cursor) {
            return Err(dns_failure());
        }
        if cursor >= wire.len() {
            return Err(dns_failure());
        }
        let length = wire[cursor];
        let ghost seen = positions(visited@).insert(cursor as int);
        proof {
            assert(positions(visited@.push(cursor)) =~= seen) by {
                assert forall|p: int| #[trigger] seen.contains(p) implies positions(
                    visited@.push(cursor),
                ).contains(p) by {
                    if p == cursor as int {
                        assert(visited@.push(cursor)[visited@.len() as int] as int == p);
                    } else {
                        let i = choose|i: int| 0 <= i < visited@.len() && visited@[i] as int == p;
                        assert(visited@.push(cursor)[i] as int == p);
                    }
                }
                assert forall|p: int| #[trigger] positions(visited@.push(cursor)).contains(
                    p,
                ) implies seen.contains(p) by {
                    let i = choose|i: int|
                        0 <= i < visited@.push(cursor).len() && visited@.push(cursor)[i] as int
                            == p;
                    if i < visited@.len() {
                        assert(visited@[i] as int == p);
                    }
                }
            }
        }
        if length >= 192 {
            if cursor + 1 >= wire.len() {
                return Err(dns_failure());
            }
            let target = (length - 192) as usize * 256 + wire[cursor + 1] as usize;
            if target >= wire.len() {
                return Err(dns_failure());
            }
            if consumed_end.is_none() {
                consumed_end = Some(cursor + 2);
            }
            visited.push(cursor);
            cursor = target;
            step = step + 1;
            continue;
        }
        if length >= 64 {
            return Err(dns_failure());
        }
        if length == 0 {
            if label_count == 0 || expanded > 253 {
                return Err(dns_failure());
            }
            let end = match consumed_end {
                Some(e) => e,
                None => cursor + 1,
            };
            proof {
                lemma_joined_ascii(labels);
            }
            return Ok((name, end));
        }
        let first = cursor + 1;
        let length = length as usize;
        if length > wire.len() - first {
            return Err(dns_failure());
        }
        let stop = first + length;
        let ghost label = wire@.subrange(first as int, stop as int);
        let mut valid = wire[first] != 45 && wire[stop - 1] != 45;
        let mut i = first;
        while i < stop
            invariant
                first <= i <= stop <= wire@.len(),
                label == wire@.subrange(first as int, stop as int),
                valid ==> forall|j: int|
                    first <= j < i ==> is_ascii_alphanumeric(#[trigger] wire@[j]) || wire@[j] == 45,
                valid ==> wire@[first as int] != 45 && wire@[stop - 1] != 45,
                !valid ==> !label_valid(label),
            decreases stop - i,
        {
            if !(is_alphanumeric_byte(wire[i]) || wire[i] == 45) {
                proof {
                    assert(label[i - first] == wire@[i as int]);
                }
                valid = false;
            }
            i = i + 1;
        }
        if !valid {
            return Err(dns_failure());
        }
        proof {
            assert forall|j: int| 0 <= j < label.len() implies is_ascii_alphanumeric(
                #[trigger] label[j],
            ) || label[j] == 45 by {
                assert(label[j] == wire@[first + j]);
            }
        }
        let ghost lowered = label.map_values(|b: u8| ascii_lower(b));
        if label_count > 0 {
            name.push(46);
        }
        let mut k = first;
        let ghost before = name@;
        while k < stop
            invariant
                first <= k <= stop <= wire@.len(),
                label == wire@.subrange(first as int, stop as int),
                lowered == label.map_values(|b: u8| ascii_lower(b)),
                name@ == before + lowered.subrange(0, k - first),
            decreases stop - k,
        {
            name.push(to_lower_byte(wire[k]));
            proof {
                assert(lowered.subrange(0, k + 1 - first) =~= lowered.subrange(0, k - first).push(
                    lowered[k - first],
                ));
            }
            k = k + 1;
        }
        proof {
            assert(lowered.subrange(0, stop - first) =~= lowered);
            lemma_joined_push(labels, lowered);
            if label_count == 0 {
                assert(before =~= Seq::<u8>::empty());
                assert(name@ =~= lowered);
            } else {
                assert(name@ =~= joined(labels).push(46) + lowered);
            }
            assert forall|i: int| 0 <= i < lowered.len() implies #[trigger] lowered[i] < 128 by {
                assert(lowered[i] == ascii_lower(label[i]));
            }
            assert(all_ascii(lowered));
            labels = labels.push(lowered);
        }
        expanded = expanded + length + if label_count >= 1 {
            1
        } else {
            0
        };
        label_count = label_count + 1;
        visited.push(cursor);
        cursor = stop;
        step = step + 1;
    }
    Err(dns_failure())
}

/// The name encoded at `start`, lower-cased, and the end of its encoding.
pub fn read_name(wire: &[u8], start: usize) -> (result: Result<(String, usize), GatewayError>)
    ensures
        match result {
            Ok((name, end)) => name_at(wire@, start as int) matches Some((bytes, e)) && encode_utf8(
                name@,
            ) == bytes && end == e,
            Err(e) => name_at(wire@, start as int) is None && e.code == GatewayErrorCode::DnsFailure,
        },
{
    let (bytes, end) = read_name_bytes(wire, start)?;
    proof {
        lemma_ascii_valid_utf8(bytes@);
    }
    let ghost view = bytes@;
    match string_from_utf8(bytes) {
        Some(name) => Ok((name, end)),
        None => Err(dns_failure()),
    }
}


/// The bytes of an address.
pub open spec fn ip_bytes(address: IpAddress) -> Seq<u8> {
    match address {
        IpAddress::V4(octets) => octets@,
        IpAddress::V6(octets) => octets@,
    }
}

/// One resource record as the resolver reads it: its owner name, the address
/// bytes of an A or AAAA record, and the target of a CNAME record.
pub type SpecRecord = (Seq<u8>, Option<Seq<u8>>, Option<Seq<u8>>);

/// The record at `cursor` and the position after it.
pub open spec fn record_at(wire: Seq<u8>, cursor: int) -> Option<(SpecRecord, int)> {
    match name_at(wire, cursor) {
        None => None,
        Some((owner, c)) => if c + 10 > wire.len() {
            None
        } else {
            let record_type = be16(wire, c);
            let class = be16(wire, c + 2);
            let length = be16(wire, c + 8);
            let start = c + 10;
            let stop = start + length;
            if stop > wire.len() {
                None
            } else if class == CLASS_IN && record_type == TYPE_A && length == 4 {
                Some(((owner, Some(wire.subrange(start, stop)), None), stop))
            } else if class == CLASS_IN && record_type == TYPE_AAAA && length == 16 {
                Some(((owner, Some(wire.subrange(start, stop)), None), stop))
            } else if class == CLASS_IN && record_type == TYPE_CNAME {
                match name_at(wire, start) {
                    Some((target, consumed)) => if consumed == stop {
                        Some(((owner, None, Some(target)), stop))
                    } else {
                        None
                    },
                    None => None,
                }
            } else {
                Some(((owner, None, None), stop))
            }
        },
    }
}

/// `count` consecutive records from `cursor`, and the position after them.
pub open spec fn records_from(wire: Seq<u8>, cursor: int, count: nat) -> Option<(Seq<SpecRecord>, int)>
    decreases count,
{
    if count == 0 {
        Some((Seq::empty(), cursor))
    } else {
        match record_at(wire, cursor) {
            None => None,
            Some((record, next)) => match records_from(wire, next, (count - 1) as nat) {
                None => None,
                Some((rest, end)) => Some((seq![record] + rest, end)),
            },
        }
    }
}

/// The addresses that the records owned by `name` carry, in order.
pub open spec fn owner_addresses(records: Seq<SpecRecord>, name: Seq<u8>) -> Seq<Seq<u8>> {
    records.filter(|r: SpecRecord| r.0 == name && r.1 is Some).map_values(|r: SpecRecord| r.1->0)
}

/// The CNAME targets of the records owned by `name`, in order.
pub open spec fn owner_aliases(records: Seq<SpecRecord>, name: Seq<u8>) -> Seq<Seq<u8>> {
    records.filter(|r: SpecRecord| r.0 == name && r.2 is Some).map_values(|r: SpecRecord| r.2->0)
}

/// Every address carried by the records, in order.
pub open spec fn record_addresses(records: Seq<SpecRecord>) -> Seq<Seq<u8>> {
    records.filter(|r: SpecRecord| r.1 is Some).map_values(|r: SpecRecord| r.1->0)
}

/// Following the single CNAME of each name from `current`: the addresses of
/// the first name that has any, or none at a name with no alias; a repeated
/// name, several aliases or more than 16 steps fail.
pub open spec fn chase(
    answers: Seq<SpecRecord>,
    current: Seq<u8>,
    visited: Set<Seq<u8>>,
    depth: nat,
) -> Option<(Seq<Seq<u8>>, Seq<u8>, nat)>
    decreases 17 - depth,
{
    if depth > 16 || visited.contains(current) {
        None
    } else if owner_addresses(answers, current).len() > 0 {
        Some((owner_addresses(answers, current), current, depth))
    } else if owner_aliases(answers, current).len() == 0 {
        Some((Seq::empty(), current, depth))
    } else if owner_aliases(answers, current).len() != 1 || depth + 1 > 16 {
        None
    } else {
        chase(answers, owner_aliases(answers, current)[0], visited.insert(current), depth + 1)
    }
}

/// What the parsed records of a response yield, once they end exactly at the
/// end of the response.
pub open spec fn records_outcome(
    wire: Seq<u8>,
    answers: nat,
    expected_name: Seq<u8>,
    parsed: Option<(Seq<SpecRecord>, int)>,
) -> Option<(Seq<Seq<u8>>, Seq<Seq<u8>>, Seq<u8>, nat)> {
    match parsed {
        None => None,
        Some((records, end)) => if end != wire.len() {
            None
        } else {
            match chase(records.take(answers as int), expected_name, Set::empty(), 0) {
                None => None,
                Some((addresses, terminal, depth)) => Some(
                    (addresses, record_addresses(records), terminal, depth),
                ),
            }
        },
    }
}

/// What a response to query `expected_id` for `expected_name` yields: the
/// addresses of the chased name, every address in the response, the chased
/// name and the number of aliases followed.
pub open spec fn response_outcome(
    wire: Seq<u8>,
    expected_id: u16,
    expected_name: Seq<u8>,
    max_records: usize,
) -> Option<(Seq<Seq<u8>>, Seq<Seq<u8>>, Seq<u8>, nat)> {
    if wire.len() < DNS_HEADER_BYTES || be16(wire, 0) != expected_id {
        None
    } else {
        let flags = be16(wire, 2);
        let answers = be16(wire, 6) as nat;
        let total = answers + be16(wire, 8) + be16(wire, 10);
        if flags < 32768 || flags % 16 != 0 || be16(wire, 4) != 1 || total > max_records {
            None
        } else {
            match name_at(wire, DNS_HEADER_BYTES as int) {
                None => None,
                Some((question, c)) => if question != expected_name || c + 4 > wire.len() {
                    None
                } else {
                    records_outcome(wire, answers, expected_name, records_from(wire, c + 4, total as nat))
                },
            }
        }
    }
}

/// One parsed resource record.
#[derive(Clone, Debug)]
pub struct AnswerRecord {
    pub owner: Vec<u8>,
    pub address: Option<IpAddress>,
    pub alias: Option<Vec<u8>>,
}

impl AnswerRecord {
    pub open spec fn spec_record(&self) -> SpecRecord {
        (
            self.owner@,
            match self.address {
                Some(a) => Some(ip_bytes(a)),
                None => None,
            },
            match self.alias {
                Some(t) => Some(t@),
                None => None,
            },
        )
    }
}

/// The record views of a sequence of parsed records.
pub open spec fn record_views(records: Seq<AnswerRecord>) -> Seq<SpecRecord> {
    records.map_values(|r: AnswerRecord| r.spec_record())
}

/// The byte views of a sequence of addresses.
pub open spec fn address_views(addresses: Seq<IpAddress>) -> Seq<Seq<u8>> {
    addresses.map_values(|a: IpAddress| ip_bytes(a))
}

/// Parses the record at `cursor`.
pub fn parse_record(wire: &[u8], cursor: usize) -> (result: Result<(AnswerRecord, usize), GatewayError>)
    ensures
        match result {
            Ok((record, next)) => record_at(wire@, cursor as int) == Some(
                (record.spec_record(), next as int),
            ),
            Err(e) => record_at(wire@, cursor as int) is None && e.code
                == GatewayErrorCode::DnsFailure,
        },
{
    let (owner, c) = read_name_bytes(wire, cursor)?;
    if c > wire.len() || wire.len() - c < 10 {
        return Err(dns_failure());
    }
    let record_type = read_u16(wire, c)?;
    let class = read_u16(wire, c + 2)?;
    let length = read_u16(wire, c + 8)? as usize;
    let start = c + 10;
    if length > wire.len() - start {
        return Err(dns_failure());
    }
    let stop = start + length;
    if class == CLASS_IN && record_type == TYPE_A && length == 4 {
        let octets = [wire[start], wire[start + 1], wire[start + 2], wire[start + 3]];
        proof {
            assert(octets@ =~= wire@.subrange(start as int, stop as int));
        }
        return Ok((AnswerRecord { owner, address: Some(IpAddress::V4(octets)), alias: None }, stop));
    }
    if class == CLASS_IN && record_type == TYPE_AAAA && length == 16 {
        let octets = [
            wire[start],
            wire[start + 1],
            wire[start + 2],
            wire[start + 3],
            wire[start + 4],
            wire[start + 5],
            wire[start + 6],
            wire[start + 7],
            wire[start + 8],
            wire[start + 9],
            wire[start + 10],
            wire[start + 11],
            wire[start + 12],
            wire[start + 13],
            wire[start + 14],
            wire[start + 15],
        ];
        proof {
            assert(octets@ =~= wire@.subrange(start as int, stop as int));
        }
        return Ok((AnswerRecord { owner, address: Some(IpAddress::V6(octets)), alias: None }, stop));
    }
    if class == CLASS_IN && record_type == TYPE_CNAME {
        let (target, consumed) = read_name_bytes(wire, start)?;
        if consumed != stop {
            return Err(dns_failure());
        }
        return Ok((AnswerRecord { owner, address: None, alias: Some(target) }, stop));
    }
    Ok((AnswerRecord { owner, address: None, alias: None }, stop))
}


proof fn lemma_filter_take_step<A>(s: Seq<A>, p: spec_fn(A) -> bool, i: int)
    requires
        0 <= i < s.len(),
    ensures
        s.take(i + 1).filter(p) == if p(s[i]) {
            s.take(i).filter(p).push(s[i])
        } else {
            s.take(i).filter(p)
        },
{
    reveal(Seq::filter);
    assert(s.take(i + 1).drop_last() =~= s.take(i));
}

/// The names already chased.
spec fn name_set(names: Seq<Vec<u8>>) -> Set<Seq<u8>> {
    Set::new(|n: Seq<u8>| exists|i: int| 0 <= i < names.len() && names[i]@ == n)
}

fn holds_name(names: &Vec<Vec<u8>>, name: &[u8]) -> (found: bool)
    ensures
        found == name_set(names@).contains(name@),
{
    let mut i: usize = 0;
    while i < names.len()
        invariant
            i <= names@.len(),
            forall|j: int| 0 <= j < i ==> names@[j]@ != name@,
        decreases names@.len() - i,
    {
        if crate::text::bytes_equal(names[i].as_slice(), name) {
            proof {
                assert(names@[i as int]@ == name@);
            }
            return true;
        }
        i = i + 1;
    }
    false
}

fn copy_bytes(bytes: &[u8]) -> (copy: Vec<u8>)
    ensures
        copy@ == bytes@,
{
    let mut copy: Vec<u8> = Vec::new();
    let mut i: usize = 0;
    while i < bytes.len()
        invariant
            i <= bytes@.len(),
            copy@ == bytes@.subrange(0, i as int),
        decreases bytes@.len() - i,
    {
        copy.push(bytes[i]);
        proof {
            assert(bytes@.subrange(0, i + 1) =~= bytes@.subrange(0, i as int).push(bytes@[i as int]));
        }
        i = i + 1;
    }
    proof {
        assert(copy@ =~= bytes@);
    }
    copy
}

/// Chases aliases from `expected` through the answer records.
pub fn chase_answers(answers: &Vec<AnswerRecord>, expected: &[u8]) -> (result: Result<
    (Vec<IpAddress>, Vec<u8>, usize),
    GatewayError,
>)
    ensures
        match result {
            Ok((addresses, terminal, depth)) => chase(
                record_views(answers@),
                expected@,
                Set::empty(),
                0,
            ) == Some((address_views(addresses@), terminal@, depth as nat)),
            Err(e) => chase(record_views(answers@), expected@, Set::empty(), 0) is None && e.code
                == GatewayErrorCode::DnsFailure,
        },
{
    let ghost views = record_views(answers@);
    let mut current = copy_bytes(expected);
    let mut visited: Vec<Vec<u8>> = Vec::new();
    let mut depth: usize = 0;
    proof {
        assert(name_set(visited@) =~= Set::<Seq<u8>>::empty());
    }
    loop
        invariant
            views == record_views(answers@),
            depth <= 16,
            chase(views, expected@, Set::empty(), 0) == chase(
                views,
                current@,
                name_set(visited@),
                depth as nat,
            ),
        decreases 17 - depth,
    {
        if holds_name(&visited, current.as_slice()) {
            return Err(dns_failure());
        }
        let mut addresses: Vec<IpAddress> = Vec::new();
        let mut alias_count: usize = 0;
        let mut first_alias: Option<Vec<u8>> = None;
        let ghost has_address = |r: SpecRecord| r.0 == current@ && r.1 is Some;
        let ghost has_alias = |r: SpecRecord| r.0 == current@ && r.2 is Some;
        let mut i: usize = 0;
        while i < answers.len()
            invariant
                views == record_views(answers@),
                i <= answers@.len(),
                has_address == (|r: SpecRecord| r.0 == current@ && r.1 is Some),
                has_alias == (|r: SpecRecord| r.0 == current@ && r.2 is Some),
                address_views(addresses@) == views.take(i as int).filter(has_address).map_values(
                    |r: SpecRecord| r.1->0,
                ),
                alias_count == views.take(i as int).filter(has_alias).len(),
                alias_count <= i,
                alias_count > 0 <==> first_alias is Some,
                first_alias matches Some(t) ==> t@ == views.take(i as int).filter(has_alias)[0].2->0,
            decreases answers@.len() - i,
        {
            proof {
                lemma_filter_take_step(views, has_address, i as int);
                lemma_filter_take_step(views, has_alias, i as int);
                assert(views[i as int] == answers@[i as int].spec_record());
            }
            let record = &answers[i];
            if crate::text::bytes_equal(record.owner.as_slice(), current.as_slice()) {
                if let Some(address) = record.address {
                    let ghost before = addresses@;
                    addresses.push(address);
                    proof {
                        assert(address_views(addresses@) =~= address_views(before).push(
                            ip_bytes(address),
                        ));
                    }
                }
                if let Some(target) = &record.alias {
                    if alias_count == 0 {
                        first_alias = Some(copy_bytes(target.as_slice()));
                    }
                    alias_count = alias_count + 1;
                }
            }
            proof {
                let old_alias = views.take(i as int).filter(has_alias);
                if has_alias(views[i as int]) && old_alias.len() > 0 {
                    assert(old_alias.push(views[i as int])[0] == old_alias[0]);
                }
            }
            i = i + 1;
        }
        proof {
            assert(views.take(answers@.len() as int) =~= views);
            assert(owner_addresses(views, current@) == address_views(addresses@));
            assert(owner_aliases(views, current@).len() == alias_count);
        }
        if addresses.len() > 0 {
            return Ok((addresses, current, depth));
        }
        if alias_count == 0 {
            proof {
                assert(address_views(addresses@) =~= Seq::<Seq<u8>>::empty());
            }
            return Ok((addresses, current, depth));
        }
        if alias_count != 1 || depth + 1 > 16 {
            return Err(dns_failure());
        }
        let next = match first_alias {
            Some(target) => target,
            None => return Err(dns_failure()),
        };
        proof {
            assert(next@ == owner_aliases(views, current@)[0]);
            assert(name_set(visited@.push(current)) =~= name_set(visited@).insert(current@)) by {
                assert forall|n: Seq<u8>| #[trigger] name_set(visited@).insert(current@).contains(n) implies name_set(visited@.push(current)).contains(n) by {
                    if n == current@ {
                        assert(visited@.push(current)[visited@.len() as int]@ == n);
                    } else {
                        let k = choose|k: int| 0 <= k < visited@.len() && visited@[k]@ == n;
                        assert(visited@.push(current)[k]@ == n);
                    }
                }
                assert forall|n: Seq<u8>| #[trigger] name_set(visited@.push(current)).contains(n) implies name_set(visited@).insert(current@).contains(n) by {
                    let k = choose|k: int| 0 <= k < visited@.push(current).len() && visited@.push(current)[k]@ == n;
                    if k < visited@.len() {
                        assert(visited@[k]@ == n);
                    }
                }
            }
        }
        visited.push(current);
        current = next;
        depth = depth + 1;
    }
}


/// The outcome of parsing a response: the addresses of the chased name, all
/// addresses in the response, the chased name's bytes and the aliases followed.
#[derive(Debug)]
pub struct ParsedResponse {
    pub addresses: Vec<IpAddress>,
    pub all_addresses: Vec<IpAddress>,
    pub terminal_name: Vec<u8>,
    pub cname_depth: usize,
}

/// Parses and checks a response to query `expected_id` for `expected_name`:
/// header, echoed question, every record within the response's bounds, and
/// the alias chain from the question's name.
pub fn parse_response(wire: &[u8], expected_id: u16, expected_name: &str, max_records: usize) -> (result:
    Result<ParsedResponse, GatewayError>)
    ensures
        match result {
            Ok(parsed) => response_outcome(
                wire@,
                expected_id,
                encode_utf8(expected_name@),
                max_records,
            ) == Some(
                (
                    address_views(parsed.addresses@),
                    address_views(parsed.all_addresses@),
                    parsed.terminal_name@,
                    parsed.cname_depth as nat,
                ),
            ),
            Err(e) => response_outcome(
                wire@,
                expected_id,
                encode_utf8(expected_name@),
                max_records,
            ) is None && e.code == GatewayErrorCode::DnsFailure,
        },
{
    if wire.len() < DNS_HEADER_BYTES {
        return Err(dns_failure());
    }
    let id = read_u16(wire, 0)?;
    if id != expected_id {
        return Err(dns_failure());
    }
    let flags = read_u16(wire, 2)?;
    let question_count = read_u16(wire, 4)?;
    let answer_count = read_u16(wire, 6)? as usize;
    let authority_count = read_u16(wire, 8)? as usize;
    let additional_count = read_u16(wire, 10)? as usize;
    let total = answer_count + authority_count + additional_count;
    if flags < 32768 || flags % 16 != 0 || question_count != 1 || total > max_records {
        return Err(dns_failure());
    }
    let expected = expected_name.as_bytes();
    let (question, c) = read_name_bytes(wire, DNS_HEADER_BYTES)?;
    if !crate::text::bytes_equal(question.as_slice(), expected) || c > wire.len() || wire.len() - c
        < 4 {
        return Err(dns_failure());
    }
    let start = c + 4;
    let mut cursor = start;
    let mut records: Vec<AnswerRecord> = Vec::new();
    let mut answers: Vec<AnswerRecord> = Vec::new();
    let mut all_addresses: Vec<IpAddress> = Vec::new();
    let mut index: usize = 0;
    let ghost has_address = |r: SpecRecord| r.1 is Some;
    while index < total
        invariant
            index <= total,
            total == answer_count + authority_count + additional_count,
            answer_count == be16(wire@, 6),
            response_outcome(wire@, expected_id, encode_utf8(expected_name@), max_records)
                == records_outcome(
                wire@,
                answer_count as nat,
                encode_utf8(expected_name@),
                records_from(wire@, start as int, total as nat),
            ),
            has_address == (|r: SpecRecord| r.1 is Some),
            records_from(wire@, start as int, total as nat) == match records_from(
                wire@,
                cursor as int,
                (total - index) as nat,
            ) {
                Some((rest, end)) => Some((record_views(records@) + rest, end)),
                None => None,
            },
            records@.len() == index,
            record_views(answers@) == record_views(records@).take(
                if index < answer_count {
                    index as int
                } else {
                    answer_count as int
                },
            ),
            address_views(all_addresses@) == record_views(records@).filter(has_address).map_values(
                |r: SpecRecord| r.1->0,
            ),
        decreases total - index,
    {
        let (record, next) = parse_record(wire, cursor)?;
        let ghost before = record_views(records@);
        let ghost view = record.spec_record();
        if let Some(address) = record.address {
            let ghost addresses_before = all_addresses@;
            all_addresses.push(address);
            proof {
                assert(address_views(all_addresses@) =~= address_views(addresses_before).push(
                    ip_bytes(address),
                ));
            }
        }
        if index < answer_count {
            let ghost answers_before = answers@;
            answers.push(record.clone_record());
            proof {
                assert(record_views(answers@) =~= record_views(answers_before).push(view));
            }
        }
        records.push(record);
        proof {
            assert(record_views(records@) =~= before.push(view));
            lemma_filter_take_step(record_views(records@), has_address, index as int);
            assert(record_views(records@).take(index as int) =~= before);
            assert(record_views(records@).take(index + 1) =~= record_views(records@));
            assert(before.push(view) + records_from(wire@, next as int, (total - index - 1) as nat).unwrap().0 =~= before + (seq![view] + records_from(wire@, next as int, (total - index - 1) as nat).unwrap().0)) by {
                if records_from(wire@, next as int, (total - index - 1) as nat) is Some {
                }
            }
            if index < answer_count {
                assert(record_views(records@).take(index + 1) =~= record_views(records@));
            } else {
                assert(record_views(records@).take(answer_count as int) =~= before.take(
                    answer_count as int,
                ));
            }
        }
        cursor = next;
        index = index + 1;
    }
    if cursor != wire.len() {
        return Err(dns_failure());
    }
    proof {
        assert(records_from(wire@, cursor as int, 0) == Some((Seq::<SpecRecord>::empty(), cursor as int)));
        assert(record_views(records@) + Seq::<SpecRecord>::empty() =~= record_views(records@));
        assert(record_views(records@).take(answer_count as int) =~= record_views(records@).take(
            (be16(wire@, 6) as nat) as int,
        ));
    }
    let (addresses, terminal_name, cname_depth) = chase_answers(&answers, expected)?;
    Ok(ParsedResponse { addresses, all_addresses, terminal_name, cname_depth })
}

impl AnswerRecord {
    fn clone_record(&self) -> (copy: Self)
        ensures
            copy.spec_record() == self.spec_record(),
    {
        AnswerRecord {
            owner: copy_bytes(self.owner.as_slice()),
            address: self.address,
            alias: match &self.alias {
                Some(target) => Some(copy_bytes(target.as_slice())),
                None => None,
            },
        }
    }
}


/// The dot-separated pieces of `s`, as `str::split('.')` yields them.
pub open spec fn split_dots(s: Seq<u8>) -> Seq<Seq<u8>>
    decreases s.len(),
{
    if s.len() == 0 {
        seq![Seq::empty()]
    } else {
        let previous = split_dots(s.drop_last());
        if s.last() == 46 {
            previous.push(Seq::empty())
        } else {
            previous.update(previous.len() - 1, previous.last().push(s.last()))
        }
    }
}

/// The labels of a byte string, as views.
pub open spec fn label_views(labels: Seq<Vec<u8>>) -> Seq<Seq<u8>> {
    labels.map_values(|l: Vec<u8>| l@)
}

/// Splits a byte string at every dot.
pub fn split_labels(bytes: &[u8]) -> (labels: Vec<Vec<u8>>)
    ensures
        label_views(labels@) == split_dots(bytes@),
{
    let mut labels: Vec<Vec<u8>> = Vec::new();
    let mut current: Vec<u8> = Vec::new();
    let mut i: usize = 0;
    proof {
        assert(bytes@.take(0) =~= Seq::<u8>::empty());
        assert(label_views(labels@).push(current@) =~= seq![Seq::<u8>::empty()]);
    }
    while i < bytes.len()
        invariant
            i <= bytes@.len(),
            split_dots(bytes@.take(i as int)) == label_views(labels@).push(current@),
        decreases bytes@.len() - i,
    {
        proof {
            assert(bytes@.take(i + 1).drop_last() =~= bytes@.take(i as int));
            assert(bytes@.take(i + 1).last() == bytes@[i as int]);
        }
        if bytes[i] == 46 {
            let ghost before = label_views(labels@);
            let ghost finished = current@;
            labels.push(current);
            current = Vec::new();
            proof {
                assert(label_views(labels@) =~= before.push(finished));
                assert(label_views(labels@).push(current@) =~= before.push(finished).push(Seq::<u8>::empty()));
            }
        } else {
            let ghost before = label_views(labels@);
            current.push(bytes[i]);
            proof {
                assert(label_views(labels@) =~= before);
            }
        }
        i = i + 1;
    }
    proof {
        assert(bytes@.take(bytes@.len() as int) =~= bytes@);
    }
    let ghost before = label_views(labels@);
    let ghost finished = current@;
    labels.push(current);
    proof {
        assert(label_views(labels@) =~= before.push(finished));
    }
    labels
}

proof fn lemma_split_dots_nonempty(s: Seq<u8>)
    ensures
        split_dots(s).len() >= 1,
    decreases s.len(),
{
    if s.len() > 0 {
        lemma_split_dots_nonempty(s.drop_last());
    }
}

/// Each label prefixed by its length.
pub open spec fn label_encoding(labels: Seq<Seq<u8>>) -> Seq<u8>
    decreases labels.len(),
{
    if labels.len() == 0 {
        Seq::empty()
    } else {
        label_encoding(labels.drop_last()).push(labels.last().len() as u8) + labels.last()
    }
}

/// Every label has between 1 and 63 bytes.
pub open spec fn labels_encodable(labels: Seq<Seq<u8>>) -> bool {
    forall|k: int| 0 <= k < labels.len() ==> 1 <= #[trigger] labels[k].len() <= 63
}

/// The wire form of a hostname: its labels, each prefixed by its length, and
/// a terminating zero.
pub open spec fn name_encoding(hostname: Seq<u8>) -> Seq<u8> {
    label_encoding(split_dots(hostname)).push(0)
}

/// Appends the wire form of `hostname`; refused, with nothing appended, when a
/// label is empty or longer than 63 bytes.
pub fn encode_name(hostname: &str, output: &mut Vec<u8>) -> (result: Result<(), GatewayError>)
    ensures
        result is Ok <==> labels_encodable(split_dots(encode_utf8(hostname@))),
        result is Ok ==> final(output)@ == old(output)@ + name_encoding(encode_utf8(hostname@)),
        result matches Err(e) ==> e.code == GatewayErrorCode::DnsFailure && final(output)@ == old(
            output,
        )@,
{
    let bytes = hostname.as_bytes();
    let mut encoded: Vec<u8> = Vec::new();
    let mut label_start: usize = 0;
    let ghost mut done: Seq<Seq<u8>> = Seq::empty();
    let mut i: usize = 0;
    proof {
        assert(bytes@.take(0) =~= Seq::<u8>::empty());
        assert(bytes@.subrange(0, 0) =~= Seq::<u8>::empty());
        assert(done.push(Seq::<u8>::empty()) =~= seq![Seq::<u8>::empty()]);
    }
    while i < bytes.len()
        invariant
            label_start <= i <= bytes@.len(),
            bytes@ == encode_utf8(hostname@),
            split_dots(bytes@.take(i as int)) == done.push(bytes@.subrange(label_start as int, i as int)),
            labels_encodable(done),
            encoded@ == label_encoding(done),
        decreases bytes@.len() - i,
    {
        proof {
            assert(bytes@.take(i + 1).drop_last() =~= bytes@.take(i as int));
            assert(bytes@.take(i + 1).last() == bytes@[i as int]);
        }
        if bytes[i] == 46 {
            let length = i - label_start;
            if length == 0 || length > 63 {
                proof {
                    let label = bytes@.subrange(label_start as int, i as int);
                    lemma_split_prefix_stable(bytes@, i as int + 1, done.len() as int, label);
                    assert(split_dots(bytes@)[done.len() as int].len() == label.len());
                    assert(label.len() == length);
                    assert(!labels_encodable(split_dots(bytes@)));
                    assert(bytes@ == encode_utf8(hostname@));
                }
                return Err(dns_failure());
            }
            let ghost label = bytes@.subrange(label_start as int, i as int);
            encoded.push(length as u8);
            let mut k = label_start;
            let ghost before = encoded@;
            while k < i
                invariant
                    label_start <= k <= i < bytes@.len(),
                    encoded@ == before + bytes@.subrange(label_start as int, k as int),
                decreases i - k,
            {
                encoded.push(bytes[k]);
                proof {
                    assert(bytes@.subrange(label_start as int, k + 1) =~= bytes@.subrange(
                        label_start as int,
                        k as int,
                    ).push(bytes@[k as int]));
                }
                k = k + 1;
            }
            proof {
                assert(done.push(label).drop_last() =~= done);
                assert(encoded@ =~= label_encoding(done.push(label)));
                done = done.push(label);
                assert(bytes@.subrange(i + 1, i + 1) =~= Seq::<u8>::empty());
            }
            label_start = i + 1;
        } else {
            proof {
                assert(bytes@.subrange(label_start as int, i + 1) =~= bytes@.subrange(
                    label_start as int,
                    i as int,
                ).push(bytes@[i as int]));
            }
        }
        i = i + 1;
    }
    let length = bytes.len() - label_start;
    let ghost label = bytes@.subrange(label_start as int, bytes@.len() as int);
    proof {
        assert(bytes@.take(bytes@.len() as int) =~= bytes@);
    }
    if length == 0 || length > 63 {
        proof {
            assert(split_dots(bytes@) == done.push(label));
            assert(split_dots(bytes@)[done.len() as int].len() == length);
            assert(!labels_encodable(split_dots(bytes@)));
        }
        return Err(dns_failure());
    }
    encoded.push(length as u8);
    let mut k = label_start;
    let ghost before = encoded@;
    while k < bytes.len()
        invariant
            label_start <= k <= bytes@.len(),
            encoded@ == before + bytes@.subrange(label_start as int, k as int),
        decreases bytes@.len() - k,
    {
        encoded.push(bytes[k]);
        proof {
            assert(bytes@.subrange(label_start as int, k + 1) =~= bytes@.subrange(
                label_start as int,
                k as int,
            ).push(bytes@[k as int]));
        }
        k = k + 1;
    }
    encoded.push(0);
    proof {
        assert(done.push(label).drop_last() =~= done);
        assert(encoded@ =~= label_encoding(done.push(label)).push(0));
        assert forall|j: int| 0 <= j < done.push(label).len() implies 1 <= #[trigger] done.push(
            label,
        )[j].len() <= 63 by {
            if j < done.len() {
                assert(done.push(label)[j] == done[j]);
            }
        }
    }
    let mut j: usize = 0;
    let ghost start = output@;
    while j < encoded.len()
        invariant
            j <= encoded@.len(),
            output@ == start + encoded@.subrange(0, j as int),
        decreases encoded@.len() - j,
    {
        output.push(encoded[j]);
        proof {
            assert(encoded@.subrange(0, j + 1) =~= encoded@.subrange(0, j as int).push(
                encoded@[j as int],
            ));
        }
        j = j + 1;
    }
    proof {
        assert(encoded@.subrange(0, encoded@.len() as int) =~= encoded@);
    }
    Ok(())
}

/// Once a dot ends the label at position `done_count` in the pieces of a
/// prefix, that piece is the same in the pieces of the whole string.
proof fn lemma_split_prefix_stable(s: Seq<u8>, n: int, done_count: int, label: Seq<u8>)
    requires
        0 < n <= s.len(),
        0 <= done_count,
        s[n - 1] == 46,
        split_dots(s.take(n - 1)).len() == done_count + 1,
        split_dots(s.take(n - 1))[done_count] == label,
    ensures
        split_dots(s)[done_count] == label,
        split_dots(s).len() > done_count,
    decreases s.len() - n,
{
    assert(s.take(n).drop_last() =~= s.take(n - 1));
    lemma_split_grows(s, n);
    assert(split_dots(s)[done_count] == split_dots(s.take(n - 1))[done_count]);
}

proof fn lemma_split_grows(s: Seq<u8>, n: int)
    requires
        0 < n <= s.len(),
        s[n - 1] == 46,
    ensures
        split_dots(s).len() > split_dots(s.take(n - 1)).len(),
        forall|k: int|
            0 <= k < split_dots(s.take(n - 1)).len() ==> split_dots(s)[k] == #[trigger] split_dots(
                s.take(n - 1),
            )[k],
    decreases s.len() - n,
{
    assert(s.take(n).drop_last() =~= s.take(n - 1));
    if n == s.len() {
        assert(s.take(n) =~= s);
    } else {
        lemma_split_extend(s, n, s.len() as int);
    }
}

proof fn lemma_split_extend(s: Seq<u8>, n: int, m: int)
    requires
        0 < n <= m <= s.len(),
        s[n - 1] == 46,
    ensures
        split_dots(s.take(m)).len() > split_dots(s.take(n - 1)).len(),
        forall|k: int|
            0 <= k < split_dots(s.take(n - 1)).len() ==> split_dots(s.take(m))[k] == #[trigger] split_dots(
                s.take(n - 1),
            )[k],
        m == s.len() ==> s.take(m) == s,
    decreases m - n,
{
    lemma_split_dots_nonempty(s.take(n - 1));
    if m == n {
        assert(s.take(n).drop_last() =~= s.take(n - 1));
    } else {
        lemma_split_extend(s, n, m - 1);
        assert(s.take(m).drop_last() =~= s.take(m - 1));
        lemma_split_dots_nonempty(s.take(m - 1));
    }
    if m == s.len() {
        assert(s.take(m) =~= s);
    }
}


/// The big-endian bytes of a 16-bit value.
pub open spec fn be16_bytes(value: u16) -> Seq<u8> {
    seq![(value / 256) as u8, (value % 256) as u8]
}

/// A recursion-desired query with one question for `hostname` of
/// `record_type` in class IN.
pub open spec fn query_bytes(id: u16, hostname: Seq<u8>, record_type: u16) -> Seq<u8> {
    be16_bytes(id) + seq![1u8, 0u8, 0u8, 1u8, 0u8, 0u8, 0u8, 0u8, 0u8, 0u8] + name_encoding(
        hostname,
    ) + be16_bytes(record_type) + seq![0u8, 1u8]
}

fn push_be16(output: &mut Vec<u8>, value: u16)
    ensures
        final(output)@ == old(output)@ + be16_bytes(value),
{
    output.push((value / 256) as u8);
    output.push((value % 256) as u8);
    proof {
        assert(final(output)@ =~= old(output)@ + be16_bytes(value));
    }
}

pub fn build_query(id: u16, hostname: &str, record_type: u16) -> (result: Result<Vec<u8>, GatewayError>)
    ensures
        result is Ok <==> labels_encodable(split_dots(encode_utf8(hostname@))),
        result matches Ok(query) ==> query@ == query_bytes(id, encode_utf8(hostname@), record_type),
        result matches Err(e) ==> e.code == GatewayErrorCode::DnsFailure,
{
    let mut query: Vec<u8> = Vec::new();
    push_be16(&mut query, id);
    push_be16(&mut query, 256);
    push_be16(&mut query, 1);
    let mut k: usize = 0;
    while k < 6
        invariant
            k <= 6,
            query@ == be16_bytes(id) + be16_bytes(256) + be16_bytes(1) + Seq::new(
                k as nat,
                |j: int| 0u8,
            ),
        decreases 6 - k,
    {
        query.push(0);
        proof {
            assert(Seq::new((k + 1) as nat, |j: int| 0u8) =~= Seq::new(k as nat, |j: int| 0u8).push(
                0,
            ));
        }
        k = k + 1;
    }
    let ghost header = query@;
    encode_name(hostname, &mut query)?;
    push_be16(&mut query, record_type);
    push_be16(&mut query, CLASS_IN);
    proof {
        assert(header =~= be16_bytes(id) + seq![1u8, 0u8, 0u8, 1u8, 0u8, 0u8, 0u8, 0u8, 0u8, 0u8]);
        assert(query@ =~= query_bytes(id, encode_utf8(hostname@), record_type));
    }
    Ok(query)
}

} // verus!
