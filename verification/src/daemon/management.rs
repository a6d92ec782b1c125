//! The loopback management endpoint: which of its three routes a request asks
//! for, and the complete HTTP response. Reading and writing the socket is the
//! caller's.
use vstd::prelude::*;
use vstd::string::StringExecFns;
use vstd::utf8::{encode_utf8, valid_utf8};

use crate::daemon::error::{GatewayError, GatewayErrorCode};
use crate::daemon::health::{append_digits, digits, prometheus_text, Metrics};
use crate::text::{append_bytes, bytes_equal, string_from_utf8};

verus! {

/// The request buffer: a request that fills it is too large.
pub const MANAGEMENT_REQUEST_BYTES: usize = 4096;

/// What a management request asks for.
#[derive(Clone, Copy, Debug, PartialEq, Eq)]
pub enum ManagementRoute {
    Metrics,
    Health,
    NotFound,
}

/// A carriage return and line feed, twice, starts at `i`.
pub open spec fn blank_line_at(r: Seq<u8>, i: int) -> bool {
    0 <= i && i + 4 <= r.len() && r[i] == 13 && r[i + 1] == 10 && r[i + 2] == 13 && r[i + 3] == 10
}

/// The request holds the blank line that ends an HTTP header.
pub open spec fn has_blank_line(r: Seq<u8>) -> bool {
    exists|i: int| #[trigger] blank_line_at(r, i)
}

/// `k` ends the first line: the first newline, or the end of the request.
pub open spec fn is_first_line_end(r: Seq<u8>, k: int) -> bool {
    &&& 0 <= k <= r.len()
    &&& (k == r.len() || r[k] == 10)
    &&& forall|j: int| 0 <= j < k ==> r[j] != 10
}

/// The first line without its line ending.
pub open spec fn first_line(r: Seq<u8>) -> Seq<u8> {
    let k = choose|k: int| is_first_line_end(r, k);
    let line = r.take(k);
    if line.len() > 0 && line.last() == 13 && k < r.len() {
        line.drop_last()
    } else {
        line
    }
}

/// The route of a request: an unterminated or buffer-filling request is
/// `MessageTooLarge`, one that is not UTF-8 a protocol violation; otherwise
/// the first line decides.
pub open spec fn management_route(request: Seq<u8>) -> Result<ManagementRoute, GatewayErrorCode> {
    if request.len() >= MANAGEMENT_REQUEST_BYTES || !has_blank_line(request) {
        Err(GatewayErrorCode::MessageTooLarge)
    } else if !valid_utf8(request) {
        Err(GatewayErrorCode::ProtocolViolation)
    } else if first_line(request) == encode_utf8("GET /metrics HTTP/1.1"@) {
        Ok(ManagementRoute::Metrics)
    } else if first_line(request) == encode_utf8("GET /healthz HTTP/1.1"@) {
        Ok(ManagementRoute::Health)
    } else {
        Ok(ManagementRoute::NotFound)
    }
}

proof fn lemma_first_line_end_unique(r: Seq<u8>, a: int, b: int)
    requires
        is_first_line_end(r, a),
        is_first_line_end(r, b),
    ensures
        a == b,
{
    if a < b {
        assert(r[a] != 10);
    } else if b < a {
        assert(r[b] != 10);
    }
}

/// Routes a management request.
pub fn route_management_request(request: &[u8]) -> (result: Result<ManagementRoute, GatewayError>)
    ensures
        match management_route(request@) {
            Ok(route) => result == Ok::<ManagementRoute, GatewayError>(route),
            Err(code) => result matches Err(e) && e.code == code,
        },
{
    let n = request.len();
    if n >= MANAGEMENT_REQUEST_BYTES {
        return Err(GatewayError::new(GatewayErrorCode::MessageTooLarge));
    }
    let mut found = false;
    let mut i: usize = 0;
    while i + 4 <= n
        invariant
            n == request@.len(),
            n < MANAGEMENT_REQUEST_BYTES,
            i <= n,
            found ==> has_blank_line(request@),
            !found ==> forall|j: int| 0 <= j < i ==> !#[trigger] blank_line_at(request@, j),
        decreases n - i,
    {
        if request[i] == 13 && request[i + 1] == 10 && request[i + 2] == 13 && request[i + 3] == 10 {
            assert(blank_line_at(request@, i as int));
            found = true;
        }
        i = i + 1;
    }
    if !found {
        proof {
            assert forall|j: int| !#[trigger] blank_line_at(request@, j) by {
                if 0 <= j && j + 4 <= request@.len() {
                    assert(j < i);
                }
            }
        }
        return Err(GatewayError::new(GatewayErrorCode::MessageTooLarge));
    }
    let mut copy: Vec<u8> = Vec::new();
    append_bytes(&mut copy, request);
    if string_from_utf8(copy).is_none() {
        return Err(GatewayError::new(GatewayErrorCode::ProtocolViolation));
    }
    let mut k: usize = 0;
    while k < n && request[k] != 10
        invariant
            n == request@.len(),
            k <= n,
            forall|j: int| 0 <= j < k ==> request@[j] != 10,
        decreases n - k,
    {
        k = k + 1;
    }
    let end = if k > 0 && request[k - 1] == 13 && k < n {
        k - 1
    } else {
        k
    };
    let line = &request[0..end];
    proof {
        assert(is_first_line_end(request@, k as int));
        let c = choose|c: int| is_first_line_end(request@, c);
        lemma_first_line_end_unique(request@, c, k as int);
        assert(line@ =~= first_line(request@));
    }
    if bytes_equal(line, "GET /metrics HTTP/1.1".as_bytes()) {
        Ok(ManagementRoute::Metrics)
    } else if bytes_equal(line, "GET /healthz HTTP/1.1".as_bytes()) {
        Ok(ManagementRoute::Health)
    } else {
        Ok(ManagementRoute::NotFound)
    }
}

/// The body of a route's response.
pub open spec fn management_body(
    route: ManagementRoute,
    counts: Seq<u64>,
    sessions: nat,
    streams: nat,
    ready: bool,
) -> Seq<char> {
    match route {
        ManagementRoute::Metrics => prometheus_text(counts, sessions, streams, ready),
        ManagementRoute::Health => if ready {
            "ready\n"@
        } else {
            "not-ready\n"@
        },
        ManagementRoute::NotFound => "not-found\n"@,
    }
}

pub open spec fn management_status(route: ManagementRoute, ready: bool) -> Seq<char> {
    match route {
        ManagementRoute::Metrics => "200 OK"@,
        ManagementRoute::Health => if ready {
            "200 OK"@
        } else {
            "503 Service Unavailable"@
        },
        ManagementRoute::NotFound => "404 Not Found"@,
    }
}

pub open spec fn management_content_type(route: ManagementRoute) -> Seq<char> {
    match route {
        ManagementRoute::Metrics => "text/plain; version=0.0.4"@,
        _ => "text/plain"@,
    }
}

/// The whole response: status line, content type, the body's length in
/// bytes, `Connection: close`, and the body.
pub open spec fn management_response_text(
    route: ManagementRoute,
    counts: Seq<u64>,
    sessions: nat,
    streams: nat,
    ready: bool,
) -> Seq<char> {
    let body = management_body(route, counts, sessions, streams, ready);
    "HTTP/1.1 "@ + management_status(route, ready) + "\r\nContent-Type: "@ + management_content_type(route)
        + "\r\nContent-Length: "@ + digits(encode_utf8(body).len()) + "\r\nConnection: close\r\n\r\n"@ + body
}

/// Renders the response to a routed request.
pub fn management_response(
    route: ManagementRoute,
    metrics: &Metrics,
    active_sessions: usize,
    active_streams: usize,
    ready: bool,
) -> (text: String)
    requires
        metrics.wf(),
    ensures
        text@ == management_response_text(
            route,
            metrics.counts(),
            active_sessions as nat,
            active_streams as nat,
            ready,
        ),
{
    let body: String = match route {
        ManagementRoute::Metrics => metrics.render_prometheus(active_sessions, active_streams, ready),
        ManagementRoute::Health => if ready {
            "ready\n".to_owned()
        } else {
            "not-ready\n".to_owned()
        },
        ManagementRoute::NotFound => "not-found\n".to_owned(),
    };
    let status: &str = match route {
        ManagementRoute::Metrics => "200 OK",
        ManagementRoute::Health => if ready {
            "200 OK"
        } else {
            "503 Service Unavailable"
        },
        ManagementRoute::NotFound => "404 Not Found",
    };
    let content_type: &str = match route {
        ManagementRoute::Metrics => "text/plain; version=0.0.4",
        _ => "text/plain",
    };
    proof {
        assert(body@ == management_body(route, metrics.counts(), active_sessions as nat, active_streams as nat, ready));
        assert(status@ == management_status(route, ready));
        assert(content_type@ == management_content_type(route));
    }
    let length = body.as_str().as_bytes().len();
    let mut response = String::new();
    response.append("HTTP/1.1 ");
    response.append(status);
    response.append("\r\nContent-Type: ");
    response.append(content_type);
    response.append("\r\nContent-Length: ");
    append_digits(&mut response, length as u64);
    response.append("\r\nConnection: close\r\n\r\n");
    response.append(body.as_str());
    proof {
        assert(response@ =~= management_response_text(
            route,
            metrics.counts(),
            active_sessions as nat,
            active_streams as nat,
            ready,
        ));
    }
    response
}

} // verus!
