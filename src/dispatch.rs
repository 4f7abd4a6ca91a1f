//! Classification of an incoming request: tunnel, forward, or refuse.
use vstd::prelude::*;
use crate::headers::{
    Header, all_accepted, bytes_of, header_accepted, headers_view, outbound_headers, outbound_headers_of,
};
use crate::reply::{
    Reply, error_response, BUILD_FAILED, INVALID_CONNECT_URI, INVALID_SCHEME,
    METHOD_NOT_SUPPORTED, STATUS_BAD_REQUEST, STATUS_INTERNAL_SERVER_ERROR,
};

verus! {

/// What the proxy reads of an incoming request: its method, the scheme, host
/// and port of its URI where it has them, and its header lines in order.
pub struct RequestHead {
    pub method: Vec<u8>,
    pub scheme: Option<Vec<u8>>,
    pub host: Option<String>,
    pub port: Option<u16>,
    pub headers: Vec<Header>,
}

/// Where an incoming request goes.
pub enum Route {
    /// Open a TCP connection to `host:port` and tunnel to it.
    Tunnel { host: String, port: u16 },
    /// Send a GET to the request's URI with these headers, through the
    /// pooled client.
    Forward { headers: Vec<Header> },
    /// Answer at once, contacting nobody.
    Respond(Reply),
}

pub open spec fn get_method() -> Seq<u8> {
    seq!['G' as u8, 'E' as u8, 'T' as u8]
}

pub open spec fn connect_method() -> Seq<u8> {
    seq!['C' as u8, 'O' as u8, 'N' as u8, 'N' as u8, 'E' as u8, 'C' as u8, 'T' as u8]
}

pub open spec fn http_scheme() -> Seq<u8> {
    seq!['h' as u8, 't' as u8, 't' as u8, 'p' as u8]
}

/// A request that asks for the Forward route: a GET whose URI is absolute
/// with the scheme `http`, compared exactly.
pub open spec fn forwardable(req: RequestHead) -> bool {
    &&& req.method@ == get_method()
    &&& req.scheme is Some
    &&& req.scheme->Some_0@ == http_scheme()
}

/// Every header line of the outbound request can be carried.
pub open spec fn outbound_buildable(incoming: Seq<(Seq<u8>, Seq<u8>)>) -> bool {
    forall|i: int|
        0 <= i < outbound_headers_of(incoming).len() ==> header_accepted(
            #[trigger] outbound_headers_of(incoming)[i],
        )
}

/// Whether the route reaches out to another host.
pub open spec fn contacts_outside(r: Route) -> bool {
    !(r is Respond)
}

fn bytes_equal(a: &[u8], b: &[u8]) -> (r: bool)
    ensures
        r == (a@ == b@),
{
    if a.len() != b.len() {
        return false;
    }
    let mut i: usize = 0;
    while i < a.len()
        invariant
            a@.len() == b@.len(),
            i <= a@.len(),
            forall|j: int| 0 <= j < i ==> a@[j] == b@[j],
        decreases a@.len() - i,
    {
        if a[i] != b[i] {
            return false;
        }
        i = i + 1;
    }
    assert(a@ =~= b@);
    true
}

/// Decides the route of an incoming request.
pub fn dispatch(req: RequestHead) -> (r: Route)
    ensures
        req.method@ == connect_method() ==> match (req.host, req.port) {
            (Some(h), Some(p)) => r == Route::Tunnel { host: h, port: p },
            _ => r == Route::Respond(Reply { status: STATUS_BAD_REQUEST, body: INVALID_CONNECT_URI }),
        },
        req.method@ != connect_method() && req.method@ != get_method() ==> r == Route::Respond(
            Reply { status: STATUS_BAD_REQUEST, body: METHOD_NOT_SUPPORTED },
        ),
        req.method@ == get_method() && !forwardable(req) ==> r == Route::Respond(
            Reply { status: STATUS_BAD_REQUEST, body: INVALID_SCHEME },
        ),
        req.method@ != connect_method() && req.method@ != get_method() ==> !contacts_outside(r),
        req.method@ == get_method() && !forwardable(req) ==> !contacts_outside(r),
        req.method@ == connect_method() && (req.host is None || req.port is None)
            ==> !contacts_outside(r),
        forwardable(req) ==> {
            if outbound_buildable(headers_view(req.headers@)) {
                &&& r is Forward
                &&& headers_view(r->Forward_headers@) == outbound_headers_of(
                    headers_view(req.headers@),
                )
            } else {
                r == Route::Respond(
                    Reply { status: STATUS_INTERNAL_SERVER_ERROR, body: BUILD_FAILED },
                )
            }
        },
{
    let get_bytes = bytes_of(['G' as u8, 'E' as u8, 'T' as u8]);
    let connect_bytes = bytes_of(
        ['C' as u8, 'O' as u8, 'N' as u8, 'N' as u8, 'E' as u8, 'C' as u8, 'T' as u8],
    );
    let http_bytes = bytes_of(['h' as u8, 't' as u8, 't' as u8, 'p' as u8]);
    assert(get_bytes@ =~= get_method());
    assert(connect_bytes@ =~= connect_method());
    assert(http_bytes@ =~= http_scheme());
    if bytes_equal(req.method.as_slice(), connect_bytes.as_slice()) {
        return match (req.host, req.port) {
            (Some(host), Some(port)) => Route::Tunnel { host, port },
            _ => Route::Respond(error_response(INVALID_CONNECT_URI, STATUS_BAD_REQUEST)),
        };
    }
    if !bytes_equal(req.method.as_slice(), get_bytes.as_slice()) {
        return Route::Respond(error_response(METHOD_NOT_SUPPORTED, STATUS_BAD_REQUEST));
    }
    let is_http = match &req.scheme {
        Some(s) => bytes_equal(s.as_slice(), http_bytes.as_slice()),
        None => false,
    };
    if !is_http {
        return Route::Respond(error_response(INVALID_SCHEME, STATUS_BAD_REQUEST));
    }
    let headers = outbound_headers(&req.headers);
    if all_accepted(&headers) {
        Route::Forward { headers }
    } else {
        Route::Respond(error_response(BUILD_FAILED, STATUS_INTERNAL_SERVER_ERROR))
    }
}

} // verus!
