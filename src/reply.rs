//! Replies that the proxy produces itself, without the origin.
use vstd::prelude::*;

verus! {

pub const STATUS_OK: u16 = 200;

pub const STATUS_BAD_REQUEST: u16 = 400;

pub const STATUS_INTERNAL_SERVER_ERROR: u16 = 500;

pub const STATUS_BAD_GATEWAY: u16 = 502;

pub const INVALID_CONNECT_URI: &'static str = "Invalid URI for CONNECT request";

pub const CONNECTION_FAILED: &'static str = "Connection to target failed";

pub const METHOD_NOT_SUPPORTED: &'static str = "Method not supported (keepalive-proxy)";

pub const INVALID_SCHEME: &'static str = "Invalid URI scheme or not an absolute URI (keepalive-proxy)";

pub const BUILD_FAILED: &'static str = "Error building proxy request";

/// A status code with a short text body.
#[derive(Clone, Copy, Debug)]
pub struct Reply {
    pub status: u16,
    pub body: &'static str,
}

/// The reply that carries `error` as its body, with status `code`.
pub fn error_response(error: &'static str, code: u16) -> (r: Reply)
    ensures
        r == (Reply { status: code, body: error }),
{
    Reply { status: code, body: error }
}

/// The reply that opens a tunnel: 200 with an empty body.
pub fn tunnel_ready() -> (r: Reply)
    ensures
        r == (Reply { status: STATUS_OK, body: "" }),
{
    Reply { status: STATUS_OK, body: "" }
}

} // verus!
