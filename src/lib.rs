//! Request handling of an HTTP forward proxy that keeps its outbound
//! connections alive and tunnels CONNECT requests.
use vstd::prelude::*;

pub mod dispatch;
pub mod headers;
pub mod reply;
pub mod tunnel;

verus! {

/// Seconds that an idle pooled connection to an origin is kept open.
pub const POOL_IDLE_TIMEOUT_SECS: u64 = 5;

} // verus!
