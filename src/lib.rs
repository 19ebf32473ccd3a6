//! Request dispatch core of a small backend-for-frontend service: a registry
//! of dynamically configured routes, a bounded request log, and the decisions
//! taken for a request that no fixed endpoint serves.
use vstd::prelude::*;

pub mod registry;
pub mod request_log;
pub mod dispatch;
pub mod forward;

use crate::registry::RouteRegistry;
use crate::request_log::LogBuffer;

pub use crate::dispatch::{HttpReply, dynamic_route_handler, spa_index};
pub use crate::registry::RouteConfig;
pub use crate::request_log::{RequestLog, log_request};

verus! {

/// The shared state of the service: the route registry and the request log.
/// The two are independent; a server guards each on its own.
pub struct AppState {
    pub routes: RouteRegistry,
    pub logs: LogBuffer,
}

impl AppState {
    /// The log respects its capacity.
    pub open spec fn wf(&self) -> bool {
        self.logs.wf()
    }

    /// A state with no routes and an empty log.
    pub fn new() -> (r: AppState)
        ensures
            r.wf(),
            r.routes@ == Seq::<RouteConfig>::empty(),
            r.logs@ == Seq::<RequestLog>::empty(),
    {
        AppState { routes: RouteRegistry::new(), logs: LogBuffer::new() }
    }
}

} // verus!
