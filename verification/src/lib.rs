//! Fan-out of one JSON-RPC request to a configured set of endpoints.
//!
//! The crate holds the decisions of a multi-homed RPC client: which addresses make
//! usable endpoints, in which order a collection keeps them, which calls a request
//! is dispatched to, and how the outcomes that come back in any order are put into
//! the order of the endpoints. It performs no network I/O: the caller drives the
//! transport and reports each outcome to the state machines defined here.
//!
//! - [`address`] resolves an address to the URL of a usable target.
//! - [`endpoints`] holds the endpoint, the ordered collection and its builder.
//! - [`broadcast`] is the call that goes to every endpoint of a collection.
//! - [`direct`] is the call that goes to a single target.
//! - [`rpc`] names the operations and gives each the call that carries it.

pub mod address;
pub mod broadcast;
pub mod direct;
pub mod endpoints;
pub mod rpc;

pub use address::InvalidEndpointError;
pub use broadcast::{BroadcastableCall, CallError, Dispatch};
pub use direct::DirectCall;
pub use endpoints::{Endpoint, EndpointSpec, Endpoints, EndpointsBuilder};
pub use rpc::Operation;
