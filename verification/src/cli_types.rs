//! Plain argument types of the command surface. The binary wraps these in
//! its own parser types; here they are bare data.

use vstd::prelude::*;

verus! {

/// Sort order for listing calls.
#[derive(Clone, Copy, Debug, PartialEq, Eq, Structural)]
pub enum Ordering {
    Ascending,
    Descending,
}

/// Options common to creation calls.
#[derive(Clone, Debug)]
pub struct PostOptions {
    pub idempotency_key: Option<String>,
}

/// Paging and ordering options for listing applications.
#[derive(Clone, Debug)]
pub struct ApplicationListOptions {
    pub iterator: Option<String>,
    pub limit: Option<i32>,
    pub order: Option<Ordering>,
}

/// Paging and ordering options for listing endpoints.
#[derive(Clone, Debug)]
pub struct EndpointListOptions {
    pub iterator: Option<String>,
    pub limit: Option<i32>,
    pub order: Option<Ordering>,
}

/// Paging options for listing message attempts by endpoint.
#[derive(Clone, Debug)]
pub struct MessageAttemptListByEndpointOptions {
    pub iterator: Option<String>,
    pub limit: Option<i32>,
}

/// Paging options for listing message attempts by message.
#[derive(Clone, Debug)]
pub struct MessageAttemptListByMsgOptions {
    pub iterator: Option<String>,
    pub limit: Option<i32>,
}

/// Paging options for listing the endpoints a message was attempted
/// against.
#[derive(Clone, Debug)]
pub struct MessageAttemptListAttemptedDestinationsOptions {
    pub iterator: Option<String>,
    pub limit: Option<i32>,
}

} // verus!
