//! Records exchanged with the remote services, beside the polled collections.
use vstd::prelude::*;

verus! {

/// The body of a request that creates or updates a node on the remote data
/// source; `id` is left out when the source is to assign it.
pub struct NodeReqObj {
    pub id: Option<String>,
    pub project: String,
}

/// The body of a request that creates or updates an edge on the remote data
/// source; `id` is left out when the source is to assign it.
pub struct EdgeReqObj {
    pub id: Option<String>,
    pub project: String,
    pub source: String,
    pub target: String,
}

/// Where a remote service listens.
pub struct NapkinService {
    pub host: String,
    pub port: String,
}

/// One message of a chat with the assistant service.
pub struct ChatHistory {
    /// Tells apart several chats.
    pub instance: u32,
    /// Who wrote the message.
    pub user: String,
    pub message: String,
    /// The model that answered, if any.
    pub model: Option<String>,
    pub timestamp: String,
}

} // verus!
