//! Webhook ingress for a source-control host: signature checks, routing of
//! events to chat destinations, message formatting and the delivery queue's
//! decisions.

pub mod text;
pub mod signature;
pub mod configure;
pub mod datastructures;
pub mod ingress;
pub mod delivery;
