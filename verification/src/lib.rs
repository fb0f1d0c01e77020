//! Identity management for federated-social-network actors. Each named actor
//! owns an asymmetric key pair, persists it as a JSON record, and is served
//! as two discovery documents: an ActivityPub actor document and a WebFinger
//! document. A process-wide registry maps names to actors, and WebFinger
//! queries resolve `acct:` resources against it.

pub mod error;
pub mod text;
pub mod json;
pub mod keys;
pub mod actor;
pub mod registry;
pub mod store;
pub mod webfinger;
