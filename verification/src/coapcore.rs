//! CoAP security: access-policy scopes, token time constraints, credential errors and the
//! recognition of requests that the security layer handles itself.

pub mod ace;
pub mod cbor;
pub mod dispatch;
pub mod edhoc;
pub mod error;
pub mod recognition;
pub mod scope;
pub mod seccfg;
pub mod seccontext;
pub mod time;
