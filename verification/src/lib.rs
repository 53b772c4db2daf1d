//! Authorization gate for a biometric recognition service.
//!
//! The library owns the security-critical state machine that mediates every
//! recognition and enrollment request: identity gating, per-identity attempt
//! counting, write-once result caching, enrollment-set membership with a
//! global cap, and the admin-gated control plane. The inference engine and
//! the blob store for model bytes are external collaborators: the library
//! decides whether a request may reach them and how their outcome changes
//! the state, while the host performs the calls themselves.

pub mod identity;
pub mod response;
pub mod table;
pub mod gate;
pub mod laws;
