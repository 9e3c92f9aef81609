//! Authentication and role-based access control for an SMS-gateway
//! backend: a token service that mints and verifies signed, time-bounded
//! bearer tokens carrying a principal's role and permission snapshot, the
//! guard that authenticates inbound requests from a raw header, the
//! many-to-many association engine with replace-all update semantics, the
//! credential verifier, and the classifier that maps persistence failures
//! into a closed error taxonomy.
//!
//! Everything here is verified; the binary around it (HTTP routing and
//! the relational store) lives outside the library and hands in plain
//! values.

pub mod association;
pub mod auth;
pub mod codec;
pub mod entity;
pub mod error;
pub mod handler;
pub mod jwt;
pub mod model;
pub mod statement;
pub mod text;
pub mod util;

use vstd::prelude::*;

verus! {

/// Process-wide signing configuration for the token service: the shared
/// signing secret and the token lifetime in minutes.  Constructed once at
/// startup and passed by reference; never mutated.
pub struct JwtConfig {
    pub secret: String,
    pub expires_in: i64,
}

} // verus!
