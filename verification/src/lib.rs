//! Verified egress policy for actors.
//!
//! `actor` decides who may open a tunnel, and `egress` what becomes of each request through it. Both
//! work in steps between which the caller talks to the control plane and to credential providers.

pub mod text;
pub mod error;
pub mod network;
pub mod policy;
pub mod request;
pub mod headers;
pub mod credential;
pub mod cache;
pub mod certificate;
pub mod actor;
pub mod egress;
