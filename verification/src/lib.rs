//! A minimal HTTP application server core: request routing with
//! trailing-slash normalization and path-parameter capture, a small
//! placeholder template renderer with HTML escaping, and the fixed
//! handlers (root page, parameterized dashboard, not-found fallback).
//!
//! The server runtime (listening, reading requests, writing bytes) is an
//! external collaborator; this crate holds the pure request-to-response
//! logic and the configuration rules.

pub mod config;
pub mod escape;
pub mod pages;
pub mod router;
pub mod template;
pub mod text;
