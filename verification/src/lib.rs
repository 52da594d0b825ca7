//! Account authentication and the life cycle of the tokens that authorise
//! requests: credential verification, issue of a short-lived signed access
//! token together with an opaque refresh token, rotation of the refresh
//! token on every use, revocation, and validation of the access token that a
//! request presents.
//!
//! The handlers in [`auth`] work on [`web_server::AppState`], which holds
//! the two tables of [`db`] in memory. Every decision they take is a function
//! of its own, so that a service with durable storage can run its statements
//! itself and leave the deciding to the same code. [`rotation`] states what
//! the handlers guarantee over several requests, and [`primitives`] is the
//! one place where something is taken on trust.

pub mod auth;
pub mod common;
pub mod config;
pub mod contact;
pub mod db;
pub mod decimal;
pub mod error;
pub mod extractors;
pub mod primitives;
pub mod rotation;
mod table;
pub mod type_export;
pub mod utils;
pub mod web_server;
