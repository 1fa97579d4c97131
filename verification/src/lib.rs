//! # db-operator - core code
//!
//! The decisions of a Kubernetes operator for PostgreSQL databases and the
//! grants on them. Nothing here talks to a cluster or to a server: a pass over
//! a resource asks for one thing at a time and is resumed with the answer.

/// The resources and the passes over them.
pub mod controllers;

/// How the connection details of a server are resolved.
pub mod connection;

/// What can go wrong in a pass.
pub mod error;

/// A map that is keyed by names.
pub mod names;

/// What is taken from outside of this crate, and on which terms.
pub mod outside;

/// Operations on text.
pub mod text;
