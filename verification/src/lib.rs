//! Core of a multi-resource CRUD backend: identity and session handling
//! (password hashing, stateless signed session tokens, registration and
//! login), and the uniform repository/service pattern by which categories,
//! posts, comments and users are exposed.
//!
//! Storage and HTTP transport are external collaborators; the repository
//! traits describe their capability set, and the in-memory repositories are
//! verified reference implementations of that contract.

pub mod abstract_trait;
pub mod domain;
pub mod error;
pub mod hashing;
pub mod middleware;
pub mod numfmt;
pub mod repository;
pub mod response;
pub mod service;
pub mod state;
pub mod token;
