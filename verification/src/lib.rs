//! Identity-bound profile lookup: who the caller is, what the store holds for
//! them, and the public part of it that is handed back.

pub mod error;
pub mod json;
pub mod token;
pub mod claims;
pub mod identity;
pub mod users;
pub mod service;
pub mod response;
