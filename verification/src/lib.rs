//! Search and browsing of published flake releases: the rules by which a
//! relevance index and a relational store are combined into one answer.

pub mod decimal;
pub mod error;
pub mod flake;
pub mod index;
pub mod json;
pub mod publish;
pub mod rank;
pub mod release;
pub mod score;
pub mod store;
