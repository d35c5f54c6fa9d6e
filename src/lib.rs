//! Extraction of competition data (competitions, regions, departments,
//! matches and rankings) from the result pages of a volleyball federation.
//!
//! The pages are fetched by the caller; this crate parses the markup,
//! runs CSS selector queries over it and decodes the results into typed
//! entities.
pub mod backend;
pub mod constant;
pub mod entity;
pub mod error;
pub mod parse;
pub mod query;
pub mod scrap;
pub mod text;
