//! A verified core for a recursive website link checker.
//!
//! Starting from a base URL, a crawl engine discovers links on internal
//! pages, deduplicates them, classifies each one as internal (fetched and
//! parsed) or external (checked only, never recursed into), and
//! aggregates the per-URL outcomes into one pass/fail answer. Network
//! transfers and HTML tokenization are performed by outside
//! collaborators; everything the engine decides about a URL —
//! normalization, deduplication, classification, depth capping, counting,
//! and the final pass/fail answer — is specified and verified here.

pub mod bytestr;
pub mod engine;
pub mod html;
pub mod laws;
pub mod services;
pub mod site_url;
pub mod visited;
