//! Verified core of a community publishing backend with multilingual fan-out.
//!
//! Authors submit posts and events in any supported language; once an item is
//! published it is translated into every enabled language and readers receive
//! content pre-localized to their requested language, falling back to the
//! original while no translation exists.  This crate holds the logic of that
//! pipeline — text-direction classification, translation-gateway result
//! assembly, the fan-out orchestrator with its idempotent upsert semantics,
//! and the read-side projection with fallback and pagination — each function
//! carrying a contract checked by Verus.  Network and database plumbing stays
//! outside the crate and hands plain values in and out.

pub mod dates;
pub mod direction;
pub mod fanout;
pub mod gateway;
pub mod laws;
pub mod model;
pub mod projector;
pub mod seqs;
pub mod sort;
pub mod store;
pub mod submit;
