//! Core of a Japanese dictionary suggestion/search engine: query
//! classification and dispatch, per-domain search strategies with their
//! fallback chains, result ranking and merging, a bounded result cache and a
//! character-indexed structure for fast Japanese-script lookups.
//!
//! Network transport, the persistent data store and the morphological
//! analyzer are collaborators outside this crate: the engine states its
//! decisions as explicit steps, and a driver performs the outside work.

pub mod cache;
pub mod completions;
pub mod engine;
pub mod error;
pub mod index;
pub mod jp;
pub mod kana;
pub mod kanji_parts;
pub mod query;
pub mod rank;
pub mod result;
pub mod sentence;
pub mod word;

use vstd::prelude::*;

verus! {

} // verus!
