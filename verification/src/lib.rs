//! Extraction of structured game-item records from attribute-bearing markup
//! files, enrichment with localized display names from a translation table,
//! and assembly of the result into tabular rows.

pub mod decode;
pub mod events;
pub mod laws;
pub mod model;
pub mod numbers;
pub mod parse;
pub mod pipeline;
pub mod textutil;
pub mod translation;
pub mod xml;
