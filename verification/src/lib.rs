//! Randomly assembles one spaceship description from a catalog of parts.
//!
//! A parts file holds one part per line: whitespace-separated tokens, the
//! last of which is the category name, the rest the part description. The
//! library parses such text into a [`catalog::PartCatalog`], draws one
//! engine at random, takes the first candidate of every other category, and
//! renders the resulting [`ship::Spaceship`] as text.

pub mod catalog;
pub mod error;
pub mod pipeline;
mod rng;
pub mod ship;
pub mod text;
