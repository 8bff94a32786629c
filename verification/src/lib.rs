//! An in-memory mutation journal: an append-only log of small "command"
//! records that, replayed in order against a piece of application state,
//! reproduce a sequence of edits.
//!
//! Three components, from the leaf up:
//!
//! - [`arena::Arena`]: a growable backing store that hands out stable
//!   handles for stored commands and can be reset in bulk.
//! - [`mutation::Mutstore`]: the journal itself, an ordered sequence of
//!   handles into the arena, applied in append order to a state value.
//! - The replay layer of [`mutation::Mutstore`]: a single optional
//!   checkpoint (mark) scoping a later partial replay to the suffix of the
//!   journal recorded after the mark.

pub mod arena;
pub mod commands;
pub mod mutation;
