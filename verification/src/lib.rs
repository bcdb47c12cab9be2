//! A pull-based reactive data-binding core for a retained UI tree.
//!
//! The crate keeps an ordered set of child entities synchronized with
//! externally owned application state, one tick at a time:
//!
//! - [`observer`] holds the composable, pollable reads with change
//!   detection (`res`, `single`, `map`, `and`, `dedup`).
//! - [`tracked_seq`] holds [`tracked_seq::TrackedSequence`], an ordered
//!   container whose structural edits are logged per consumer.
//! - [`childable`] holds the reconciler that replays those edits (or an
//!   optional value) against a parallel list of child entities with the
//!   minimal amount of spawning and despawning.
//! - [`world`] is the explicit context object standing for the host's
//!   entity/component store.
//! - [`textbox`] holds the pure text-editing rules of the text-box widget.

use vstd::prelude::*;

pub mod childable;
pub mod observer;
pub mod prelude;
pub mod textbox;
pub mod tracked_seq;
pub mod world;

verus! {

/// Marker for content that is built once and never re-evaluated.
pub struct Static;

/// Marker for content that is re-evaluated whenever its source changes.
pub struct Dynamic;

} // verus!
