//! A boundary layer around a sequence-tagging and dependency-parsing model.
//!
//! The model itself is an external capability; this crate verifies the three
//! subsystems that sit at the boundary:
//!
//! * [`registry`]: an instance registry handing out opaque, generation-tagged
//!   handles to loaded annotators, with double-free and stale-handle detection;
//! * [`sentences`]: a bidirectional codec between the wire representation of a
//!   sentence collection and the in-memory sentence graph, which round-trips
//!   dependency structure exactly;
//! * [`annotator`]: a length-aware batching scheduler that feeds the external
//!   model and returns results in the original input order.
//!
//! [`error`] is the closed taxonomy of failure categories carried across the
//! boundary as stable numeric codes instead of unwinding.

pub mod annotator;
pub mod error;
pub mod registry;
pub mod sentences;
