//! Sans-I/O core of an image exporter for an inscription index.
//!
//! The exporter walks the index page by page, and for each record of a page
//! whose media type is an image it stores the body in a file named after the
//! record's sequence number, unless a file of that name and of the declared
//! length is already there. This crate decides; its caller talks to the index
//! and to the file system: [`ImgDump::run`] hands out a [`Context`] and the
//! first [`Action`], and [`Context::step`] takes the [`Event`] that answers an
//! action and hands out the next.

pub mod context;
pub mod export;
pub mod idempotence;
pub mod laws;
pub mod machine;
pub mod media;
pub mod naming;
pub mod record;
pub mod refinement;
pub mod stats;
pub mod text;
pub mod world;

pub use context::{new_context, Action, Context, Event, ImgDump};
pub use machine::{Fault, PAGE_SIZE};
pub use media::Media;
pub use record::{Export, Inscription, InscriptionEntry, InscriptionId};
pub use stats::Stats;
