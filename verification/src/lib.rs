//! Engine for scanning a directory of MP4 files and concatenating a chosen
//! list of them with an external encoder.
//!
//! The library holds the rules: text formats, the scan and merge state
//! machines, deletion bookkeeping and the engine's admission rule. It
//! performs no input or output itself; the runtime around it carries out the
//! commands it issues and reports back what happened.
//!
//! Every function is verified against its contract, with two exceptions
//! that are taken on trust and say so: the search with a regular
//! expression in [`probe`], and `String::push` in [`text`].
//!
//! Conventions:
//! - Paths and names are text. The runtime leaves out what is not.
//! - Clock values are counted in hundredths of a second, progress of a
//!   merge in hundredths of a percent, both rounded down where a quotient
//!   is taken. Floating point is the runtime's business.
//! - Times of modification are seconds since the Unix epoch.
//! - A type whose name ends in `View` or `Model` is the mathematical
//!   value that the contracts of an executable type speak of.

pub mod config;
pub mod delete;
pub mod duration;
pub mod engine;
pub mod format_size;
pub mod listing;
pub mod media;
pub mod merge;
pub mod path_set;
pub mod probe;
pub mod scan;
pub mod script;
pub mod text;
