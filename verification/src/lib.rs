//! A multi-target text-occurrence scanner: given a list of files (each a path
//! together with its decoded lines) and a list of target strings, it reports
//! every line that contains a target under the active case policy, unless the
//! line carries the escape marker, and derives an exit status from whether
//! anything was found.

pub mod discover;
pub mod matching;
pub mod report;
pub mod scan;
pub mod text;
