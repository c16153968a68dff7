//! Pure computations behind a small set of festive puzzle endpoints:
//! an exclusive-or cube over sledge numbers, a reindeer contest with a
//! stable first-maximum rule, and an overlap-aware scanner for elves
//! and shelves in free text.

pub mod cube;
pub mod elves;
pub mod error;
pub mod reindeer;
pub mod text;
