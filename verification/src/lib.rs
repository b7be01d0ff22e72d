//! Locating the commit at which a change joined a branch.
//!
//! A history query lists the commits of a range twice, once along every path
//! and once along the first-parent line. The commit that the reverse scan of
//! the first listing meets first among those of the second is the answer.

pub mod decimal;
mod encoding;
pub mod finder;
pub mod git;
pub mod lines;
pub mod output;
pub mod range;
pub mod session;
