//! Scanning a paginated listing of vulnerability reports for those that were
//! updated on a cutoff day or later.
//!
//! The library decides and parses; it fetches nothing. `scan::Scanner` takes
//! the body of each page it has asked for and says what to report and what
//! to fetch next; `replay::replay` runs a whole scan over saved pages.

pub mod config;
pub mod date;
pub mod error;
pub mod markup;
pub mod number;
pub mod replay;
pub mod report;
pub mod scan;
pub mod text;
