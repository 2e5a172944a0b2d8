//! A fixed-size worker pool: the bookkeeping and decisions of a fleet of
//! workers that share one first-in first-out queue of jobs.

mod text;
pub mod worker;
pub mod pool;
pub mod laws;
