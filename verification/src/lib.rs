//! A federated search: one query goes to every registered backend, and what
//! comes back is merged into one page that gives every backend its share,
//! holds no document twice and is ordered by score.
//!
//! Scores are held as the bit patterns of IEEE-754 binary64 numbers and
//! ordered by their rank, see [`score`].

pub mod assistant;
pub mod common;
pub mod local;
pub mod score;
pub mod search;
pub mod server;
