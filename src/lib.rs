//! Cheese-race harness: garbage ("cheese") rows, the piece supply, the state
//! machine of one trial against an outside move solver, and the statistics of
//! an exam made of several trials.

pub mod exam;
pub mod garbage;
pub mod piece;
pub mod trial;
