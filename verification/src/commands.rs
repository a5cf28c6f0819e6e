pub mod general;
pub mod mallet;
pub mod vote;
