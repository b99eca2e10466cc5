//! The verified core of the Kakitu miner.

pub mod base16;
pub mod difficulty;
pub mod endian;
pub mod json;
pub mod search;
pub mod session;
pub mod text;
pub mod worker;
