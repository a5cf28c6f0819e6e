pub mod bridge;
pub mod interface;
pub mod taurus;
