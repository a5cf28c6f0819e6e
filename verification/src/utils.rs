pub mod chatbridge;
pub mod cloud;
pub mod error;
pub mod mc;
pub mod text;
pub mod time;
