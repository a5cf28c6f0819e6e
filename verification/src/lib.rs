//! The verified core of a Discord bot: votes with deadlines, the texts that the
//! bot's commands reply with, and the frames and requests that its bridges to
//! Minecraft servers exchange.

pub mod commands;
pub mod utils;
