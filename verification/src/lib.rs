pub mod chain;
pub mod codec;
pub mod enums;
pub mod handler;
pub mod region;
