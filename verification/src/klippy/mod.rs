pub mod client;
pub mod codec;
