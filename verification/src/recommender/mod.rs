pub mod codec;
pub mod encoding;
pub mod engine;
