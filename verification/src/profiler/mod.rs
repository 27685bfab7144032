pub mod metadata;
pub mod footer;
pub mod sample;
pub mod stats;
pub mod distinct;
