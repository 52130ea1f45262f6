pub mod spanning;
pub mod alignment_processor;
pub mod borders;
pub mod streaming;
