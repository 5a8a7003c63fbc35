pub mod container;
pub mod parse;
pub mod pipeline;
