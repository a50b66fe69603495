pub mod colored;
pub mod wrap;

pub use colored::{RenderOptions, Renderer};
pub use wrap::wrap_plain;
