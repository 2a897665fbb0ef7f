pub mod args;
pub mod float_text;
pub mod gradient;
pub mod render;
pub mod text;
