pub mod paint;
pub mod renderer;
pub mod term;
