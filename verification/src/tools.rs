//! The tools: what each of them does to the world on an event.

pub mod brush;
pub mod zoom;

pub use brush::Brush;
pub use zoom::Zoom;
