//! Bibliography HTML rendering.
pub mod components;
pub mod context;
pub mod entries;
pub mod pipeline;
