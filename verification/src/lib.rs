//! Verified core of a DirectDraw wrapper: display-mode bookkeeping, surface
//! pixel operations, configuration parsing, viewport layout and the decisions
//! taken by the window procedure and the renderers.

pub mod config;
pub mod ddraw;
pub mod fps;
pub mod geometry;
pub mod hook;
pub mod log;
pub mod render;
pub mod text;
pub mod window;
