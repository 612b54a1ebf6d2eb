//! Core of a live shader-development environment: parameter extraction from
//! annotated fragment-shader source, the per-frame data layouts handed to the
//! GPU, frame pacing, debouncing of file-change notifications, and the
//! command state machine that ties a hot-swapped pipeline to its parameters.

pub mod decimal;
pub mod extractor;
pub mod params;
pub mod globals;
pub mod pacer;
pub mod debounce;
pub mod pipeline;
pub mod engine;
