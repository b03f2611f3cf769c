//! Core logic for mirroring camera viewports of a rendered frame onto
//! separate canvas surfaces.
//!
//! A single full-window RGBA capture is sliced into one sub-image per
//! registered render target and each sub-image is handed out as a blit
//! command for its own surface. The surrounding engine and page glue
//! (entity queries, screenshot requests, DOM access) lives outside this
//! library and feeds it plain values.

pub mod capture;
pub mod compositor;
pub mod provision;
pub mod viewport;
