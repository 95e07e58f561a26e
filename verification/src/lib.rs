//! Organizes a folder of manga volume archives into fixed-size numbered
//! batches: files are renamed to a canonical scheme, and each batch folder is
//! stamped with a numbered cover image derived from a single series cover.
//!
//! The crate holds the decision logic of that pipeline, verified with Verus:
//! filename cleaning and collision-free naming, batch planning, the cascading
//! cover-source resolution protocol, the glyph-fit search, and the iterative
//! ink-centering correction.  Filesystem, network and rasterizer calls are
//! driven by a thin host layer which feeds their outcomes back in as events.

pub mod text;
pub mod clean;
pub mod names;
pub mod natural;
pub mod render;
pub mod resolve;
pub mod plan;
