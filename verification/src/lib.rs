//! Building and deterministic rendering of public API surfaces.
//!
//! A surface is a tree of public declarations (modules, functions, structs,
//! traits). [`builder::build_tree`] folds an ordered list of declaration
//! records into a [`surface::SurfaceTree`], creating intermediate modules as
//! needed, and [`render::render_tree`] emits the tree as indented,
//! doc-commented pseudo-declarations whose text is pinned down exactly by a
//! specification function, so that two runs on equal trees give
//! byte-identical output.

pub mod builder;
pub mod laws;
pub mod path;
pub mod render;
pub mod samples;
pub mod surface;
