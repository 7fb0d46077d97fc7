//! Terminal gallery core: fitting an image into a region of terminal cells,
//! turning its pixels into a grid of flat-colored cells, and the wrapping
//! selection over a fixed list of named images.
pub mod assets;
pub mod error;
pub mod fit;
pub mod gallery;
pub mod raster;
