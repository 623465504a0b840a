//! Splits a sprite sheet image into a regular grid of equally sized cells.
//!
//! The library holds the verified core: the pixel-buffer model, the
//! non-destructive rectangular copy, filename synthesis, and the grid
//! partitioner that steps through the cells. Decoding and encoding of
//! image files is left to the caller, which hands the library plain
//! pixel buffers and receives each cell back as a pixel buffer together
//! with its output filename.

pub mod image;
pub mod names;
pub mod sheet;

pub use image::Image;
pub use sheet::Sprite;
pub use sheet::SpriteSheet;
