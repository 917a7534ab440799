//! In-memory image transformation pipeline: decode a compressed raster
//! image, apply a pixel-space transform (axis-aligned crop, four-corner
//! perspective crop, filtered resize, bounded-fit optimization), and
//! re-encode into PNG, JPEG or WebP with quality-derived presets.
//!
//! The pixel-space logic (cropping, fixed-point bilinear sampling and
//! warping, opacity detection, channel quantization, preset selection,
//! scale computation) is verified; the compressed-format codecs of the
//! `image` crate are called through a small set of trusted wrappers.
pub mod codec;
pub mod encode;
pub mod error;
pub mod grid;
pub mod names;
pub mod ops;
pub mod sample;

pub use error::ImgError;
pub use grid::PixelGrid;
pub use ops::crop_image;
pub use ops::perspective_crop;
pub use ops::resize_image;
pub use ops::compress_image;
pub use ops::optimize_image;
