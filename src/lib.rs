//! Fetches the latest full-disk satellite image as a grid of tiles and
//! composes the tiles into one canvas.
//!
//! The library holds the verified logic: parsing of the configuration values,
//! the timestamp and URL formats, the tile grid, the compositor and the
//! decisions of a run. Network, file system and logging stay with the caller.

pub mod canvas;
pub mod compose;
pub mod error;
pub mod grid;
pub mod margins;
pub mod output_format;
pub mod output_level;
pub mod pipeline;
pub mod text;
pub mod timestamp;
pub mod wallpaper;
