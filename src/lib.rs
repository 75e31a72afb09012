//! Colorimetry, gain-map encoding and container metadata for turning
//! scene-referred linear-light images into display-referred output with an HDR
//! gain map.
//!
//! Colorimetric quantities are exact: chromaticity coordinates are fixed-point
//! integers and derived matrices are exact fractions.

pub mod black_body;
pub mod chromaticities;
pub mod color_spaces;
pub mod colorimetry;
pub mod gain_map;
pub mod pipeline;
pub mod ultra_hdr;
