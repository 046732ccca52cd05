//! Colours of a hue/saturation picker swatch.
//!
//! A swatch is an axis-aligned rectangle of pixels. Going right, the hue runs
//! once round the colour wheel; going down, the saturation grows from zero
//! (white) towards one half. The value is always at its maximum.
//!
//! Hue and saturation are fractions. What they come to at a pixel is measured
//! in floating point, outside this library, and handed over as a `Sample` of
//! whole numbers. What the library does with samples is exact: it refuses
//! swatches that cannot be drawn, picks the channels by the sector of the
//! wheel, and writes the colours into the image.
//!
//! [`select`] gives the colour of one pixel, [`fill_image`] draws a whole
//! swatch into an image.
pub mod canvas;
pub mod color;
pub mod hue;
pub mod picker;

pub use canvas::{check_fit, fill_image, Canvas};
pub use color::Color;
pub use picker::{blend, check_rect, select, Sample, SwatchError};
