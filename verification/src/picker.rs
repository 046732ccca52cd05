//! The colour of one pixel of the swatch.
//!
//! A swatch is given as `[x, y, width, height]`: the column and row of its
//! top left pixel, and its extent. The column of a pixel decides its hue, the
//! row its saturation. Both are fractions, and what they come to at a pixel
//! is measured in floating point, outside this library. The library takes the
//! measure as a [`Sample`] of whole numbers and makes the colour from it.
use vstd::prelude::*;
use crate::color::Color;
use crate::hue::{sector, sector_of};

verus! {

/// Why no colour was made, or no swatch was drawn.
#[derive(Clone, Copy, Debug, PartialEq, Eq, Structural)]
pub enum SwatchError {
    /// The swatch has no columns or no rows.
    EmptyRect,
    /// The swatch does not lie within the image.
    OutsideImage,
    /// There is not one sample for each pixel of the swatch.
    SampleCount,
}

/// Hue and saturation as measured at one pixel.
///
/// With `hue` the pixel's hue in degrees, `f` the fraction of `hue / 60` and
/// `s` its saturation, the fields hold whole numbers: each level is the
/// integer part of its product, held to the range of a channel.
#[derive(Clone, Copy, Debug, PartialEq, Eq, Structural)]
pub struct Sample {
    /// The whole part of `hue / 60`: how many sectors the hue has turned.
    pub turns: i64,
    /// `255 * (1 - s)`: the channel that the saturation acts on in full.
    pub p: u8,
    /// `255 * (1 - f * s)`: the channel that falls across the sector.
    pub q: u8,
    /// `255 * (1 - (1 - f) * s)`: the channel that rises across the sector.
    pub t: u8,
}

/// A swatch has at least one column and one row.
pub open spec fn rect_valid(rect: [u32; 4]) -> bool {
    rect[2] > 0 && rect[3] > 0
}

/// The colour of the wheel in the given sector, at full value, from the
/// three levels of a sample.
pub open spec fn mix(sector: int, p: u8, q: u8, t: u8) -> Color {
    if sector == 0 {
        Color::opaque(p, t, 255)
    } else if sector == 1 {
        Color::opaque(p, 255, q)
    } else if sector == 2 {
        Color::opaque(t, 255, p)
    } else if sector == 3 {
        Color::opaque(255, q, p)
    } else if sector == 4 {
        Color::opaque(255, p, t)
    } else {
        Color::opaque(q, p, 255)
    }
}

/// The colour that a sample stands for.
pub open spec fn sample_color(sample: Sample) -> Color {
    mix(sector(sample.turns as int), sample.p, sample.q, sample.t)
}

/// What `select` answers: the colour of the sample, or why there is none.
pub open spec fn select_spec(rect: [u32; 4], sample: Sample) -> Result<Color, SwatchError> {
    if rect_valid(rect) {
        Ok(sample_color(sample))
    } else {
        Err(SwatchError::EmptyRect)
    }
}

/// Every colour of a swatch is fully opaque, and one of its channels is at
/// the maximum.
pub proof fn lemma_opaque(sample: Sample)
    ensures
        sample_color(sample).a == 255,
        sample_color(sample).r == 255 || sample_color(sample).g == 255 || sample_color(sample).b
            == 255,
{
}

/// Without saturation all three levels are at the maximum, and the colour is
/// white whatever the hue.
pub proof fn lemma_unsaturated_is_white(turns: i64)
    ensures
        sample_color(Sample { turns, p: 255, q: 255, t: 255 }) == Color::white(),
{
}

/// Where a sector begins, the falling channel is still at the maximum and
/// the rising channel still as low as `p`. There the colours of two
/// neighbouring sectors meet: a sector ends on the colour that the next
/// begins with.
pub proof fn lemma_sectors_meet(turns: i64, p: u8)
    requires
        turns < i64::MAX,
    ensures
        sample_color(Sample { turns, p, q: p, t: 255 }) == sample_color(
            Sample { turns: (turns + 1) as i64, p, q: 255, t: p },
        ),
{
}

/// The same swatch and the same sample always give the same answer: whatever
/// two calls of `select` on the same arguments return is equal.
pub proof fn lemma_select_repeats(
    rect: [u32; 4],
    sample: Sample,
    first: Result<Color, SwatchError>,
    second: Result<Color, SwatchError>,
)
    requires
        first == select_spec(rect, sample),
        second == select_spec(rect, sample),
    ensures
        first == second,
{
}

/// Makes the colour that a sample stands for.
pub fn blend(sample: Sample) -> (c: Color)
    ensures
        c == sample_color(sample),
        c.a == 255,
{
    let Sample { turns, p, q, t } = sample;
    match sector_of(turns) {
        0 => Color::opaque(p, t, 255),
        1 => Color::opaque(p, 255, q),
        2 => Color::opaque(t, 255, p),
        3 => Color::opaque(255, q, p),
        4 => Color::opaque(255, p, t),
        _ => Color::opaque(q, p, 255),
    }
}

/// Refuses a swatch without columns or rows.
pub fn check_rect(rect: [u32; 4]) -> (res: Result<(), SwatchError>)
    ensures
        rect_valid(rect) ==> res == Ok::<(), SwatchError>(()),
        !rect_valid(rect) ==> res == Err::<(), SwatchError>(SwatchError::EmptyRect),
{
    if rect[2] == 0 || rect[3] == 0 {
        Err(SwatchError::EmptyRect)
    } else {
        Ok(())
    }
}

/// Selects the colour of a pixel in the swatch `rect`, given as
/// `[x, y, width, height]`, from the sample measured at that pixel.
///
/// A swatch without columns or rows has no colours: it is refused, whatever
/// the sample holds.
pub fn select(rect: [u32; 4], sample: Sample) -> (res: Result<Color, SwatchError>)
    ensures
        res == select_spec(rect, sample),
        res is Err <==> rect[2] == 0 || rect[3] == 0,
        res matches Ok(c) ==> c.a == 255,
        rect_valid(rect) && sample.p == 255 && sample.q == 255 && sample.t == 255 ==> res == Ok::<
            Color,
            SwatchError,
        >(Color::white()),
{
    match check_rect(rect) {
        Ok(()) => Ok(blend(sample)),
        Err(e) => Err(e),
    }
}

} // verus!
