//! Drawing the swatch into an image.
//!
//! The samples of a swatch come column by column, each column from top to
//! bottom. Drawing makes the colour of each sample and writes it at the
//! sample's place.
//!
//! The image is an `image::RgbaImage`. The proofs do not look inside it. They
//! speak of two things only: its extent, and the colour of each of its
//! pixels by column and row. What the `image` crate does to these is taken
//! on trust, in the two small functions that call it.
use vstd::prelude::*;
use vstd::set_lib::lemma_set_disjoint_lens;
use image::RgbaImage;
use crate::color::Color;
use crate::picker::{blend, rect_valid, sample_color, select_spec, Sample, SwatchError};

verus! {

/// An image of RGBA pixels with 8-bit channels: an `image::RgbaImage`, that
/// is an `image::ImageBuffer` of `Rgba<u8>` in a `Vec<u8>`.
///
/// `ImageBuffer` bounds its pixel type by the `image` crate's trait `Pixel`,
/// and Verus takes no type whose declaration needs a trait it does not know.
/// So the image is held in this struct, whose field Verus does not read.
/// Ordinary code makes a `Canvas` around an image, and reads the image in it,
/// through the field.
#[verifier::external_body]
pub struct Canvas {
    pub image: RgbaImage,
}

/// The width and height of an image in pixels, as `ImageBuffer::dimensions`
/// gives them.
pub uninterp spec fn extent(canvas: Canvas) -> (nat, nat);

/// The pixels of an image: under `(x, y)`, the four channels that
/// `ImageBuffer::get_pixel` finds in column `x` and row `y`.
pub uninterp spec fn pixels(canvas: Canvas) -> Map<(int, int), Color>;

/// `ImageBuffer::dimensions`: hands out the width and height that the image
/// was made with.
#[verifier::external_body]
fn dimensions(canvas: &Canvas) -> (out: (u32, u32))
    ensures
        (out.0 as nat, out.1 as nat) == extent(*canvas),
{
    canvas.image.dimensions()
}

/// `ImageBuffer::get_pixel_mut`, assigned to: within the image's width and
/// height it does not panic, and the pixel in that column and row gets the
/// given channels. No other pixel changes, nor does the image's extent.
#[verifier::external_body]
fn set_pixel(canvas: &mut Canvas, x: u32, y: u32, color: Color)
    requires
        x < extent(*old(canvas)).0,
        y < extent(*old(canvas)).1,
    ensures
        extent(*final(canvas)) == extent(*old(canvas)),
        pixels(*final(canvas)) == pixels(*old(canvas)).insert((x as int, y as int), color),
{
    *canvas.image.get_pixel_mut(x, y) = image::Rgba([color.r, color.g, color.b, color.a]);
}

/// The pixel in column `x` and row `y` belongs to the swatch.
pub open spec fn in_rect(rect: [u32; 4], x: int, y: int) -> bool {
    rect[0] <= x < rect[0] + rect[2] && rect[1] <= y < rect[1] + rect[3]
}

/// The whole swatch lies within an image of the given width and height.
pub open spec fn rect_fits(rect: [u32; 4], extent: (nat, nat)) -> bool {
    rect[0] + rect[2] <= extent.0 && rect[1] + rect[3] <= extent.1
}

/// The places of the swatch's pixels in the image.
pub open spec fn cells(rect: [u32; 4]) -> Set<(int, int)> {
    Set::new(|k: (int, int)| in_rect(rect, k.0, k.1))
}

/// Where among the samples of a swatch the sample of the pixel in column `x`
/// and row `y` stands: the columns follow one another, each from the top.
pub open spec fn place(rect: [u32; 4], x: int, y: int) -> int {
    (x - rect[0]) * rect[3] + (y - rect[1])
}

/// The pixels after the swatch is drawn over them: each pixel of the swatch
/// has the colour of its sample, every other pixel is as before.
pub open spec fn drawn(before: Map<(int, int), Color>, rect: [u32; 4], samples: Seq<Sample>) -> Map<
    (int, int),
    Color,
> {
    Map::new(
        |k: (int, int)| before.dom().contains(k) || in_rect(rect, k.0, k.1),
        |k: (int, int)|
            if in_rect(rect, k.0, k.1) {
                sample_color(samples[place(rect, k.0, k.1)])
            } else {
                before[k]
            },
    )
}

/// The pixels after the swatch's columns before `cx` are drawn in full, and
/// column `cx` down to the row before `cy`.
spec fn drawn_to(
    before: Map<(int, int), Color>,
    rect: [u32; 4],
    samples: Seq<Sample>,
    cx: int,
    cy: int,
) -> Map<(int, int), Color> {
    Map::new(
        |k: (int, int)|
            before.dom().contains(k) || (in_rect(rect, k.0, k.1) && (k.0 < cx || (k.0 == cx && k.1
                < cy))),
        |k: (int, int)|
            if in_rect(rect, k.0, k.1) && (k.0 < cx || (k.0 == cx && k.1 < cy)) {
                sample_color(samples[place(rect, k.0, k.1)])
            } else {
                before[k]
            },
    )
}

/// The places in column `x` from row `top` on, `rows` of them.
spec fn column(x: int, top: int, rows: nat) -> Set<(int, int)> {
    Set::new(|k: (int, int)| k.0 == x && top <= k.1 < top + rows)
}

/// The places in `cols` columns from `left` on and `rows` rows from `top` on.
spec fn block(left: int, top: int, cols: nat, rows: nat) -> Set<(int, int)> {
    Set::new(|k: (int, int)| left <= k.0 < left + cols && top <= k.1 < top + rows)
}

proof fn lemma_column_count(x: int, top: int, rows: nat)
    ensures
        column(x, top, rows).finite(),
        column(x, top, rows).len() == rows,
    decreases rows,
{
    if rows == 0 {
        assert(column(x, top, rows) =~= Set::empty());
    } else {
        let above = (rows - 1) as nat;
        lemma_column_count(x, top, above);
        assert(column(x, top, rows) =~= column(x, top, above).insert((x, top + above)));
    }
}

proof fn lemma_block_count(left: int, top: int, cols: nat, rows: nat)
    ensures
        block(left, top, cols, rows).finite(),
        block(left, top, cols, rows).len() == cols * rows,
    decreases cols,
{
    if cols == 0 {
        assert(block(left, top, cols, rows) =~= Set::empty());
        assert(cols * rows == 0) by (nonlinear_arith)
            requires
                cols == 0,
        ;
    } else {
        let fewer = (cols - 1) as nat;
        let rest = block(left, top, fewer, rows);
        let last = column(left + fewer, top, rows);
        lemma_block_count(left, top, fewer, rows);
        lemma_column_count(left + fewer, top, rows);
        assert(rest.disjoint(last));
        lemma_set_disjoint_lens(rest, last);
        assert(block(left, top, cols, rows) =~= rest + last);
        assert(cols * rows == fewer * rows + rows) by (nonlinear_arith)
            requires
                cols == fewer + 1,
        ;
    }
}

/// A swatch of `width` columns and `height` rows has `width * height`
/// pixels, each at a place of its own.
pub proof fn lemma_cells_count(rect: [u32; 4])
    ensures
        cells(rect).finite(),
        cells(rect).len() == rect[2] * rect[3],
{
    lemma_block_count(rect[0] as int, rect[1] as int, rect[2] as nat, rect[3] as nat);
    assert(cells(rect) =~= block(rect[0] as int, rect[1] as int, rect[2] as nat, rect[3] as nat));
}

/// Each pixel of a swatch has a sample among the `width * height` samples.
pub proof fn lemma_place_range(rect: [u32; 4], x: int, y: int)
    requires
        in_rect(rect, x, y),
    ensures
        0 <= place(rect, x, y) < rect[2] * rect[3],
{
    let dx = x - rect[0];
    let dy = y - rect[1];
    let width = rect[2] as int;
    let height = rect[3] as int;
    assert(0 <= dx * height + dy < width * height) by (nonlinear_arith)
        requires
            0 <= dx < width,
            0 <= dy < height,
    ;
}

/// No two pixels of a swatch share a sample.
pub proof fn lemma_place_unique(rect: [u32; 4], x: int, y: int, u: int, v: int)
    requires
        in_rect(rect, x, y),
        in_rect(rect, u, v),
        place(rect, x, y) == place(rect, u, v),
    ensures
        x == u,
        y == v,
{
    let height = rect[3] as int;
    let a = x - rect[0];
    let b = u - rect[0];
    let c = y - rect[1];
    let d = v - rect[1];
    assert(a == b) by (nonlinear_arith)
        requires
            a * height + c == b * height + d,
            0 <= c < height,
            0 <= d < height,
    ;
    assert(a * height == b * height);
}

/// Drawing and selecting agree: after drawing, each pixel of the swatch
/// holds what `select` answers for the pixel's sample.
pub proof fn lemma_drawn_matches_select(
    before: Map<(int, int), Color>,
    rect: [u32; 4],
    samples: Seq<Sample>,
    x: int,
    y: int,
)
    requires
        in_rect(rect, x, y),
    ensures
        select_spec(rect, samples[place(rect, x, y)]) == Ok::<Color, SwatchError>(
            drawn(before, rect, samples)[(x, y)],
        ),
{
}

/// Refuses a swatch that is empty, or that reaches beyond the image.
pub fn check_fit(image: &Canvas, rect: [u32; 4]) -> (res: Result<(), SwatchError>)
    ensures
        !rect_valid(rect) ==> res == Err::<(), SwatchError>(SwatchError::EmptyRect),
        rect_valid(rect) && !rect_fits(rect, extent(*image)) ==> res == Err::<(), SwatchError>(
            SwatchError::OutsideImage,
        ),
        rect_valid(rect) && rect_fits(rect, extent(*image)) ==> res == Ok::<(), SwatchError>(()),
        res is Ok ==> rect[0] + rect[2] <= u32::MAX && rect[1] + rect[3] <= u32::MAX,
{
    if rect[2] == 0 || rect[3] == 0 {
        return Err(SwatchError::EmptyRect);
    }
    let (width, height) = dimensions(image);
    if rect[0] as u64 + rect[2] as u64 > width as u64 || rect[1] as u64 + rect[3] as u64
        > height as u64 {
        return Err(SwatchError::OutsideImage);
    }
    Ok(())
}

/// Draws the swatch `rect`, given as `[x, y, width, height]`, into the image,
/// from one sample for each of its pixels: column by column, each column from
/// the top.
///
/// An empty swatch, one that reaches beyond the image, and one whose samples
/// are not as many as its pixels, are refused before any pixel is written.
pub fn fill_image(image: &mut Canvas, rect: [u32; 4], samples: &Vec<Sample>) -> (res: Result<
    (),
    SwatchError,
>)
    ensures
        extent(*final(image)) == extent(*old(image)),
        !rect_valid(rect) ==> res == Err::<(), SwatchError>(SwatchError::EmptyRect),
        rect_valid(rect) && !rect_fits(rect, extent(*old(image))) ==> res == Err::<
            (),
            SwatchError,
        >(SwatchError::OutsideImage),
        rect_valid(rect) && rect_fits(rect, extent(*old(image))) && samples@.len() != rect[2]
            * rect[3] ==> res == Err::<(), SwatchError>(SwatchError::SampleCount),
        rect_valid(rect) && rect_fits(rect, extent(*old(image))) && samples@.len() == rect[2]
            * rect[3] ==> res == Ok::<(), SwatchError>(()),
        res is Err ==> pixels(*final(image)) == pixels(*old(image)),
        res is Ok ==> pixels(*final(image)) == drawn(pixels(*old(image)), rect, samples@),
        res is Ok ==> forall|x: int, y: int|
            in_rect(rect, x, y) ==> pixels(*final(image))[(x, y)] == sample_color(
                samples@[place(rect, x, y)],
            ),
        forall|x: int, y: int|
            !in_rect(rect, x, y) ==> pixels(*final(image))[(x, y)] == pixels(*old(image))[(x, y)],
{
    match check_fit(image, rect) {
        Ok(()) => {},
        Err(e) => {
            return Err(e);
        },
    }
    assert(rect[2] * rect[3] <= 0xFFFF_FFFF * 0xFFFF_FFFF) by (nonlinear_arith)
        requires
            0 <= rect[2] <= 0xFFFF_FFFF,
            0 <= rect[3] <= 0xFFFF_FFFF,
    ;
    let count: u64 = rect[2] as u64 * rect[3] as u64;
    let total: usize = samples.len();
    if total as u64 != count {
        return Err(SwatchError::SampleCount);
    }
    let right: u32 = rect[0] + rect[2];
    let bottom: u32 = rect[1] + rect[3];
    let ghost before = pixels(*image);
    let ghost size = extent(*image);
    assert(pixels(*image) =~= drawn_to(before, rect, samples@, rect[0] as int, rect[1] as int));
    let mut next: usize = 0;
    let mut cx: u32 = rect[0];
    while cx < right
        invariant
            rect_valid(rect),
            right == rect[0] + rect[2],
            bottom == rect[1] + rect[3],
            right <= size.0,
            bottom <= size.1,
            rect[0] <= cx <= right,
            samples@.len() == total == rect[2] * rect[3],
            next == place(rect, cx as int, rect[1] as int),
            extent(*image) == size,
            pixels(*image) =~= drawn_to(before, rect, samples@, cx as int, rect[1] as int),
            forall|x: int, y: int| !in_rect(rect, x, y) ==> pixels(*image)[(x, y)] == before[(x, y)],
        decreases right - cx,
    {
        let mut cy: u32 = rect[1];
        while cy < bottom
            invariant
                rect_valid(rect),
                right == rect[0] + rect[2],
                bottom == rect[1] + rect[3],
                right <= size.0,
                bottom <= size.1,
                rect[0] <= cx < right,
                rect[1] <= cy <= bottom,
                samples@.len() == total == rect[2] * rect[3],
                next == place(rect, cx as int, cy as int),
                extent(*image) == size,
                pixels(*image) =~= drawn_to(before, rect, samples@, cx as int, cy as int),
                forall|x: int, y: int|
                    !in_rect(rect, x, y) ==> pixels(*image)[(x, y)] == before[(x, y)],
            decreases bottom - cy,
        {
            proof {
                lemma_place_range(rect, cx as int, cy as int);
            }
            let color = blend(samples[next]);
            set_pixel(image, cx, cy, color);
            cy = cy + 1;
            next = next + 1;
        }
        assert(place(rect, cx as int, bottom as int) == place(rect, cx + 1, rect[1] as int))
            by (nonlinear_arith)
            requires
                bottom == rect[1] + rect[3],
        ;
        assert(drawn_to(before, rect, samples@, cx as int, bottom as int) =~= drawn_to(
            before,
            rect,
            samples@,
            cx + 1,
            rect[1] as int,
        ));
        cx = cx + 1;
    }
    assert(drawn_to(before, rect, samples@, right as int, rect[1] as int) =~= drawn(
        before,
        rect,
        samples@,
    ));
    Ok(())
}

} // verus!
