use hue_saturation::canvas::{check_fit, fill_image, Canvas};
use hue_saturation::color::Color;
use hue_saturation::picker::{select, Sample, SwatchError};
use image::{Rgba, RgbaImage};

const MARK: Rgba<u8> = Rgba([1, 2, 3, 4]);

fn marked(width: u32, height: u32) -> Canvas {
    Canvas { image: RgbaImage::from_pixel(width, height, MARK) }
}

fn at(canvas: &Canvas, x: u32, y: u32) -> Color {
    let Rgba([r, g, b, a]) = *canvas.image.get_pixel(x, y);
    Color { r, g, b, a }
}

/// Measures hue and saturation at a pixel, in double precision.
fn measure(rect: [u32; 4], x: u32, y: u32) -> Sample {
    let fx = (x as f64 - rect[0] as f64) / rect[2] as f64;
    let hue = fx * 360.0;
    let saturation = (y as f64 - rect[1] as f64) / (2.0 * rect[3] as f64);
    let sixths = hue / 60.0;
    let whole = sixths.floor();
    let f = sixths - whole;
    Sample {
        turns: whole as i64,
        p: (255.0 * (1.0 - saturation)) as u8,
        q: (255.0 * (1.0 - f * saturation)) as u8,
        t: (255.0 * (1.0 - (1.0 - f) * saturation)) as u8,
    }
}

/// The samples of a swatch: column by column, each from the top.
fn measure_all(rect: [u32; 4]) -> Vec<Sample> {
    let mut samples = Vec::new();
    for x in rect[0]..rect[0] + rect[2] {
        for y in rect[1]..rect[1] + rect[3] {
            samples.push(measure(rect, x, y));
        }
    }
    samples
}

fn fill(canvas: &mut Canvas, rect: [u32; 4]) -> Result<(), SwatchError> {
    fill_image(canvas, rect, &measure_all(rect))
}

#[test]
fn every_pixel_of_the_swatch_gets_its_colour() {
    let rect = [2, 1, 6, 4];
    let mut canvas = marked(12, 8);
    assert_eq!(fill(&mut canvas, rect), Ok(()));
    for x in 2..8 {
        for y in 1..5 {
            assert_eq!(Ok(at(&canvas, x, y)), select(rect, measure(rect, x, y)), "at {x}, {y}");
        }
    }
}

#[test]
fn samples_go_down_the_columns() {
    let rect = [1, 1, 2, 3];
    let samples: Vec<Sample> =
        (0..6).map(|i| Sample { turns: 0, p: 10 * i, q: 0, t: 100 + i }).collect();
    let mut canvas = marked(4, 5);
    assert_eq!(fill_image(&mut canvas, rect, &samples), Ok(()));
    assert_eq!(*canvas.image.get_pixel(1, 1), Rgba([0, 100, 255, 255]));
    assert_eq!(*canvas.image.get_pixel(1, 2), Rgba([10, 101, 255, 255]));
    assert_eq!(*canvas.image.get_pixel(1, 3), Rgba([20, 102, 255, 255]));
    assert_eq!(*canvas.image.get_pixel(2, 1), Rgba([30, 103, 255, 255]));
    assert_eq!(*canvas.image.get_pixel(2, 2), Rgba([40, 104, 255, 255]));
    assert_eq!(*canvas.image.get_pixel(2, 3), Rgba([50, 105, 255, 255]));
}

#[test]
fn pixels_outside_the_swatch_are_left_alone() {
    let rect = [2, 1, 6, 4];
    let mut canvas = marked(12, 8);
    assert_eq!(fill(&mut canvas, rect), Ok(()));
    for x in 0..12 {
        for y in 0..8 {
            let inside = (2..8).contains(&x) && (1..5).contains(&y);
            if !inside {
                assert_eq!(*canvas.image.get_pixel(x, y), MARK, "at {x}, {y}");
            }
        }
    }
}

#[test]
fn pixels_beside_the_swatch_are_left_alone() {
    let mut canvas = Canvas { image: RgbaImage::new(8, 3) };
    assert_eq!(fill(&mut canvas, [2, 1, 6, 2]), Ok(()));
    assert_eq!(*canvas.image.get_pixel(1, 2), Rgba([0, 0, 0, 0]));
    assert_eq!(*canvas.image.get_pixel(2, 0), Rgba([0, 0, 0, 0]));
    assert_eq!(*canvas.image.get_pixel(2, 1), Rgba([255, 255, 255, 255]));
}

#[test]
fn what_was_inside_the_swatch_before_does_not_count() {
    let rect = [2, 1, 6, 4];
    let mut first = marked(12, 8);
    let mut second = marked(12, 8);
    for x in 2..8 {
        for y in 1..5 {
            second.image.put_pixel(x, y, Rgba([x as u8, y as u8, 77, 9]));
        }
    }
    assert_eq!(fill(&mut first, rect), Ok(()));
    assert_eq!(fill(&mut second, rect), Ok(()));
    assert_eq!(first.image, second.image);
}

#[test]
fn as_many_pixels_are_written_as_the_swatch_has() {
    // No colour of a swatch has the mark's alpha, so a written pixel shows.
    for rect in [[2, 1, 6, 4], [0, 0, 12, 8], [11, 7, 1, 1], [0, 3, 12, 1], [5, 0, 1, 8]] {
        let mut canvas = marked(12, 8);
        assert_eq!(fill(&mut canvas, rect), Ok(()));
        let written = canvas.image.pixels().filter(|p| **p != MARK).count();
        assert_eq!(written as u32, rect[2] * rect[3]);
    }
}

#[test]
fn filled_swatch_has_known_colours() {
    let mut canvas = marked(400, 120);
    assert_eq!(fill(&mut canvas, [0, 0, 360, 100]), Ok(()));
    assert_eq!(*canvas.image.get_pixel(0, 0), Rgba([255, 255, 255, 255]));
    assert_eq!(*canvas.image.get_pixel(0, 99), Rgba([128, 128, 255, 255]));
    assert_eq!(*canvas.image.get_pixel(85, 32), Rgba([214, 255, 238, 255]));
    assert_eq!(*canvas.image.get_pixel(180, 99), Rgba([255, 255, 128, 255]));
    assert_eq!(*canvas.image.get_pixel(359, 99), Rgba([130, 128, 255, 255]));
    assert_eq!(*canvas.image.get_pixel(360, 99), MARK);
    assert_eq!(*canvas.image.get_pixel(0, 100), MARK);
}

#[test]
fn narrow_swatch_has_the_levels_of_double_precision() {
    let mut canvas = marked(1, 255);
    assert_eq!(fill(&mut canvas, [0, 0, 1, 255]), Ok(()));
    assert_eq!(*canvas.image.get_pixel(0, 150), Rgba([179, 179, 255, 255]));
    assert_eq!(*canvas.image.get_pixel(0, 0), Rgba([255, 255, 255, 255]));
}

#[test]
fn filling_keeps_the_extent() {
    let mut canvas = marked(12, 8);
    assert_eq!(fill(&mut canvas, [0, 0, 12, 8]), Ok(()));
    assert_eq!(canvas.image.dimensions(), (12, 8));
    assert_eq!(canvas.image.as_raw().len(), 12 * 8 * 4);
}

#[test]
fn top_row_of_a_filled_swatch_is_white() {
    let mut canvas = marked(40, 10);
    assert_eq!(fill(&mut canvas, [3, 2, 36, 8]), Ok(()));
    for x in 3..39 {
        assert_eq!(*canvas.image.get_pixel(x, 2), Rgba([255, 255, 255, 255]));
    }
}

#[test]
fn empty_swatch_is_not_drawn() {
    for rect in [[0, 0, 0, 4], [0, 0, 4, 0], [0, 0, 0, 0], [100, 100, 0, 1]] {
        let mut canvas = marked(12, 8);
        assert_eq!(fill_image(&mut canvas, rect, &Vec::new()), Err(SwatchError::EmptyRect));
        assert_eq!(check_fit(&canvas, rect), Err(SwatchError::EmptyRect));
        assert!(canvas.image.pixels().all(|p| *p == MARK));
    }
}

#[test]
fn swatch_beyond_the_image_is_not_drawn() {
    let sample = Sample { turns: 0, p: 0, q: 0, t: 0 };
    for rect in [
        [0, 0, 13, 8],
        [0, 0, 12, 9],
        [1, 0, 12, 8],
        [0, 1, 12, 8],
        [12, 0, 1, 1],
        [0, 8, 1, 1],
        [u32::MAX, 0, 1, 1],
        [u32::MAX, u32::MAX, u32::MAX, u32::MAX],
        [4, 4, u32::MAX, 1],
    ] {
        let mut canvas = marked(12, 8);
        assert_eq!(fill_image(&mut canvas, rect, &vec![sample]), Err(SwatchError::OutsideImage));
        assert_eq!(check_fit(&canvas, rect), Err(SwatchError::OutsideImage));
        assert!(canvas.image.pixels().all(|p| *p == MARK));
    }
}

#[test]
fn swatch_without_a_sample_for_each_pixel_is_not_drawn() {
    let rect = [2, 1, 6, 4];
    let sample = Sample { turns: 0, p: 0, q: 0, t: 0 };
    for count in [0, 1, 23, 25, 48] {
        let mut canvas = marked(12, 8);
        let samples = vec![sample; count];
        assert_eq!(fill_image(&mut canvas, rect, &samples), Err(SwatchError::SampleCount));
        assert!(canvas.image.pixels().all(|p| *p == MARK));
    }
    let mut canvas = marked(12, 8);
    assert_eq!(fill_image(&mut canvas, rect, &vec![sample; 24]), Ok(()));
}

#[test]
fn refusals_come_in_order() {
    let mut canvas = marked(12, 8);
    assert_eq!(fill_image(&mut canvas, [50, 50, 0, 1], &Vec::new()), Err(SwatchError::EmptyRect));
    assert_eq!(
        fill_image(&mut canvas, [50, 50, 1, 1], &Vec::new()),
        Err(SwatchError::OutsideImage)
    );
    assert_eq!(fill_image(&mut canvas, [5, 5, 1, 1], &Vec::new()), Err(SwatchError::SampleCount));
}

#[test]
fn check_fit_takes_what_lies_within() {
    let canvas = marked(12, 8);
    assert_eq!(check_fit(&canvas, [0, 0, 12, 8]), Ok(()));
    assert_eq!(check_fit(&canvas, [11, 7, 1, 1]), Ok(()));
    assert_eq!(check_fit(&canvas, [2, 1, 6, 4]), Ok(()));
}

#[test]
fn image_without_pixels_takes_no_swatch() {
    let mut canvas = Canvas { image: RgbaImage::new(0, 0) };
    assert_eq!(fill(&mut canvas, [0, 0, 1, 1]), Err(SwatchError::OutsideImage));
    assert_eq!(fill(&mut canvas, [0, 0, 0, 0]), Err(SwatchError::EmptyRect));
}

#[test]
fn swatch_may_touch_the_far_corner() {
    let mut canvas = marked(12, 8);
    assert_eq!(fill(&mut canvas, [11, 7, 1, 1]), Ok(()));
    assert_eq!(*canvas.image.get_pixel(11, 7), Rgba([255, 255, 255, 255]));
    assert_eq!(*canvas.image.get_pixel(10, 7), MARK);
    assert_eq!(*canvas.image.get_pixel(11, 6), MARK);
}

#[test]
fn filling_twice_changes_nothing_more() {
    let rect = [1, 1, 10, 6];
    let mut canvas = marked(12, 8);
    assert_eq!(fill(&mut canvas, rect), Ok(()));
    let once = canvas.image.clone();
    assert_eq!(fill(&mut canvas, rect), Ok(()));
    assert_eq!(canvas.image, once);
}
