use random_background::colour::Rgba;
use random_background::fit::{
    cover_dimensions, crop_to_fit_screen_exactly, fit_outcome, fit_to_screen, resize_to_contain_screen,
    FitError, FitOutcome,
};
use random_background::frame::Frame;

fn uniform(width: u32, height: u32, c: Rgba) -> Frame {
    Frame::filled(width, height, c)
}

fn patterned(width: u32, height: u32) -> Frame {
    let data = (0..(width as usize * height as usize * 4)).map(|i| (i * 7 % 251) as u8).collect();
    Frame { width, height, data }
}

#[test]
fn wide_source_covers_height_then_crops() {
    assert_eq!(cover_dimensions(3840, 900), (4608, 1080));
    let src = uniform(3840, 900, Rgba { r: 10, g: 20, b: 30, a: 255 });
    let scaled = resize_to_contain_screen(src);
    assert_eq!((scaled.width, scaled.height), (4608, 1080));
    assert!(scaled.width > 1920);
    assert_eq!(fit_outcome(scaled.width, scaled.height), FitOutcome::FitsHeight);
    let out = crop_to_fit_screen_exactly(scaled).unwrap();
    assert_eq!((out.width, out.height), (1920, 1080));
    assert_eq!(out.data.len(), 1920 * 1080 * 4);
}

#[test]
fn tall_source_covers_width() {
    assert_eq!(cover_dimensions(1000, 2000), (1920, 3840));
    assert_eq!(cover_dimensions(3, 2), (1920, 1280));
    assert_eq!(cover_dimensions(1921, 1080), (1921, 1080));
    assert_eq!(cover_dimensions(1000, 1000), (1920, 1920));
    let src = uniform(40, 60, Rgba { r: 1, g: 2, b: 3, a: 255 });
    let out = fit_to_screen(src).unwrap();
    assert_eq!((out.width, out.height), (1920, 1080));
}

#[test]
fn screen_sized_source_is_returned_unchanged() {
    let src = patterned(1920, 1080);
    let once = fit_to_screen(src.clone()).unwrap();
    assert_eq!((once.width, once.height), (1920, 1080));
    assert_eq!(once.data, src.data);
}

#[test]
fn fitting_twice_is_byte_identical() {
    let src = patterned(1920, 1080);
    let once = fit_to_screen(src.clone()).unwrap();
    let twice = fit_to_screen(once.clone()).unwrap();
    assert_eq!(once.data, twice.data);
    assert_eq!(twice.data, src.data);
}

#[test]
fn resize_changes_pixels_of_a_pattern() {
    let src = patterned(64, 36);
    let scaled = resize_to_contain_screen(src.clone());
    assert_eq!((scaled.width, scaled.height), (1920, 1080));
    assert_ne!(scaled.data.len(), src.data.len());
}

#[test]
fn crop_centres_the_overhang() {
    let mut data = Vec::new();
    for y in 0..1080u32 {
        for x in 0..1922u32 {
            data.extend_from_slice(&[(x % 256) as u8, (x / 256) as u8, (y % 256) as u8, 255]);
        }
    }
    let f = Frame { width: 1922, height: 1080, data };
    let out = crop_to_fit_screen_exactly(f).unwrap();
    assert_eq!(out.get_pixel(0, 0), Rgba { r: 1, g: 0, b: 0, a: 255 });
    assert_eq!(out.get_pixel(1919, 5), Rgba { r: (1920 % 256) as u8, g: 7, b: 5, a: 255 });
}

#[test]
fn crop_refuses_shapes_that_do_not_overhang_once() {
    assert_eq!(fit_outcome(1920, 1080), FitOutcome::FitsExactly);
    assert_eq!(fit_outcome(1920, 1200), FitOutcome::FitsWidth);
    assert_eq!(fit_outcome(2000, 1080), FitOutcome::FitsHeight);
    assert_eq!(fit_outcome(2000, 1200), FitOutcome::Unreachable);
    assert_eq!(fit_outcome(1920, 1000), FitOutcome::Unreachable);
    assert_eq!(fit_outcome(1800, 1080), FitOutcome::Unreachable);
    let f = uniform(1920, 1000, Rgba { r: 0, g: 0, b: 0, a: 255 });
    assert_eq!(crop_to_fit_screen_exactly(f).unwrap_err(), FitError::Unreachable);
}

#[test]
fn frame_crop_takes_the_window() {
    let data: Vec<u8> = (0..48u8).collect();
    let f = Frame { width: 4, height: 3, data };
    let c = f.crop(1, 1, 2, 2);
    assert_eq!((c.width, c.height), (2, 2));
    assert_eq!(c.data, vec![20, 21, 22, 23, 24, 25, 26, 27, 36, 37, 38, 39, 40, 41, 42, 43]);
    assert_eq!(f.get_pixel(3, 2), Rgba { r: 44, g: 45, b: 46, a: 47 });
}
