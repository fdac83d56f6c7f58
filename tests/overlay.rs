use random_background::colour::Rgba;
use random_background::frame::Frame;
use random_background::layout::{countdown_origin, image_name_origin, overlay_text_origin, status_origin};
use random_background::overlay::{
    blend_layer, calculate_overlay_text_scale, mean_brightness, overlay_colour, overlay_wash_layer,
    CaptionError, ScalePlan,
};

#[test]
fn wash_alpha_boundaries() {
    assert_eq!(overlay_colour(0), Rgba { r: 255, g: 255, b: 255, a: 48 });
    assert_eq!(overlay_colour(127), Rgba { r: 255, g: 255, b: 255, a: 127 });
    assert_eq!(overlay_colour(128), Rgba { r: 0, g: 0, b: 0, a: 127 });
    assert_eq!(overlay_colour(255), Rgba { r: 0, g: 0, b: 0, a: 48 });
    assert_eq!(overlay_colour(64), Rgba { r: 255, g: 255, b: 255, a: 87 });
}

#[test]
fn mean_brightness_averages_channels() {
    let f = Frame::filled(3, 2, Rgba { r: 10, g: 20, b: 30, a: 0 });
    assert_eq!(mean_brightness(&f), 20);
    let g = Frame { width: 2, height: 1, data: vec![255, 255, 255, 255, 0, 0, 0, 255] };
    assert_eq!(mean_brightness(&g), 127);
    let h = Frame::filled(4, 4, Rgba { r: 255, g: 255, b: 255, a: 255 });
    assert_eq!(mean_brightness(&h), 255);
}

#[test]
fn wash_layer_follows_brightness() {
    let dark = Frame::filled(2, 2, Rgba { r: 0, g: 0, b: 0, a: 255 });
    let layer = overlay_wash_layer(&dark);
    assert_eq!((layer.width, layer.height), (2, 2));
    assert_eq!(layer.get_pixel(1, 1), Rgba { r: 255, g: 255, b: 255, a: 48 });
    let bright = Frame::filled(2, 2, Rgba { r: 200, g: 200, b: 200, a: 255 });
    assert_eq!(overlay_wash_layer(&bright).get_pixel(0, 1), Rgba { r: 0, g: 0, b: 0, a: 82 });
}

#[test]
fn blend_layer_composites_over() {
    let mut canvas = Frame::filled(2, 1, Rgba { r: 0, g: 0, b: 0, a: 255 });
    let layer = Frame { width: 2, height: 1, data: vec![255, 255, 255, 0, 255, 255, 255, 255] };
    blend_layer(&mut canvas, &layer);
    assert_eq!(canvas.get_pixel(0, 0), Rgba { r: 0, g: 0, b: 0, a: 255 });
    assert_eq!(canvas.get_pixel(1, 0), Rgba { r: 255, g: 255, b: 255, a: 255 });
    let mut grey = Frame::filled(1, 1, Rgba { r: 0, g: 0, b: 0, a: 255 });
    let half = Frame::filled(1, 1, Rgba { r: 255, g: 255, b: 255, a: 127 });
    blend_layer(&mut grey, &half);
    let p = grey.get_pixel(0, 0);
    assert!(p.r >= 126 && p.r <= 128, "{:?}", p);
    assert_eq!(p.a, 255);
}

#[test]
fn caption_scale_plans() {
    assert_eq!(calculate_overlay_text_scale(3000, 500), Ok(ScalePlan { numerator: 1896, denominator: 3000 }));
    assert_eq!(calculate_overlay_text_scale(1000, 1000), Err(CaptionError::UnexpectedSize));
    assert_eq!(calculate_overlay_text_scale(100, 200), Ok(ScalePlan { numerator: 996, denominator: 200 }));
    assert_eq!(calculate_overlay_text_scale(1800, 300), Ok(ScalePlan { numerator: 1896, denominator: 1800 }));
    assert_eq!(calculate_overlay_text_scale(0, 300), Ok(ScalePlan { numerator: 996, denominator: 300 }));
    assert_eq!(calculate_overlay_text_scale(-3, 300), Ok(ScalePlan { numerator: 996, denominator: 300 }));
    assert_eq!(calculate_overlay_text_scale(3000, 0), Ok(ScalePlan { numerator: 1896, denominator: 3000 }));
    assert_eq!(calculate_overlay_text_scale(500, 0), Ok(ScalePlan { numerator: 1896, denominator: 500 }));
    assert_eq!(calculate_overlay_text_scale(0, 0), Err(CaptionError::EmptyCaption));
    assert_eq!(calculate_overlay_text_scale(0, 1000), Err(CaptionError::UnexpectedSize));
    assert_eq!(calculate_overlay_text_scale(1896, 996), Ok(ScalePlan { numerator: 996, denominator: 996 }));
}

#[test]
fn text_origins() {
    assert_eq!(image_name_origin(100, 20), (1808, 1008));
    assert_eq!(status_origin(20), (12, 1008));
    assert_eq!(countdown_origin(20, 150), (12, 846));
    assert_eq!(overlay_text_origin(1000, 500), (460, 280));
    assert_eq!(overlay_text_origin(1925, 1085), (-2, -12));
}
