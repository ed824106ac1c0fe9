use raster::blend::{composite, BlendMode};
use raster::clip::{clip, ClipRegion};
use raster::editor::{blend, crop, crop_at, fill, resize, ResizeMode};
use raster::position::{Anchor, Position};
use raster::{Color, Image, RasterError};

fn counting(width: i32, height: i32) -> Image {
    let n = (width * height * 4) as usize;
    let bytes: Vec<u8> = (0..n).map(|k| (k % 251) as u8).collect();
    Image { width, height, bytes }
}

fn solid(width: i32, height: i32, color: Color) -> Image {
    let mut img = Image::blank(width, height);
    fill(&mut img, color).unwrap();
    img
}

const ANCHORS: [&str; 9] = [
    "top-left",
    "top-center",
    "top-right",
    "center-left",
    "center",
    "center-right",
    "bottom-left",
    "bottom-center",
    "bottom-right",
];

#[test]
fn center_placement_on_square_canvas() {
    let pos = Position::new("center", 0, 0).unwrap();
    assert_eq!(pos.get_x_y(100, 100, 20, 20), (40, 40));
    let region = clip(100, 100, 20, 20, 40, 40).unwrap();
    assert_eq!(region, ClipRegion { start_x: 0, end_x: 20, start_y: 0, end_y: 20 });
}

#[test]
fn top_left_with_negative_offsets() {
    let pos = Position::new("top-left", -5, -5).unwrap();
    assert_eq!(pos.get_x_y(100, 100, 20, 20), (-5, -5));
    let region = clip(100, 100, 20, 20, -5, -5).unwrap();
    assert_eq!(region, ClipRegion { start_x: 5, end_x: 20, start_y: 5, end_y: 20 });
}

#[test]
fn offset_past_canvas_is_outside() {
    let pos = Position::new("top-left", 60, 0).unwrap();
    let (x, y) = pos.get_x_y(50, 50, 20, 20);
    assert_eq!((x, y), (60, 0));
    assert_eq!(clip(50, 50, 20, 20, x, y), Err(RasterError::OutsideCanvas));
    let canvas = Image::blank(50, 50);
    let top = Image::blank(20, 20);
    let r = blend(&canvas, &top, "normal", 1000, "top-left", 60, 0);
    assert_eq!(r, Err(RasterError::OutsideCanvas));
}

#[test]
fn every_anchor_keeps_smaller_overlay_inside() {
    for name in ANCHORS {
        let pos = Position::new(name, 0, 0).unwrap();
        let (x, y) = pos.get_x_y(101, 80, 30, 21);
        assert!(x >= 0 && x + 30 <= 101, "{}", name);
        assert!(y >= 0 && y + 21 <= 80, "{}", name);
    }
}

#[test]
fn anchor_positions_exact() {
    let expect = [(0, 0), (35, 0), (71, 0), (0, 29), (35, 29), (71, 29), (0, 59), (35, 59), (71, 59)];
    for (name, want) in ANCHORS.iter().zip(expect.iter()) {
        let pos = Position::new(name, 0, 0).unwrap();
        assert_eq!(pos.get_x_y(101, 80, 30, 21), *want, "{}", name);
    }
}

#[test]
fn center_of_larger_overlay_truncates_toward_zero() {
    let pos = Position::new("center", 0, 0).unwrap();
    assert_eq!(pos.get_x_y(10, 10, 15, 13), (-2, -1));
    assert_eq!(pos.anchor, Anchor::Center);
}

#[test]
fn unknown_anchor_is_rejected() {
    assert_eq!(
        Position::new("middle", 0, 0),
        Err(RasterError::InvalidPosition("middle".to_string()))
    );
}

#[test]
fn clip_inside_is_whole() {
    let region = clip(100, 80, 30, 20, 10, 60).unwrap();
    assert_eq!(region, ClipRegion { start_x: 0, end_x: 30, start_y: 0, end_y: 20 });
}

#[test]
fn clip_partly_past_bottom_right() {
    let region = clip(100, 80, 30, 20, 90, 70).unwrap();
    assert_eq!(region, ClipRegion { start_x: 0, end_x: 10, start_y: 0, end_y: 10 });
}

#[test]
fn clip_overlay_larger_than_canvas() {
    let region = clip(10, 10, 30, 30, -5, -7).unwrap();
    assert_eq!(region, ClipRegion { start_x: 5, end_x: 15, start_y: 7, end_y: 17 });
}

#[test]
fn clip_each_edge_outside() {
    assert_eq!(clip(50, 40, 10, 10, 50, 0), Err(RasterError::OutsideCanvas));
    assert_eq!(clip(50, 40, 10, 10, -10, 0), Err(RasterError::OutsideCanvas));
    assert_eq!(clip(50, 40, 10, 10, 0, 40), Err(RasterError::OutsideCanvas));
    assert_eq!(clip(50, 40, 10, 10, 0, -10), Err(RasterError::OutsideCanvas));
    assert!(clip(50, 40, 10, 10, -9, -9).is_ok());
}

#[test]
fn fill_sets_every_pixel() {
    let color = Color::rgba(12, 34, 56, 78);
    let mut img = counting(7, 5);
    fill(&mut img, color).unwrap();
    assert_eq!((img.width, img.height), (7, 5));
    for y in 0..5 {
        for x in 0..7 {
            assert_eq!(img.get_pixel(x, y), Ok(color));
        }
    }
}

#[test]
fn fill_empty_image() {
    let mut img = Image::blank(0, 3);
    fill(&mut img, Color::rgba(1, 2, 3, 4)).unwrap();
    assert!(img.bytes.is_empty());
}

#[test]
fn pixel_access_out_of_bounds() {
    let mut img = Image::blank(3, 2);
    assert_eq!(img.get_pixel(3, 0), Err(RasterError::PixelOutOfBounds(3, 0)));
    assert_eq!(img.get_pixel(0, -1), Err(RasterError::PixelOutOfBounds(0, -1)));
    let c = Color::rgba(9, 8, 7, 6);
    assert_eq!(img.set_pixel(0, 2, c), Err(RasterError::PixelOutOfBounds(0, 2)));
    assert_eq!(img.set_pixel(2, 1, c), Ok(()));
    assert_eq!(img.get_pixel(2, 1), Ok(c));
    assert_eq!(&img.bytes[20..24], &[9, 8, 7, 6]);
}

#[test]
fn crop_center_copies_pixels() {
    let src = counting(4, 4);
    let mut img = src.clone();
    crop(&mut img, 2, 2, "center", 0, 0).unwrap();
    assert_eq!((img.width, img.height), (2, 2));
    for y in 0..2 {
        for x in 0..2 {
            assert_eq!(img.get_pixel(x, y), src.get_pixel(x + 1, y + 1));
        }
    }
}

#[test]
fn crop_past_edges_is_truncated() {
    let src = counting(5, 4);
    let mut img = src.clone();
    crop(&mut img, 4, 4, "top-left", 3, 2).unwrap();
    assert_eq!((img.width, img.height), (2, 2));
    assert_eq!(img.get_pixel(0, 0), src.get_pixel(3, 2));
    assert_eq!(img.get_pixel(1, 1), src.get_pixel(4, 3));
}

#[test]
fn crop_before_origin_is_pulled_back() {
    let src = counting(5, 4);
    let mut img = src.clone();
    crop(&mut img, 3, 2, "top-left", -2, -1).unwrap();
    assert_eq!((img.width, img.height), (3, 2));
    assert_eq!(img.get_pixel(0, 0), src.get_pixel(0, 0));
    assert_eq!(img.get_pixel(2, 1), src.get_pixel(2, 1));
}

#[test]
fn crop_entirely_beyond_image_is_empty() {
    let mut img = counting(5, 4);
    crop(&mut img, 3, 3, "top-left", 10, 10).unwrap();
    assert_eq!((img.width, img.height), (0, 0));
    assert!(img.bytes.is_empty());
}

#[test]
fn crop_unknown_anchor_leaves_image() {
    let src = counting(5, 4);
    let mut img = src.clone();
    let r = crop(&mut img, 3, 3, "nowhere", 0, 0);
    assert_eq!(r, Err(RasterError::InvalidPosition("nowhere".to_string())));
    assert_eq!(img, src);
}

#[test]
fn recrop_to_same_rectangle_is_identity() {
    for name in ANCHORS {
        let mut img = counting(9, 7);
        crop(&mut img, 4, 3, name, 0, 0).unwrap();
        let once = img.clone();
        crop(&mut img, 4, 3, name, 0, 0).unwrap();
        assert_eq!(img, once, "{}", name);
    }
    let mut img = counting(9, 7);
    crop(&mut img, 4, 3, "bottom-right", -2, -1).unwrap();
    let once = img.clone();
    crop(&mut img, 4, 3, "bottom-right", -2, -1).unwrap();
    assert_eq!(img, once);
}

#[test]
fn blend_zero_opacity_keeps_canvas() {
    let canvas = counting(10, 8);
    let top = solid(4, 4, Color::rgba(200, 100, 50, 255));
    for mode in ["normal", "difference", "multiply", "overlay", "screen"] {
        let out = blend(&canvas, &top, mode, 0, "center", 3, -2).unwrap();
        assert_eq!(out, canvas, "{}", mode);
        let out = blend(&canvas, &top, mode, -40, "center", 3, -2).unwrap();
        assert_eq!(out, canvas, "{}", mode);
    }
}

#[test]
fn blend_full_normal_replaces_visible_part() {
    let canvas = counting(10, 8);
    let red = Color::rgba(255, 0, 0, 128);
    let top = solid(4, 4, red);
    let out = blend(&canvas, &top, "normal", 1000, "top-left", 8, -1).unwrap();
    assert_eq!((out.width, out.height), (10, 8));
    for y in 0..8 {
        for x in 0..10 {
            let inside = x >= 8 && y <= 2;
            let want = if inside { Ok(red) } else { canvas.get_pixel(x, y) };
            assert_eq!(out.get_pixel(x, y), want, "({}, {})", x, y);
        }
    }
    let out = blend(&canvas, &top, "normal", 2500, "top-left", 8, -1).unwrap();
    assert_eq!(out.get_pixel(9, 0), Ok(red));
}

#[test]
fn blend_mode_formulas() {
    let c = Color::rgba(100, 200, 0, 255);
    let o = Color::rgba(200, 55, 255, 0);
    let canvas = solid(1, 1, c);
    let top = solid(1, 1, o);
    let at = |mode: &str| blend(&canvas, &top, mode, 1000, "top-left", 0, 0).unwrap().get_pixel(0, 0).unwrap();
    assert_eq!(at("normal"), Color::rgba(200, 55, 255, 0));
    assert_eq!(at("difference"), Color::rgba(100, 145, 255, 255));
    assert_eq!(at("multiply"), Color::rgba(78, 43, 0, 0));
    assert_eq!(at("screen"), Color::rgba(222, 212, 255, 255));
    assert_eq!(at("overlay"), Color::rgba(156, 169, 0, 255));
}

#[test]
fn blend_half_opacity_mixes() {
    let canvas = solid(2, 2, Color::rgba(100, 0, 255, 10));
    let top = solid(2, 2, Color::rgba(201, 50, 0, 20));
    let out = composite(&canvas, &top, BlendMode::Normal, 500, Position::new("top-left", 0, 0).unwrap()).unwrap();
    assert_eq!(out.get_pixel(1, 1), Ok(Color::rgba(150, 25, 127, 15)));
}

#[test]
fn blend_mode_names() {
    assert_eq!(BlendMode::from_name("normal"), Some(BlendMode::Normal));
    assert_eq!(BlendMode::from_name("screen"), Some(BlendMode::Screen));
    assert_eq!(BlendMode::from_name("Normal"), None);
    let canvas = Image::blank(4, 4);
    let top = Image::blank(2, 2);
    assert!(blend(&canvas, &top, "MuLtIpLy", 1000, "center", 0, 0).is_ok());
    assert_eq!(
        blend(&canvas, &top, "DODGE", 1000, "center", 0, 0),
        Err(RasterError::InvalidBlendMode("dodge".to_string()))
    );
    assert_eq!(
        blend(&canvas, &top, "normal", 1000, "left", 0, 0),
        Err(RasterError::InvalidPosition("left".to_string()))
    );
}

#[test]
fn resize_exact_changes_size() {
    let mut img = solid(4, 2, Color::rgba(10, 20, 30, 255));
    resize(&mut img, 2, 1, "exact").unwrap();
    assert_eq!((img.width, img.height), (2, 1));
    assert_eq!(img.bytes.len(), 8);
    assert_eq!(img.get_pixel(1, 0), Ok(Color::rgba(10, 20, 30, 255)));
}

#[test]
fn resize_same_size_keeps_pixels() {
    let src = counting(3, 3);
    let mut img = src.clone();
    resize(&mut img, 3, 3, "exact").unwrap();
    assert_eq!(img, src);
}

#[test]
fn resize_keeps_aspect_ratio() {
    let mut img = Image::blank(200, 100);
    resize(&mut img, 50, 999, "exact_width").unwrap();
    assert_eq!((img.width, img.height), (50, 25));
    let mut img = Image::blank(200, 100);
    resize(&mut img, 999, 30, "exact_height").unwrap();
    assert_eq!((img.width, img.height), (60, 30));
    let mut img = Image::blank(200, 100);
    resize(&mut img, 50, 50, "fit").unwrap();
    assert_eq!((img.width, img.height), (50, 25));
    let mut img = Image::blank(100, 200);
    resize(&mut img, 50, 50, "fit").unwrap();
    assert_eq!((img.width, img.height), (25, 50));
    let mut img = Image::blank(3, 2);
    resize(&mut img, 5, 99, "exact_width").unwrap();
    assert_eq!((img.width, img.height), (5, 3));
}

#[test]
fn resize_fill_covers_then_crops() {
    let mut img = solid(200, 100, Color::rgba(5, 6, 7, 8));
    resize(&mut img, 50, 50, "fill").unwrap();
    assert_eq!((img.width, img.height), (50, 50));
    assert_eq!(img.bytes.len(), 50 * 50 * 4);
    assert_eq!(img.get_pixel(25, 25), Ok(Color::rgba(5, 6, 7, 8)));
}

#[test]
fn resize_errors_leave_image() {
    let src = counting(4, 3);
    let mut img = src.clone();
    assert_eq!(
        resize(&mut img, 2, 2, "Exact"),
        Err(RasterError::InvalidResizeMode("Exact".to_string()))
    );
    assert_eq!(resize(&mut img, -1, 2, "exact"), Err(RasterError::InvalidDimensions));
    let mut thin = Image::blank(1, 2);
    assert_eq!(resize(&mut thin, 2_000_000_000, 0, "exact_width"), Err(RasterError::InvalidDimensions));
    assert_eq!(img, src);
    assert_eq!(ResizeMode::from_name("fit"), Some(ResizeMode::Fit));
}

#[test]
fn crop_at_takes_position() {
    let src = counting(6, 6);
    let mut img = src.clone();
    crop_at(&mut img, 2, 3, Position { anchor: Anchor::BottomRight, offset_x: 0, offset_y: 0 });
    assert_eq!((img.width, img.height), (2, 3));
    assert_eq!(img.get_pixel(0, 0), src.get_pixel(4, 3));
}

#[test]
fn resize_ignores_side_the_mode_does_not_use() {
    let mut img = Image::blank(200, 100);
    resize(&mut img, 50, -1, "exact_width").unwrap();
    assert_eq!((img.width, img.height), (50, 25));
    let mut img = Image::blank(200, 100);
    resize(&mut img, -7, 30, "exact_height").unwrap();
    assert_eq!((img.width, img.height), (60, 30));
    let mut img = Image::blank(200, 100);
    assert_eq!(resize(&mut img, -1, 30, "exact_width"), Err(RasterError::InvalidDimensions));
    assert_eq!(resize(&mut img, 30, -1, "exact_height"), Err(RasterError::InvalidDimensions));
    assert_eq!(resize(&mut img, 30, -1, "fit"), Err(RasterError::InvalidDimensions));
    assert_eq!(resize(&mut img, 30, -1, "exact"), Err(RasterError::InvalidDimensions));
    assert_eq!((img.width, img.height), (200, 100));
}

#[test]
fn blend_opacity_in_thousandths() {
    let canvas = solid(1, 1, Color::rgba(0, 255, 100, 0));
    let top = solid(1, 1, Color::rgba(255, 0, 200, 255));
    let out = blend(&canvas, &top, "normal", 333, "center", 0, 0).unwrap();
    assert_eq!(out.get_pixel(0, 0), Ok(Color::rgba(84, 170, 133, 84)));
}

#[test]
fn resize_fill_of_empty_image_is_rejected() {
    let mut img = Image::blank(0, 5);
    assert_eq!(resize(&mut img, 4, 4, "fill"), Err(RasterError::InvalidDimensions));
    assert_eq!((img.width, img.height), (0, 5));
    let mut img = Image::blank(7, 0);
    assert_eq!(resize(&mut img, 4, 4, "fill"), Err(RasterError::InvalidDimensions));
    let mut img = Image::blank(0, 5);
    resize(&mut img, 0, 3, "fill").unwrap();
    assert_eq!((img.width, img.height), (0, 3));
}

#[test]
fn resize_fill_reaches_target_size() {
    for (w, h) in [(3, 7), (7, 3), (1, 1), (10, 10)] {
        let mut img = counting(5, 3);
        resize(&mut img, w, h, "fill").unwrap();
        assert_eq!((img.width, img.height), (w, h));
        assert_eq!(img.bytes.len(), (w * h * 4) as usize);
    }
}
