use himawari::compose::{compose, FetchedTile, CANVAS_KIND, TILE_KIND};
use himawari::error::AppErr;
use himawari::margins::Margins;
use himawari::output_format::OutputFormat;
use himawari::output_level::OutputLevel;

fn tile_png(w: u32, h: u32, color: [u8; 4]) -> Vec<u8> {
    let img = image::RgbaImage::from_pixel(w, h, image::Rgba(color));
    let mut out = std::io::Cursor::new(Vec::new());
    img.write_to(&mut out, image::ImageFormat::Png).unwrap();
    out.into_inner()
}

fn fetched(x: u32, y: u32, color: [u8; 4]) -> FetchedTile {
    FetchedTile { x, y, data: Ok(tile_png(550, 550, color)) }
}

fn render(margins: Margins, tiles: Vec<FetchedTile>) -> (image::RgbaImage, usize) {
    let level = OutputLevel::new(4).unwrap();
    let (canvas, failures) = compose(&level, &margins, &tiles).ok().expect("canvas refused");
    let bytes = canvas.encode(OutputFormat::PNG).ok().expect("encoding failed");
    (image::load_from_memory(&bytes).unwrap().to_rgba8(), failures.len())
}

const RED: [u8; 4] = [255, 0, 0, 255];
const GREEN: [u8; 4] = [0, 255, 0, 255];
const BLUE: [u8; 4] = [0, 0, 255, 255];
const BLANK: [u8; 4] = [0, 0, 0, 0];

#[test]
fn tiles_land_in_their_cells() {
    let (img, _) = render(Margins::empty(), vec![fetched(0, 0, RED), fetched(2, 1, GREEN)]);
    assert_eq!(img.dimensions(), (2200, 2200));
    assert_eq!(img.get_pixel(0, 0).0, RED);
    assert_eq!(img.get_pixel(549, 549).0, RED);
    assert_eq!(img.get_pixel(550, 0).0, BLANK);
    assert_eq!(img.get_pixel(1100, 550).0, GREEN);
    assert_eq!(img.get_pixel(1649, 1099).0, GREEN);
    assert_eq!(img.get_pixel(1650, 1099).0, BLANK);
}

#[test]
fn margins_shift_the_grid() {
    let m = Margins { top: 10, right: 20, bottom: 30, left: 40 };
    let (img, _) = render(m, vec![fetched(0, 0, BLUE)]);
    assert_eq!(img.dimensions(), (2260, 2240));
    assert_eq!(img.get_pixel(39, 10).0, BLANK);
    assert_eq!(img.get_pixel(40, 9).0, BLANK);
    assert_eq!(img.get_pixel(40, 10).0, BLUE);
    assert_eq!(img.get_pixel(589, 559).0, BLUE);
    assert_eq!(img.get_pixel(590, 559).0, BLANK);
}

#[test]
fn arrival_order_does_not_change_the_canvas() {
    let a = vec![fetched(0, 0, RED), fetched(1, 0, GREEN), fetched(3, 3, BLUE)];
    let b = vec![fetched(3, 3, BLUE), fetched(0, 0, RED), fetched(1, 0, GREEN)];
    let (ia, _) = render(Margins::empty(), a);
    let (ib, _) = render(Margins::empty(), b);
    assert!(ia == ib);
}

#[test]
fn missing_tile_leaves_a_blank_hole() {
    let failed = FetchedTile { x: 1, y: 1, data: Err(AppErr::new("reqwest::Error", "timed out")) };
    let (img, _) = render(Margins::empty(), vec![fetched(0, 1, RED), failed, fetched(2, 1, GREEN)]);
    for (x, y) in [(550, 550), (1099, 1099), (800, 700)] {
        assert_eq!(img.get_pixel(x, y).0, BLANK);
    }
    assert_eq!(img.get_pixel(549, 550).0, RED);
    assert_eq!(img.get_pixel(1100, 1099).0, GREEN);
}

#[test]
fn undecodable_tile_is_reported_and_left_out() {
    let bad = FetchedTile { x: 1, y: 0, data: Ok(vec![1, 2, 3]) };
    let (img, failures) = render(Margins::empty(), vec![bad, fetched(0, 0, RED)]);
    assert_eq!(failures, 1);
    assert_eq!(img.get_pixel(600, 10).0, BLANK);
    assert_eq!(img.get_pixel(10, 10).0, RED);
}

#[test]
fn tile_of_the_wrong_size_is_left_out() {
    let big = FetchedTile { x: 0, y: 0, data: Ok(tile_png(600, 600, RED)) };
    let small = FetchedTile { x: 1, y: 0, data: Ok(tile_png(10, 10, GREEN)) };
    let (img, failures) = render(Margins::empty(), vec![big, small]);
    assert_eq!(failures, 2);
    assert_eq!(img.get_pixel(0, 0).0, BLANK);
    assert_eq!(img.get_pixel(555, 5).0, BLANK);
}

#[test]
fn tile_outside_the_grid_is_left_out() {
    let (img, _) = render(Margins::empty(), vec![fetched(4, 0, RED), fetched(0, 7, RED)]);
    assert!(img.pixels().all(|p| p.0 == BLANK));
}

#[test]
fn later_tile_of_one_cell_wins() {
    let (img, _) = render(Margins::empty(), vec![fetched(0, 0, RED), fetched(0, 0, GREEN)]);
    assert_eq!(img.get_pixel(5, 5).0, GREEN);
}

#[test]
fn oversized_canvas_is_refused() {
    let m = Margins { top: u32::MAX, right: 0, bottom: 0, left: 0 };
    match compose(&OutputLevel::new(4).unwrap(), &m, &Vec::new()) {
        Ok(_) => panic!("canvas accepted"),
        Err(e) => assert_eq!(e.kind, CANVAS_KIND),
    }
}

#[test]
fn rejected_tiles_are_reported_in_arrival_order() {
    let level = OutputLevel::new(4).unwrap();
    let tiles = vec![
        FetchedTile { x: 2, y: 0, data: Ok(tile_png(10, 10, RED)) },
        FetchedTile { x: 0, y: 0, data: Err(AppErr::new("reqwest::Error", "offline")) },
        FetchedTile { x: 3, y: 1, data: Ok(vec![0, 1]) },
        fetched(1, 1, GREEN),
    ];
    let (_, failures) = compose(&level, &Margins::empty(), &tiles).ok().unwrap();
    assert_eq!(failures.len(), 2);
    assert_eq!((failures[0].x, failures[0].y), (2, 0));
    assert_eq!(failures[0].error.kind, TILE_KIND);
    assert!(failures[0].error.cause.is_none());
    assert_eq!((failures[1].x, failures[1].y), (3, 1));
    assert_eq!(failures[1].error.kind, "image::ImageError");
    assert!(failures[1].error.cause.is_some());
}

#[test]
fn encodings_differ_by_format_and_content() {
    let level = OutputLevel::new(4).unwrap();
    let (blank, _) = compose(&level, &Margins::empty(), &Vec::new()).ok().unwrap();
    let (red, _) = compose(&level, &Margins::empty(), &vec![fetched(0, 0, RED)]).ok().unwrap();
    let png = blank.encode(OutputFormat::PNG).ok().unwrap();
    let jpeg = blank.encode(OutputFormat::JPEG).ok().unwrap();
    assert_eq!(&png[..4], &[0x89, b'P', b'N', b'G']);
    assert_eq!(&jpeg[..2], &[0xFF, 0xD8]);
    assert!(png != red.encode(OutputFormat::PNG).ok().unwrap());
}
