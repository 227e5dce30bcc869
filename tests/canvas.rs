use wave_raster::canvas::{fill_below, place_pixel, render_frame, Canvas, Color};

const BLUE: Color = Color { red: 0, green: 0, blue: 255 };
const RED: Color = Color { red: 255, green: 0, blue: 0 };

fn pixel(c: &Canvas, x: u32, y: u32) -> (u8, u8, u8) {
    let (w, _) = c.size();
    let bytes = c.to_rgb_bytes();
    let i = 3 * (y as usize * w as usize + x as usize);
    (bytes[i], bytes[i + 1], bytes[i + 2])
}

#[test]
fn new_canvas_is_black() {
    let c = Canvas::new(4, 3);
    assert_eq!(c.size(), (4, 3));
    assert_eq!(c.to_rgb_bytes(), vec![0u8; 36]);
}

#[test]
fn place_pixel_on_canvas_writes_it() {
    let mut c = Canvas::new(4, 3);
    assert!(place_pixel(&mut c, (2, 1), RED));
    assert_eq!(pixel(&c, 2, 1), (255, 0, 0));
    assert_eq!(pixel(&c, 1, 2), (0, 0, 0));
    let bytes = c.to_rgb_bytes();
    assert_eq!(&bytes[18..21], &[255, 0, 0]);
}

#[test]
fn place_pixel_off_canvas_is_refused_and_changes_nothing() {
    let mut c = Canvas::new(4, 3);
    place_pixel(&mut c, (0, 0), BLUE);
    let before = c.to_rgb_bytes();
    assert!(!place_pixel(&mut c, (4, 0), RED));
    assert!(!place_pixel(&mut c, (0, 3), RED));
    assert!(!place_pixel(&mut c, (u32::MAX, u32::MAX), RED));
    assert_eq!(c.to_rgb_bytes(), before);
    assert_eq!(c.size(), (4, 3));
}

#[test]
fn fill_below_paints_to_the_bottom_edge() {
    let mut c = Canvas::new(3, 5);
    fill_below(&mut c, 1, 2, BLUE);
    for y in 0..5 {
        assert_eq!(pixel(&c, 1, y), if y >= 2 { (0, 0, 255) } else { (0, 0, 0) });
        assert_eq!(pixel(&c, 0, y), (0, 0, 0));
        assert_eq!(pixel(&c, 2, y), (0, 0, 0));
    }
}

#[test]
fn fill_below_off_canvas_changes_nothing() {
    let mut c = Canvas::new(3, 5);
    fill_below(&mut c, 3, 0, BLUE);
    fill_below(&mut c, 0, 9, BLUE);
    assert_eq!(c.to_rgb_bytes(), vec![0u8; 45]);
}

#[test]
fn render_frame_without_overlay() {
    let (c, refused) = render_frame(3, 4, &vec![0, 2, 4], &None, BLUE, RED);
    assert!(refused.is_empty());
    assert_eq!(c.size(), (3, 4));
    for y in 0..4 {
        assert_eq!(pixel(&c, 0, y), (0, 0, 255));
        assert_eq!(pixel(&c, 1, y), if y >= 2 { (0, 0, 255) } else { (0, 0, 0) });
        assert_eq!(pixel(&c, 2, y), (0, 0, 0));
    }
}

#[test]
fn render_frame_with_overlay() {
    let (c, refused) = render_frame(3, 4, &vec![1, 2, 3], &Some(vec![0, 3, 9]), BLUE, RED);
    assert_eq!(refused, vec![(2, 9)]);
    assert_eq!(pixel(&c, 0, 0), (255, 0, 0));
    assert_eq!(pixel(&c, 0, 1), (0, 0, 255));
    assert_eq!(pixel(&c, 1, 1), (0, 0, 0));
    assert_eq!(pixel(&c, 1, 2), (0, 0, 255));
    assert_eq!(pixel(&c, 1, 3), (255, 0, 0));
    assert_eq!(pixel(&c, 2, 2), (0, 0, 0));
    assert_eq!(pixel(&c, 2, 3), (0, 0, 255));
}

#[test]
fn render_frame_reports_every_refused_overlay_write() {
    let (c, refused) = render_frame(3, 2, &vec![2, 2, 2], &Some(vec![5, 1, 2]), BLUE, RED);
    assert_eq!(refused, vec![(0, 5), (2, 2)]);
    assert_eq!(c.to_rgb_bytes(), vec![0, 0, 0, 0, 0, 0, 0, 0, 0, 0, 0, 0, 255, 0, 0, 0, 0, 0]);
}
