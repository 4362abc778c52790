use cutekit::color::{color_black, Color565};
use cutekit::constants::{SCREEN_TILE_HEIGHT, SCREEN_TILE_WIDTH, TILE_PIXELS};
use cutekit::geometry::Vector2;
use cutekit::renderer2d::renderer::{add_alpha_color, Renderer2d};

const RED: Color565 = Color565 { value: 0xF800 };
const WHITE: Color565 = Color565 { value: 0xFFFF };

fn painted(r: &Renderer2d, c: Color565) -> Vec<usize> {
    (0..TILE_PIXELS).filter(|i| r.tile_frame_buffer[*i] == c).collect()
}

#[test]
fn tile_is_eighty_by_sixty() {
    assert_eq!(SCREEN_TILE_WIDTH, 80);
    assert_eq!(SCREEN_TILE_HEIGHT, 60);
    assert_eq!(TILE_PIXELS, 4800);
}

#[test]
fn new_renderer_is_black_and_keeps_clear_colour() {
    let r = Renderer2d::new(RED);
    assert!(r.tile_frame_buffer.iter().all(|c| *c == color_black()));
    assert_eq!(r.clear_color, RED);
}

#[test]
fn clear_paints_every_pixel() {
    let mut r = Renderer2d::new(RED);
    r.draw_pixel(3, 4, WHITE);
    r.clear_frame_frame_buffer();
    assert!(r.tile_frame_buffer.iter().all(|c| *c == RED));
}

#[test]
fn draw_pixel_then_get_pixel() {
    let mut r = Renderer2d::new(color_black());
    r.draw_pixel(79, 59, WHITE);
    assert_eq!(r.get_pixel(79, 59), WHITE);
    assert_eq!(r.tile_frame_buffer[79 + 59 * 80], WHITE);
    assert_eq!(painted(&r, WHITE), vec![4799]);
}

#[test]
fn rectangle_clipped_by_the_tile() {
    let mut r = Renderer2d::new(color_black());
    r.draw_rectangle(Vector2 { x: 78, y: -1 }, Vector2 { x: 5, y: 3 }, RED);
    assert_eq!(painted(&r, RED), vec![78, 79, 158, 159]);
}

#[test]
fn rectangle_off_the_tile_draws_nothing() {
    let mut r = Renderer2d::new(color_black());
    r.draw_rectangle(Vector2 { x: -10, y: 0 }, Vector2 { x: 5, y: 3 }, RED);
    r.draw_rectangle(Vector2 { x: 0, y: 61 }, Vector2 { x: 5, y: 3 }, RED);
    assert!(painted(&r, RED).is_empty());
}

#[test]
fn horizontal_line_includes_its_end() {
    let mut r = Renderer2d::new(color_black());
    r.draw_horizontal_line(2, 5, 7, RED);
    assert_eq!(painted(&r, RED), vec![165, 166, 167]);
}

#[test]
fn horizontal_line_clipped_by_the_tile() {
    let mut r = Renderer2d::new(color_black());
    r.draw_horizontal_line(0, -3, 100, RED);
    assert_eq!(painted(&r, RED), (0..80).collect::<Vec<usize>>());
    let mut r = Renderer2d::new(color_black());
    r.draw_horizontal_line(60, 0, 10, RED);
    r.draw_horizontal_line(-1, 0, 10, RED);
    assert!(painted(&r, RED).is_empty());
}

#[test]
fn alpha_blend_extremes_and_middle() {
    let a = Color565 { value: 0x1234 };
    let b = Color565 { value: 0xBEEF };
    assert_eq!(add_alpha_color(a, b, 0), a);
    assert_eq!(add_alpha_color(a, b, 255), b);
    // 31 * 128 / 255 = 15, 63 * 128 / 255 = 31
    assert_eq!(add_alpha_color(color_black(), WHITE, 128).value, (15 << 11) | (31 << 5) | 15);
}
