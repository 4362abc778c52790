use cutekit::color::{color_black, Color565};
use cutekit::geometry::Vector2;
use cutekit::renderer2d::elements::Font;
use cutekit::renderer2d::renderer::Renderer2d;

const RED: Color565 = Color565 { value: 0xF800 };
const WHITE: Color565 = Color565 { value: 0xFFFF };

// Two 2 × 2 characters side by side: "A" is a falling diagonal, "B" a rising one.
fn font() -> Font {
    Font {
        data: &[255, 0, 0, 255, 0, 255, 255, 0],
        font_image_width: 4,
        char_width: 2,
        char_height: 2,
        chars: "AB",
    }
}

fn at(r: &Renderer2d, x: usize, y: usize) -> Color565 {
    r.tile_frame_buffer[x + y * 80]
}

#[test]
fn text_draws_each_glyph_with_its_coverage() {
    let f = font();
    let mut r = Renderer2d::new(color_black());
    r.draw_text(Vector2 { x: 0, y: 0 }, "BA", &f, WHITE, None);
    // "B" in columns 0 and 1
    assert_eq!(at(&r, 0, 0), color_black());
    assert_eq!(at(&r, 1, 0), WHITE);
    assert_eq!(at(&r, 0, 1), WHITE);
    assert_eq!(at(&r, 1, 1), color_black());
    // "A" in columns 2 and 3
    assert_eq!(at(&r, 2, 0), WHITE);
    assert_eq!(at(&r, 3, 0), color_black());
    assert_eq!(at(&r, 2, 1), color_black());
    assert_eq!(at(&r, 3, 1), WHITE);
    let changed = r.tile_frame_buffer.iter().filter(|c| **c != color_black()).count();
    assert_eq!(changed, 4);
}

#[test]
fn text_background_shows_where_coverage_is_zero() {
    let f = font();
    let mut r = Renderer2d::new(color_black());
    r.draw_text(Vector2 { x: 10, y: 5 }, "A", &f, WHITE, Some(RED));
    assert_eq!(at(&r, 10, 5), WHITE);
    assert_eq!(at(&r, 11, 5), RED);
    assert_eq!(at(&r, 10, 6), RED);
    assert_eq!(at(&r, 11, 6), WHITE);
    assert_eq!(at(&r, 12, 5), color_black());
}

#[test]
fn transparent_text_keeps_the_tile_under_zero_coverage() {
    let f = font();
    let mut r = Renderer2d::new(color_black());
    r.draw_rectangle(Vector2 { x: 0, y: 0 }, Vector2 { x: 4, y: 4 }, RED);
    r.draw_text(Vector2 { x: 0, y: 0 }, "A", &f, WHITE, None);
    assert_eq!(at(&r, 0, 0), WHITE);
    assert_eq!(at(&r, 1, 0), RED);
}

#[test]
fn text_clipped_at_the_left_edge() {
    let f = font();
    let mut r = Renderer2d::new(color_black());
    r.draw_text(Vector2 { x: -1, y: 0 }, "BA", &f, WHITE, None);
    // column 1 of "B" lands on column 0
    assert_eq!(at(&r, 0, 0), WHITE);
    assert_eq!(at(&r, 0, 1), color_black());
    // "A" lands on columns 1 and 2
    assert_eq!(at(&r, 1, 0), WHITE);
    assert_eq!(at(&r, 2, 0), color_black());
    assert_eq!(at(&r, 1, 1), color_black());
    assert_eq!(at(&r, 2, 1), WHITE);
}

#[test]
fn text_clipped_at_the_top_edge() {
    let f = font();
    let mut r = Renderer2d::new(color_black());
    r.draw_text(Vector2 { x: 0, y: -1 }, "A", &f, WHITE, Some(RED));
    // only the second row of "A" shows, on row 0
    assert_eq!(at(&r, 0, 0), RED);
    assert_eq!(at(&r, 1, 0), WHITE);
    assert_eq!(at(&r, 0, 1), color_black());
}

#[test]
fn text_off_the_tile_draws_nothing() {
    let f = font();
    let mut r = Renderer2d::new(color_black());
    r.draw_text(Vector2 { x: 81, y: 0 }, "AB", &f, WHITE, Some(RED));
    r.draw_text(Vector2 { x: -4, y: 0 }, "AB", &f, WHITE, Some(RED));
    r.draw_text(Vector2 { x: 0, y: -2 }, "AB", &f, WHITE, Some(RED));
    assert!(r.tile_frame_buffer.iter().all(|c| *c == color_black()));
}

#[test]
fn text_half_coverage_blends() {
    let f = Font { data: &[128], font_image_width: 1, char_width: 1, char_height: 1, chars: "x" };
    let mut r = Renderer2d::new(color_black());
    r.draw_text(Vector2 { x: 0, y: 0 }, "x", &f, WHITE, None);
    assert_eq!(at(&r, 0, 0).value, (15 << 11) | (31 << 5) | 15);
}

#[test]
fn text_uses_the_first_matching_character() {
    // "B" appears twice; the first one (byte position 1) is used
    let f = Font { data: &[0, 255, 128], font_image_width: 3, char_width: 1, char_height: 1, chars: "ABB" };
    let mut r = Renderer2d::new(color_black());
    r.draw_text(Vector2 { x: 0, y: 0 }, "B", &f, WHITE, None);
    assert_eq!(at(&r, 0, 0), WHITE);
}
