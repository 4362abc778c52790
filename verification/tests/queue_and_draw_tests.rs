use cutekit::color::{color_black, Color565};
use cutekit::geometry::Vector2;
use cutekit::renderer2d::draw_queue::DrawQueue;
use cutekit::renderer2d::elements::{Element, Font, ScaleMode};
use cutekit::renderer2d::nine_parts_rectangle::NinePartsTexture;
use cutekit::renderer2d::renderer::Renderer2d;
use cutekit::renderer2d::sprite::TransparentTexture;

const RED: Color565 = Color565 { value: 0xF800 };
const GREEN: Color565 = Color565 { value: 0x07E0 };
const WHITE: Color565 = Color565 { value: 0xFFFF };

fn at(r: &Renderer2d, x: usize, y: usize) -> Color565 {
    r.tile_frame_buffer[x + y * 80]
}

// 2 × 2 pixels: opaque red, transparent, half-transparent white, opaque green.
fn sprite() -> TransparentTexture {
    TransparentTexture::new(&[0x00, 0xF8, 255, 0, 0, 0, 0xFF, 0xFF, 128, 0xE0, 0x07, 255], 2, 2)
}

#[test]
fn new_queue_is_empty() {
    let q: DrawQueue<'_, 4> = DrawQueue::new();
    assert_eq!(q.len(), 0);
    assert!(q.get_elements().is_empty());
}

#[test]
fn queue_keeps_order_and_refuses_past_capacity() {
    let mut q: DrawQueue<'_, 2> = DrawQueue::new();
    assert!(q.add_rectangle(Vector2 { x: 1, y: 2 }, Vector2 { x: 3, y: 4 }, RED).is_ok());
    assert!(q.add_external(7).is_ok());
    assert!(q.add_rectangle(Vector2 { x: 0, y: 0 }, Vector2 { x: 1, y: 1 }, GREEN).is_err());
    assert_eq!(q.len(), 2);
    let e = q.get_elements();
    assert!(matches!(e[0], Element::ColorRectangle { pos, size, color } if pos.x == 1 && pos.y == 2 && size.x == 3 && size.y == 4 && color == RED));
    assert!(matches!(e[1], Element::External { id: 7 }));
}

#[test]
fn queue_element_err_leaves_queue() {
    let mut q: DrawQueue<'_, 0> = DrawQueue::new();
    assert!(q.queue_element(Element::External { id: 1 }).is_err());
    assert_eq!(q.len(), 0);
}

#[test]
fn add_functions_queue_their_element() {
    let t = sprite();
    let parts = t.as_parts();
    let font = Font { data: &[0], font_image_width: 1, char_width: 1, char_height: 1, chars: "a" };
    let mut q: DrawQueue<'_, 8> = DrawQueue::new();
    q.add_transparent_sprite(Vector2 { x: 1, y: 1 }, &t).unwrap();
    q.add_transparent_scaled_sprite(Vector2 { x: 2, y: 2 }, Vector2 { x: 4, y: 4 }, &t, ScaleMode::Tile).unwrap();
    q.add_nine_parts_rectangle(&parts, Vector2 { x: 3, y: 3 }, Vector2 { x: 6, y: 6 }, ScaleMode::Stretch).unwrap();
    q.add_text(Vector2 { x: 4, y: 4 }, "a", &font, WHITE, None).unwrap();
    let e = q.get_elements();
    assert_eq!(e.len(), 4);
    assert!(matches!(e[0], Element::TransparentSprite { pos, .. } if pos.x == 1));
    assert!(matches!(e[1], Element::TransparentScaledSprite { scale_mode: ScaleMode::Tile, .. }));
    assert!(matches!(e[2], Element::NinePartsRectangle { scaling_mode: ScaleMode::Stretch, .. }));
    assert!(matches!(e[3], Element::Text { text: "a", .. }));
}

#[test]
fn draw_element_moves_by_the_tile_offset() {
    let mut r = Renderer2d::new(color_black());
    let e = Element::ColorRectangle { pos: Vector2 { x: 82, y: 61 }, size: Vector2 { x: 2, y: 1 }, color: RED };
    r.draw_element(Vector2 { x: 80, y: 60 }, &e);
    assert_eq!(at(&r, 2, 1), RED);
    assert_eq!(at(&r, 3, 1), RED);
    assert_eq!(r.tile_frame_buffer.iter().filter(|c| **c == RED).count(), 2);
}

#[test]
fn outline_draws_the_border_only() {
    let mut r = Renderer2d::new(color_black());
    let e = Element::ColorRectangleOutline { pos: Vector2 { x: 1, y: 1 }, size: Vector2 { x: 4, y: 4 }, color: RED, thickness: 1 };
    r.draw_element(Vector2 { x: 0, y: 0 }, &e);
    for y in 1..5 {
        for x in 1..5 {
            let border = x == 1 || x == 4 || y == 1 || y == 4;
            assert_eq!(at(&r, x, y) == RED, border, "pixel ({}, {})", x, y);
        }
    }
    assert_eq!(r.tile_frame_buffer.iter().filter(|c| **c == RED).count(), 12);
}

#[test]
fn sprite_copies_opaque_and_skips_transparent() {
    let t = sprite();
    let mut r = Renderer2d::new(color_black());
    r.draw_rectangle(Vector2 { x: 0, y: 0 }, Vector2 { x: 80, y: 60 }, WHITE);
    r.draw_element(Vector2 { x: 0, y: 0 }, &Element::TransparentSprite { pos: Vector2 { x: 10, y: 20 }, texture: &t });
    assert_eq!(at(&r, 10, 20), RED);
    assert_eq!(at(&r, 11, 20), WHITE);
    assert_eq!(at(&r, 11, 21), GREEN);
    // half white over the white read at the region-relative position (0, 1): the
    // channels are weighted without dividing back, keeping their low bits
    assert_eq!(at(&r, 10, 21).value, 2081);
}

#[test]
fn stretched_sprite_scales_each_pixel() {
    let t = sprite();
    let mut r = Renderer2d::new(color_black());
    let e = Element::TransparentScaledSprite {
        pos: Vector2 { x: 0, y: 0 },
        size: Vector2 { x: 4, y: 2 },
        texture: &t,
        scale_mode: ScaleMode::Stretch,
    };
    r.draw_element(Vector2 { x: 0, y: 0 }, &e);
    // columns 0 and 1 show texture column 0, columns 2 and 3 texture column 1
    assert_eq!(at(&r, 0, 0), RED);
    assert_eq!(at(&r, 1, 0), RED);
    assert_eq!(at(&r, 2, 0), color_black());
    assert_eq!(at(&r, 2, 1), GREEN);
    assert_eq!(at(&r, 3, 1), GREEN);
}

#[test]
fn tiled_sprite_repeats_the_texture() {
    // red green / green red, all opaque
    let t = TransparentTexture::new(&[0x00, 0xF8, 255, 0xE0, 0x07, 255, 0xE0, 0x07, 255, 0x00, 0xF8, 255], 2, 2);
    let mut r = Renderer2d::new(color_black());
    let e = Element::TransparentScaledSprite {
        pos: Vector2 { x: 0, y: 0 },
        size: Vector2 { x: 4, y: 3 },
        texture: &t,
        scale_mode: ScaleMode::Tile,
    };
    r.draw_element(Vector2 { x: 0, y: 0 }, &e);
    for y in 0..3 {
        for x in 0..4 {
            let expected = if (x + y) % 2 == 0 { RED } else { GREEN };
            assert_eq!(at(&r, x, y), expected, "pixel ({}, {})", x, y);
        }
    }
}

#[test]
fn tiled_sprite_repeats_past_transparent_pixels() {
    // the first texture row is opaque red then transparent: the pattern repeats unscaled
    let t = sprite();
    let mut r = Renderer2d::new(color_black());
    let e = Element::TransparentScaledSprite {
        pos: Vector2 { x: 0, y: 0 },
        size: Vector2 { x: 4, y: 1 },
        texture: &t,
        scale_mode: ScaleMode::Tile,
    };
    r.draw_element(Vector2 { x: 0, y: 0 }, &e);
    assert_eq!(at(&r, 0, 0), RED);
    assert_eq!(at(&r, 1, 0), color_black());
    assert_eq!(at(&r, 2, 0), RED);
    assert_eq!(at(&r, 3, 0), color_black());
}

#[test]
fn draw_region_tile_repeats_a_transparent_then_white_block() {
    let parts = NinePartsTexture {
        data: &[0, 0, 0, 0xFF, 0xFF, 0xFF],
        texture_width: 2,
        texture_height: 1,
        left_border_size: 0,
        right_border_size: 0,
        top_border_size: 0,
        bottom_border_size: 0,
    };
    let mut r = Renderer2d::new(color_black());
    r.draw_region_tile(&parts, Vector2::new(0, 0), Vector2::new(0, 0), 2, 1, 4, 1);
    assert_eq!(at(&r, 1, 0), WHITE);
    assert_eq!(at(&r, 3, 0), WHITE);
    assert_eq!(r.tile_frame_buffer.iter().filter(|c| **c != color_black()).count(), 2);
}

#[test]
fn nine_parts_sides_stretch_the_middle_of_the_texture() {
    // 4 × 3 texture, 1-pixel borders: every row is red, green, white, red
    let row: [u8; 12] = [0x00, 0xF8, 255, 0xE0, 0x07, 255, 0xFF, 0xFF, 255, 0x00, 0xF8, 255];
    let data: Vec<u8> = row.iter().chain(row.iter()).chain(row.iter()).copied().collect();
    let parts = NinePartsTexture {
        data: Box::leak(data.into_boxed_slice()),
        texture_width: 4,
        texture_height: 3,
        left_border_size: 1,
        right_border_size: 1,
        top_border_size: 1,
        bottom_border_size: 1,
    };
    let mut r = Renderer2d::new(color_black());
    let e = Element::NinePartsRectangle { parts: &parts, pos: Vector2 { x: 0, y: 0 }, size: Vector2 { x: 6, y: 3 }, scaling_mode: ScaleMode::Stretch };
    r.draw_element(Vector2 { x: 0, y: 0 }, &e);
    // the two middle columns (green, white) are stretched over the four middle cells
    for y in 0..3 {
        assert_eq!(at(&r, 0, y), RED);
        assert_eq!(at(&r, 1, y), GREEN);
        assert_eq!(at(&r, 2, y), GREEN);
        assert_eq!(at(&r, 3, y), WHITE);
        assert_eq!(at(&r, 4, y), WHITE);
        assert_eq!(at(&r, 5, y), RED);
    }
}

#[test]
fn external_elements_are_left_to_the_caller() {
    let mut r = Renderer2d::new(color_black());
    r.draw_element(Vector2 { x: 0, y: 0 }, &Element::External { id: 3 });
    assert!(r.tile_frame_buffer.iter().all(|c| *c == color_black()));
}

#[test]
fn draw_tile_clears_then_draws_in_order() {
    let mut r = Renderer2d::new(GREEN);
    let es = [
        Element::ColorRectangle { pos: Vector2 { x: 80, y: 0 }, size: Vector2 { x: 2, y: 2 }, color: RED },
        Element::ColorRectangle { pos: Vector2 { x: 81, y: 0 }, size: Vector2 { x: 1, y: 1 }, color: WHITE },
    ];
    r.draw_tile(1, 0, &es);
    assert_eq!(at(&r, 0, 0), RED);
    assert_eq!(at(&r, 1, 0), WHITE);
    assert_eq!(at(&r, 0, 1), RED);
    assert_eq!(at(&r, 1, 1), RED);
    assert_eq!(at(&r, 2, 0), GREEN);
    assert_eq!(r.tile_frame_buffer.iter().filter(|c| **c == GREEN).count(), 4800 - 4);
}

#[test]
fn draw_shapes_draws_each_element() {
    let mut r = Renderer2d::new(color_black());
    let es = [
        Element::ColorRectangle { pos: Vector2 { x: 0, y: 0 }, size: Vector2 { x: 1, y: 1 }, color: RED },
        Element::External { id: 0 },
        Element::ColorRectangle { pos: Vector2 { x: 5, y: 5 }, size: Vector2 { x: 1, y: 1 }, color: GREEN },
    ];
    r.draw_shapes(Vector2 { x: 0, y: 0 }, &es);
    assert_eq!(at(&r, 0, 0), RED);
    assert_eq!(at(&r, 5, 5), GREEN);
}

#[test]
fn nine_parts_element_draws_corners() {
    // 3 × 3 texture with 1-pixel borders: opaque red corners, green elsewhere
    let data: &'static [u8] = &[
        0x00, 0xF8, 255, 0xE0, 0x07, 255, 0x00, 0xF8, 255,
        0xE0, 0x07, 255, 0xE0, 0x07, 255, 0xE0, 0x07, 255,
        0x00, 0xF8, 255, 0xE0, 0x07, 255, 0x00, 0xF8, 255,
    ];
    let parts = NinePartsTexture {
        data,
        texture_width: 3,
        texture_height: 3,
        left_border_size: 1,
        right_border_size: 1,
        top_border_size: 1,
        bottom_border_size: 1,
    };
    let mut r = Renderer2d::new(color_black());
    let e = Element::NinePartsRectangle { parts: &parts, pos: Vector2 { x: 0, y: 0 }, size: Vector2 { x: 4, y: 4 }, scaling_mode: ScaleMode::Stretch };
    r.draw_element(Vector2 { x: 0, y: 0 }, &e);
    assert_eq!(at(&r, 0, 0), RED);
    assert_eq!(at(&r, 3, 0), RED);
    assert_eq!(at(&r, 0, 3), RED);
    assert_eq!(at(&r, 3, 3), RED);
    assert_eq!(at(&r, 1, 0), GREEN);
    assert_eq!(at(&r, 1, 1), GREEN);
    assert_eq!(at(&r, 4, 0), color_black());
}

#[test]
fn stretch_by_one_equals_copy() {
    let t = sprite();
    let parts = t.as_parts();
    let mut a = Renderer2d::new(WHITE);
    a.clear_frame_frame_buffer();
    let mut b = Renderer2d::new(WHITE);
    b.clear_frame_frame_buffer();
    a.draw_region(&parts, Vector2::new(-1, 3), Vector2::new(0, 0), 2, 2);
    b.draw_region_strech(&parts, Vector2::new(-1, 3), Vector2::new(0, 0), 2, 2, 2, 2);
    assert_eq!(a.tile_frame_buffer.to_vec(), b.tile_frame_buffer.to_vec());
}

#[test]
fn drawing_a_tile_is_a_translation() {
    let moved = [Element::ColorRectangle { pos: Vector2 { x: 85, y: 62 }, size: Vector2 { x: 3, y: 2 }, color: RED }];
    let at_origin = [Element::ColorRectangle { pos: Vector2 { x: 5, y: 2 }, size: Vector2 { x: 3, y: 2 }, color: RED }];
    let mut a = Renderer2d::new(color_black());
    a.draw_shapes(Vector2 { x: 80, y: 60 }, &moved);
    let mut b = Renderer2d::new(color_black());
    b.draw_shapes(Vector2 { x: 0, y: 0 }, &at_origin);
    assert_eq!(a.tile_frame_buffer.to_vec(), b.tile_frame_buffer.to_vec());
}
