use cutekit::color::{color_black, Color565};
use cutekit::draw_tools::images::{
    draw_region, draw_region_strech, draw_region_tile, nine_parts_rectangle, NinePartsScaleMode, NinePartsTexture,
};
use cutekit::geometry::Vector2;
use cutekit::renderer::drawing::DrawInfo;
use cutekit::renderer2d::nine_parts_rectangle::{add_alpha_color, get_pixel_transparent};
use cutekit::renderer2d::sprite::{read_texel, TransparentRGB565, TransparentTexture};

const RED: Color565 = Color565 { value: 0xF800 };
const GREEN: Color565 = Color565 { value: 0x07E0 };

const R: [u8; 3] = [0x00, 0xF8, 255];
const G: [u8; 3] = [0xE0, 0x07, 255];

fn texture(pixels: &[[u8; 3]], w: usize, h: usize) -> NinePartsTexture {
    let data: Vec<u8> = pixels.iter().flat_map(|p| p.iter().copied()).collect();
    NinePartsTexture {
        data: Box::leak(data.into_boxed_slice()),
        texture_width: w,
        texture_height: h,
        left_border_size: 1,
        right_border_size: 1,
        top_border_size: 1,
        bottom_border_size: 1,
    }
}

#[test]
fn texel_bytes_decode() {
    let p = TransparentRGB565::from_bytes([0x34, 0x12, 7]);
    assert_eq!(p.rgb.value, 0x1234);
    assert_eq!(p.alpha, 7);
    let data = [1u8, 0, 0, 0x00, 0xF8, 200];
    let t = read_texel(&data, 1);
    assert_eq!(t.rgb, RED);
    assert_eq!(t.alpha, 200);
}

#[test]
fn transparent_texture_keeps_its_fields() {
    let t = TransparentTexture::new(&[0, 0, 0, 1, 1, 1], 2, 1);
    assert_eq!((t.width, t.height, t.data.len()), (2, 1, 6));
}

#[test]
fn transparent_pixel_outside_the_texture() {
    let data = [0x00u8, 0xF8, 255];
    let p = get_pixel_transparent(&data, 1, 1, 0, 0);
    assert_eq!((p.rgb, p.alpha), (RED, 255));
    let p = get_pixel_transparent(&data, 1, 1, 1, 0);
    assert_eq!((p.rgb, p.alpha), (color_black(), 0));
    let p = get_pixel_transparent(&data, 1, 1, 0, -1);
    assert_eq!((p.rgb, p.alpha), (color_black(), 0));
}

#[test]
fn weighted_sum_without_division() {
    // white at half opacity over white: every channel weighted by 255 keeps its low bits
    let c = add_alpha_color(Color565 { value: 0xFFFF }, TransparentRGB565 { rgb: Color565 { value: 0xFFFF }, alpha: 128 });
    assert_eq!(c.value, 2048 + 32 + 1);
    let c = add_alpha_color(RED, TransparentRGB565 { rgb: GREEN, alpha: 0 });
    // alpha 0: (255 * 31) % 32 = 1 for red, nothing else
    assert_eq!(c.value, 2048);
}

#[test]
fn region_copy_into_a_frame() {
    let t = texture(&[R, G, G, R], 2, 2);
    let mut b = vec![color_black(); 16];
    draw_region(&t, Vector2 { x: 1, y: 1 }, Vector2 { x: 1, y: 0 }, 2, 2, &mut b, 4, 4);
    // texture column 1 lands on column 1, column 2 is outside the texture
    assert_eq!(b[1 + 4], GREEN);
    assert_eq!(b[1 + 8], RED);
    assert_eq!(b[2 + 4], color_black());
    assert_eq!(b.iter().filter(|c| **c != color_black()).count(), 2);
}

#[test]
fn region_copy_skips_pixels_off_the_frame() {
    let t = texture(&[R, G, G, R], 2, 2);
    let mut b = vec![color_black(); 4];
    draw_region(&t, Vector2 { x: -1, y: 1 }, Vector2 { x: 0, y: 0 }, 2, 2, &mut b, 2, 2);
    assert_eq!(b, vec![color_black(), color_black(), GREEN, color_black()]);
}

#[test]
fn region_stretch_doubles_pixels() {
    let t = texture(&[R, G], 2, 1);
    let mut b = vec![color_black(); 4];
    draw_region_strech(&t, Vector2 { x: 0, y: 0 }, Vector2 { x: 0, y: 0 }, 2, 1, 4, 1, &mut b, 4, 1);
    assert_eq!(b, vec![RED, RED, GREEN, GREEN]);
}

#[test]
fn region_tile_repeats_pixels() {
    let t = texture(&[R, G], 2, 1);
    let mut b = vec![color_black(); 5];
    draw_region_tile(&t, Vector2 { x: 0, y: 0 }, Vector2 { x: 0, y: 0 }, 2, 1, 5, 1, &mut b, 5, 1);
    assert_eq!(b, vec![RED, GREEN, RED, GREEN, RED]);
}

#[test]
fn nine_parts_in_a_frame() {
    let t = texture(&[R, G, R, G, G, G, R, G, R], 3, 3);
    let mut b = vec![color_black(); 64];
    let info = DrawInfo { buffer_width: 8, buffer_height: 8, offset_x: 0, offset_y: 0 };
    nine_parts_rectangle(&t, Vector2 { x: 4, y: 4 }, 6, 6, NinePartsScaleMode::Stretch, &mut b, &info);
    let at = |x: usize, y: usize| b[x + 8 * y];
    assert_eq!(at(1, 1), RED);
    assert_eq!(at(6, 1), RED);
    assert_eq!(at(1, 6), RED);
    assert_eq!(at(6, 6), RED);
    for x in 2..6 {
        assert_eq!(at(x, 1), GREEN);
        assert_eq!(at(x, 6), GREEN);
        for y in 2..6 {
            assert_eq!(at(x, y), GREEN);
        }
    }
    assert_eq!(at(0, 0), color_black());
    assert_eq!(at(7, 7), color_black());
}

#[test]
fn nine_parts_off_the_frame_draws_nothing() {
    let t = texture(&[R, G, R, G, G, G, R, G, R], 3, 3);
    let mut b = vec![color_black(); 64];
    let info = DrawInfo { buffer_width: 8, buffer_height: 8, offset_x: 100, offset_y: 0 };
    nine_parts_rectangle(&t, Vector2 { x: 4, y: 4 }, 6, 6, NinePartsScaleMode::Tile, &mut b, &info);
    assert!(b.iter().all(|c| *c == color_black()));
}

#[test]
fn region_tile_restarts_each_row_and_wraps_rows_at_the_height() {
    // 2 × 2 texture: red green / green red; a 1 × 2 region shows the first column
    let t = texture(&[R, G, G, R], 2, 2);
    let mut b = vec![color_black(); 2];
    draw_region_tile(&t, Vector2 { x: 0, y: 0 }, Vector2 { x: 0, y: 0 }, 2, 2, 1, 2, &mut b, 1, 2);
    assert_eq!(b, vec![RED, GREEN]);
}

#[test]
fn region_tile_repeats_in_both_directions() {
    // 2 × 1 block (transparent, green) over 3 × 3 cells: every row shows _ G _
    let t = texture(&[[0, 0, 0], G], 2, 1);
    let mut b = vec![color_black(); 9];
    draw_region_tile(&t, Vector2 { x: 0, y: 0 }, Vector2 { x: 0, y: 0 }, 2, 1, 3, 3, &mut b, 3, 3);
    for y in 0..3 {
        assert_eq!(b[3 * y], color_black());
        assert_eq!(b[3 * y + 1], GREEN);
        assert_eq!(b[3 * y + 2], color_black());
    }
}
