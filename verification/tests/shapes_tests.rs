use cutekit::color::{color_black, Color565};
use cutekit::draw_tools::shapes::{
    blend_pixel, get_pixel, put_horizontal_line, put_horizontal_line_smooth, put_pixel, rectangle,
};

const RED: Color565 = Color565 { value: 0xF800 };
const GREEN: Color565 = Color565 { value: 0x07E0 };

fn frame(w: usize, h: usize) -> Vec<Color565> {
    vec![color_black(); w * h]
}

#[test]
fn put_pixel_writes_only_its_pixel() {
    let mut b = frame(4, 3);
    put_pixel(&mut b, 4, 3, 1, 2, RED);
    for i in 0..12 {
        if i == 9 {
            assert_eq!(b[i], RED);
        } else {
            assert_eq!(b[i], color_black());
        }
    }
}

#[test]
fn put_pixel_outside_does_nothing() {
    let mut b = frame(4, 3);
    put_pixel(&mut b, 4, 3, 4, 0, RED);
    put_pixel(&mut b, 4, 3, -1, 0, RED);
    put_pixel(&mut b, 4, 3, 0, 3, RED);
    put_pixel(&mut b, 4, 3, 0, -1, RED);
    assert!(b.iter().all(|c| *c == color_black()));
}

#[test]
fn get_pixel_reads_back_what_was_written() {
    let mut b = frame(4, 3);
    put_pixel(&mut b, 4, 3, 3, 1, GREEN);
    assert_eq!(get_pixel(&mut b, 4, 3, 3, 1), GREEN);
    assert_eq!(get_pixel(&mut b, 4, 3, 2, 1), color_black());
}

#[test]
fn get_pixel_outside_is_black() {
    let mut b = vec![RED; 12];
    assert_eq!(get_pixel(&mut b, 4, 3, -1, 0), color_black());
    assert_eq!(get_pixel(&mut b, 4, 3, 0, 3), color_black());
    assert_eq!(get_pixel(&mut b, 4, 3, 0, 0), RED);
}

#[test]
fn horizontal_line_clipped_at_the_left() {
    let mut b = frame(4, 3);
    put_horizontal_line(1, -1, 3, &mut b, 4, 3, RED);
    let expected: Vec<usize> = vec![4, 5];
    for i in 0..12 {
        assert_eq!(b[i] == RED, expected.contains(&i), "entry {}", i);
    }
}

#[test]
fn rectangle_clipped_to_the_frame() {
    let mut b = frame(4, 3);
    rectangle(1, 1, 2, 5, &mut b, 4, 3, RED);
    let expected: Vec<usize> = vec![5, 6, 9, 10];
    for i in 0..12 {
        assert_eq!(b[i] == RED, expected.contains(&i), "entry {}", i);
    }
}

#[test]
fn rectangle_painted_twice_is_painted_once() {
    let mut once = frame(4, 3);
    rectangle(0, 1, 3, 1, &mut once, 4, 3, GREEN);
    let mut twice = once.clone();
    rectangle(0, 1, 3, 1, &mut twice, 4, 3, GREEN);
    assert_eq!(once, twice);
}

#[test]
fn blend_pixel_mixes_with_current_colour() {
    let mut b = frame(2, 1);
    blend_pixel(&mut b, 2, 1, 1, 0, Color565 { value: 0xFFFF });
    assert_eq!(b[1].value, (15 << 11) | (31 << 5) | 15);
    assert_eq!(b[0], color_black());
}

#[test]
fn smooth_line_blends_its_ends() {
    let mut b = frame(4, 1);
    put_horizontal_line_smooth(0, 1, 2, &mut b, 4, 1, Color565 { value: 0xFFFF });
    assert_eq!(b[1].value, 0xFFFF);
    assert_eq!(b[2].value, 0xFFFF);
    assert_eq!(b[0].value, (15 << 11) | (31 << 5) | 15);
    assert_eq!(b[3].value, (15 << 11) | (31 << 5) | 15);
}
