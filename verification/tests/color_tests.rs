use cutekit::color::{color_black, color_white, Color565};
use cutekit::draw_tools::shapes::mix_colors;

#[test]
fn new_packs_channels() {
    assert_eq!(Color565::new(31, 63, 31).value, 0xFFFF);
    assert_eq!(Color565::new(1, 0, 0).value, 2048);
    assert_eq!(Color565::new(0, 1, 0).value, 32);
    assert_eq!(Color565::new(0, 0, 1).value, 1);
    assert_eq!(Color565::new(0, 0, 0).value, 0);
}

#[test]
fn new_keeps_low_bits_of_each_channel() {
    assert_eq!(Color565::new(32, 64, 32).value, 0);
    assert_eq!(Color565::new(33, 65, 33).value, 2048 + 32 + 1);
    assert_eq!(Color565::new(0xffff, 0, 0).value, 0xF800);
}

#[test]
fn get_components_reads_channels() {
    assert_eq!(Color565 { value: 0xF800 }.get_components(), (31, 0, 0));
    assert_eq!(Color565 { value: 0x07E0 }.get_components(), (0, 63, 0));
    assert_eq!(Color565 { value: 0x001F }.get_components(), (0, 0, 31));
    assert_eq!(Color565 { value: 2081 }.get_components(), (1, 1, 1));
}

#[test]
fn components_roundtrip() {
    for v in [0u16, 1, 31, 32, 2047, 2048, 0x1234, 0xBEEF, 0xFFFF] {
        let c = Color565 { value: v };
        let (r, g, b) = c.get_components();
        assert_eq!(Color565::new(r, g, b), c);
    }
}

#[test]
fn components_of_new_are_cut_channels() {
    let c = Color565::new(40, 70, 100);
    assert_eq!(c.get_components(), (40 % 32, 70 % 64, 100 % 32));
}

#[test]
fn black_and_white() {
    assert_eq!(color_black().value, 0);
    assert_eq!(color_white().value, 0xFFFF);
}

#[test]
fn mix_laws_on_values() {
    let a = Color565 { value: 0x1234 };
    let b = Color565 { value: 0xBEEF };
    assert_eq!(mix_colors(a, a), a);
    assert_eq!(mix_colors(a, b), mix_colors(b, a));
    // white and black: each channel halved, rounded down
    assert_eq!(mix_colors(color_white(), color_black()).value, (15 << 11) | (31 << 5) | 15);
}
