use pixelflood::canvas::{mix, mix_in_place, Canvas};

#[test]
fn mix_full_alpha_paints_source() {
    assert_eq!(mix(17, 200, 255), 200);
    assert_eq!(mix(0, 0, 255), 0);
}

#[test]
fn mix_zero_alpha_keeps_destination() {
    assert_eq!(mix(17, 200, 0), 17);
    assert_eq!(mix(255, 0, 0), 255);
}

#[test]
fn mix_partial_alpha_stays_between_endpoints() {
    assert_eq!(mix(10, 20, 51), 12);
    for a in 1..255u32 {
        let m = mix(40, 200, a as u8);
        assert!((40..=200).contains(&m), "alpha {}: {}", a, m);
        let m = mix(200, 40, a as u8);
        assert!((40..=200).contains(&m), "alpha {}: {}", a, m);
    }
}

#[test]
fn mix_in_place_blends_word() {
    let mut cell: u32 = 0x00101010;
    mix_in_place(&mut cell, 0xff204060);
    assert_eq!(cell, 0x00204060);
    mix_in_place(&mut cell, 0x00ffffff);
    assert_eq!(cell, 0x00204060);
    let mut cell: u32 = 0x00000000;
    mix_in_place(&mut cell, 0x80ffffff);
    assert_eq!(cell, 0x00808080);
}

#[test]
fn canvas_full_overwrite_reads_back() {
    let mut canvas = Canvas::new(8, 8);
    canvas.blend_set(3, 5, 0xff123456);
    assert_eq!(canvas.get(3, 5), 0x00123456);
}

#[test]
fn canvas_zero_alpha_leaves_cell() {
    let mut canvas = Canvas::new(8, 8);
    canvas.blend_set(3, 5, 0xffabcdef);
    let before = canvas.get(3, 5);
    canvas.blend_set(3, 5, 0x00123456);
    assert_eq!(canvas.get(3, 5), before);
}

#[test]
fn canvas_blend_touches_one_cell_only() {
    let mut canvas = Canvas::new(4, 4);
    let mut others = Vec::new();
    for y in 0..4 {
        for x in 0..4 {
            if (x, y) != (1, 2) {
                others.push(canvas.get(x, y));
            }
        }
    }
    canvas.blend_set(1, 2, 0xffffffff);
    let mut i = 0;
    for y in 0..4 {
        for x in 0..4 {
            if (x, y) != (1, 2) {
                assert_eq!(canvas.get(x, y), others[i]);
                i += 1;
            }
        }
    }
    assert_eq!(canvas.get(1, 2), 0x00ffffff);
}

#[test]
fn canvas_starts_with_coordinate_pattern() {
    let canvas = Canvas::new(640, 480);
    assert_eq!(canvas.get(0, 0), 0);
    assert_eq!(canvas.get(5, 0), 5);
    assert_eq!(canvas.get(0, 1), 64);
    assert_eq!(canvas.get(3, 2), (3 ^ (2 << 6)) as u32);
}
