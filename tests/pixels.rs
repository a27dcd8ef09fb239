use video_to_ascii::glyph::get_ascii;
use video_to_ascii::intensity::calculate_intensity;

fn brightness(r: u8, g: u8, b: u8) -> u8 {
    calculate_intensity((&r, &g, &b, &0))
}

#[test]
fn intensity_of_primaries() {
    assert_eq!(brightness(0, 0, 0), 0);
    assert_eq!(brightness(255, 0, 0), 125);
    assert_eq!(brightness(0, 255, 0), 211);
    assert_eq!(brightness(0, 0, 255), 66);
    assert_eq!(brightness(255, 255, 255), 255);
}

#[test]
fn intensity_ignores_fourth_channel() {
    assert_eq!(calculate_intensity((&10, &20, &30, &0)), calculate_intensity((&10, &20, &30, &255)));
}

#[test]
fn intensity_weights_green_highest() {
    assert!(brightness(0, 100, 0) > brightness(100, 0, 0));
    assert!(brightness(100, 0, 0) > brightness(0, 0, 100));
    assert_eq!(brightness(100, 100, 100), 100);
}

#[test]
fn intensity_stays_in_range() {
    for r in (0..=255u32).step_by(17) {
        for g in (0..=255u32).step_by(5) {
            for b in (0..=255u32).step_by(15) {
                let v = brightness(r as u8, g as u8, b as u8) as u32;
                assert!(v <= 255);
            }
        }
    }
}

#[test]
fn intensity_rises_with_each_channel() {
    for base in [0u8, 40, 128, 200, 255] {
        let mut prev = (0u8, 0u8, 0u8);
        for c in 0..=255u8 {
            let now = (brightness(c, base, base), brightness(base, c, base), brightness(base, base, c));
            if c > 0 {
                assert!(now.0 >= prev.0 && now.1 >= prev.1 && now.2 >= prev.2);
            }
            prev = now;
        }
    }
}

#[test]
fn glyph_ends_of_ramp() {
    assert_eq!(get_ascii(0), " ");
    assert_eq!(get_ascii(255), "#");
}

#[test]
fn glyph_bucket_edges() {
    assert_eq!(get_ascii(14), " ");
    assert_eq!(get_ascii(15), ".");
    assert_eq!(get_ascii(125), "g");
    assert_eq!(get_ascii(239), "$");
    assert_eq!(get_ascii(240), "#");
}

#[test]
fn glyph_always_on_ramp() {
    let ramp = " .~+=rcagxCABM%$#";
    for i in 0..=255u8 {
        let g = get_ascii(i);
        assert_eq!(g.chars().count(), 1);
        assert!(ramp.contains(g));
    }
}
