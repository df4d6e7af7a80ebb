use raytracer::color::Color;
use raytracer::render::{depth_exceeds_cap, sky_color};

#[test]
fn test_depth_cap_admits_four_bounces() {
    // Depths 0 through 3 are traced; depth 4 and beyond fall back to the
    // sky color, so a fully mirrored scene terminates after four bounces.
    for depth in 0..4u32 {
        assert!(!depth_exceeds_cap(depth));
    }
    assert!(depth_exceeds_cap(4));
    assert!(depth_exceeds_cap(100));
}

#[test]
fn test_sky_color_is_mid_gray() {
    assert_eq!(sky_color(), Color::new(0x38, 0x38, 0x38));
}
