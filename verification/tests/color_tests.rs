use raytracer::color::{from_hex_value, to_hex_value, Color};

#[test]
fn test_multiply_by_negative() {
    let color = Color::new(5, 100, 1);
    let factor = -1.5;

    let Color { r, g, b } = color.multiply((factor * 1000.0) as i64);

    assert_eq!(r, 0);
    assert_eq!(g, 0);
    assert_eq!(b, 0);
}

#[test]
fn test_multiply_by_large_number() {
    let color = Color::new(255, 100, 1);
    let factor = 100000.0;

    let Color { r, g, b } = color.multiply((factor * 1000.0) as i64);

    assert_eq!(r, 255);
    assert_eq!(g, 255);
    assert_eq!(b, 255);
}

#[test]
fn test_multiply_exact_value() {
    let color = Color::new(10, 20, 30);

    let Color { r, g, b } = color.multiply(1500);

    assert_eq!(r, 15);
    assert_eq!(g, 30);
    assert_eq!(b, 45);
}

#[test]
fn test_multiply_rounds_to_nearest() {
    // 1 * 0.5 rounds up to 1; 1 * 0.4 rounds down to 0.
    let color = Color::new(1, 1, 1);

    let half = color.multiply(500);
    assert_eq!(half.r, 1);

    let low = color.multiply(400);
    assert_eq!(low.r, 0);
}

#[test]
fn test_multiply_by_zero_is_black() {
    let color = Color::new(200, 17, 255);
    let black = color.multiply(0);
    assert_eq!(black, Color::black());
}

#[test]
fn test_hex_round_trip() {
    for v in [0u32, 1, 0xFF, 0x123456, 0xABCDEF, 0xFFFFFF] {
        let c = from_hex_value(&v);
        assert_eq!(to_hex_value(&c), v);
    }
}

#[test]
fn test_from_hex_components() {
    let c = from_hex_value(&0x123456);
    assert_eq!(c.r, 0x12);
    assert_eq!(c.g, 0x34);
    assert_eq!(c.b, 0x56);
}

#[test]
fn test_to_hex_value_packs_channels() {
    let c = Color::new(0xAB, 0xCD, 0xEF);
    assert_eq!(to_hex_value(&c), 0xABCDEF);
    assert_eq!(to_hex_value(&Color::white()), 0xFFFFFF);
    assert_eq!(to_hex_value(&Color::black()), 0);
}

#[test]
fn test_add_saturates() {
    let c = Color::new(200, 200, 200).add(Color::new(100, 1, 55));
    assert_eq!(c, Color::new(255, 201, 255));
}

#[test]
fn test_sub_saturates() {
    let c = Color::new(10, 200, 0).sub(Color::new(100, 1, 55));
    assert_eq!(c, Color::new(0, 199, 0));
}
