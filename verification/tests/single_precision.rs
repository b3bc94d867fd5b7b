use moonlight_bridge::normalize::{normalize_vector, scale_component};

/// The transform as the floating-point unit evaluates it.
fn reference(x: u8, y: u8, z: u8) -> (u8, u8, u8) {
    let (fx, fy, fz) = (x as f32, y as f32, z as f32);
    let len_sq = fx * fx + fy * fy + fz * fz;
    let (nx, ny, nz) = if len_sq > 0.0 {
        let len = len_sq.sqrt();
        (fx / len, fy / len, fz / len)
    } else {
        (fx, fy, fz)
    };
    (
        (nx * 100.0 + 100.0) as u8,
        (ny * 100.0 + 100.0) as u8,
        (nz * 100.0 + 100.0) as u8,
    )
}

fn compare_slab(first: u8, last: u8) {
    for x in first..=last {
        for y in 0..=255u8 {
            for z in y..=255u8 {
                assert_eq!(normalize_vector(x, y, z), reference(x, y, z), "({x},{y},{z})");
            }
        }
    }
}

#[test]
fn agrees_with_floating_point_on_x_0_to_31() {
    compare_slab(0, 31);
}

#[test]
fn agrees_with_floating_point_on_x_32_to_63() {
    compare_slab(32, 63);
}

#[test]
fn agrees_with_floating_point_on_x_64_to_95() {
    compare_slab(64, 95);
}

#[test]
fn agrees_with_floating_point_on_x_96_to_127() {
    compare_slab(96, 127);
}

#[test]
fn agrees_with_floating_point_on_x_128_to_159() {
    compare_slab(128, 159);
}

#[test]
fn agrees_with_floating_point_on_x_160_to_191() {
    compare_slab(160, 191);
}

#[test]
fn agrees_with_floating_point_on_x_192_to_223() {
    compare_slab(192, 223);
}

#[test]
fn agrees_with_floating_point_on_x_224_to_255() {
    compare_slab(224, 255);
}

#[test]
fn floating_point_rounds_up_where_exact_arithmetic_would_not() {
    // 100 * 47 / sqrt(47*47 + 130*130) is 33.999997: single precision gives 34.
    assert_eq!(normalize_vector(47, 0, 130), (134, 100, 194));
    assert_eq!(normalize_vector(7, 113, 105), (104, 173, 168));
    assert_eq!(scale_component(47, 47 * 47 + 130 * 130), 134);
}

#[test]
fn components_stay_between_100_and_200() {
    for x in (0..=255u8).step_by(3) {
        for y in (0..=255u8).step_by(5) {
            for z in (0..=255u8).step_by(7) {
                let (a, b, c) = normalize_vector(x, y, z);
                assert!((100..=200).contains(&a), "({x},{y},{z})");
                assert!((100..=200).contains(&b), "({x},{y},{z})");
                assert!((100..=200).contains(&c), "({x},{y},{z})");
            }
        }
    }
    assert_eq!(normalize_vector(255, 255, 255), (157, 157, 157));
    assert_eq!(normalize_vector(1, 0, 0), (200, 100, 100));
    assert_eq!(normalize_vector(1, 255, 255), (100, 170, 170));
}
