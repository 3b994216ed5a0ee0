use gristmill::units::{
    floor_to_pixel, half, quarter, round_to_pixel, sat_add, sat_sub, saturate, scale,
    three_quarters, to_pixels, to_units, UNITS_PER_PIXEL,
};

#[test]
fn a_pixel_has_64_units() {
    assert_eq!(UNITS_PER_PIXEL, 64);
    assert_eq!(to_units(3), 192);
    assert_eq!(to_units(-3), -192);
    assert_eq!(to_pixels(192), 3);
    assert_eq!(to_pixels(191), 2);
    assert_eq!(to_pixels(-1), -1);
    assert_eq!(to_pixels(-64), -1);
    assert_eq!(to_pixels(-65), -2);
}

#[test]
fn sums_stop_at_the_ends_of_the_range() {
    assert_eq!(saturate(5), 5);
    assert_eq!(saturate(i64::MAX), i32::MAX);
    assert_eq!(saturate(i64::MIN), i32::MIN);
    assert_eq!(sat_add(1, 2), 3);
    assert_eq!(sat_add(i32::MAX, 1), i32::MAX);
    assert_eq!(sat_add(i32::MIN, -1), i32::MIN);
    assert_eq!(sat_sub(1, 2), -1);
    assert_eq!(sat_sub(i32::MIN, 1), i32::MIN);
    assert_eq!(sat_sub(0, i32::MIN), i32::MAX);
    assert_eq!(to_units(i32::MAX), i32::MAX);
    assert_eq!(to_units(i32::MIN), i32::MIN);
}

#[test]
fn parts_are_rounded_down() {
    assert_eq!(half(7), 3);
    assert_eq!(half(-7), -4);
    assert_eq!(half(-8), -4);
    assert_eq!(half(i32::MIN), i32::MIN / 2);
    assert_eq!(quarter(7), 1);
    assert_eq!(quarter(-1), -1);
    assert_eq!(quarter(-4), -1);
    assert_eq!(quarter(-5), -2);
    assert_eq!(three_quarters(10), 7);
    assert_eq!(three_quarters(-1), -1);
    assert_eq!(three_quarters(-4), -3);
    assert_eq!(three_quarters(i32::MAX), 1610612735);
}

#[test]
fn scale_multiplies_by_sixty_fourths() {
    assert_eq!(scale(100, 64), 100);
    assert_eq!(scale(100, 96), 150);
    assert_eq!(scale(100, 32), 50);
    assert_eq!(scale(1, 32), 0);
    assert_eq!(scale(-1, 32), -1);
    assert_eq!(scale(100, -64), -100);
    assert_eq!(scale(i32::MAX, i32::MAX), i32::MAX);
    assert_eq!(scale(i32::MIN, i32::MAX), i32::MIN);
    assert_eq!(scale(i32::MIN, i32::MIN), i32::MAX);
}

#[test]
fn positions_round_to_the_nearest_pixel() {
    assert_eq!(round_to_pixel(0), 0);
    assert_eq!(round_to_pixel(31), 0);
    assert_eq!(round_to_pixel(32), 64);
    assert_eq!(round_to_pixel(95), 64);
    assert_eq!(round_to_pixel(96), 128);
    assert_eq!(round_to_pixel(-31), 0);
    assert_eq!(round_to_pixel(-32), -64);
    assert_eq!(round_to_pixel(-96), -128);
    assert_eq!(round_to_pixel(i32::MAX), i32::MAX);
    assert_eq!(round_to_pixel(i32::MIN), i32::MIN);
}

#[test]
fn sizes_are_cut_down_to_pixels() {
    assert_eq!(floor_to_pixel(0), 0);
    assert_eq!(floor_to_pixel(63), 0);
    assert_eq!(floor_to_pixel(64), 64);
    assert_eq!(floor_to_pixel(127), 64);
    assert_eq!(floor_to_pixel(-1), -64);
    assert_eq!(floor_to_pixel(i32::MIN), i32::MIN);
}

#[test]
fn snapped_box_does_not_reach_past_its_rounded_edge() {
    for position in -200..200 {
        for size in 0..200 {
            assert!(
                round_to_pixel(position) + floor_to_pixel(size) <= round_to_pixel(position + size)
            );
        }
    }
}
