use raytracer::texture::checker_is_even;

fn cell(p: f64, scale: f64) -> i32 {
    ((1.0 / scale) * p).floor() as i32
}

#[test]
fn checker_adjacent_cells_take_both_colors() {
    let scale = 0.32;
    let at_origin = checker_is_even(cell(0.0, scale), cell(0.0, scale), cell(0.0, scale));
    let one_over = checker_is_even(cell(0.32, scale), cell(0.0, scale), cell(0.0, scale));
    assert!(at_origin);
    assert!(!one_over);
}

#[test]
fn checker_parity_of_negative_cells() {
    assert!(!checker_is_even(-1, 0, 0));
    assert!(checker_is_even(-1, -1, 0));
    assert!(checker_is_even(-3, 2, 1));
    assert!(!checker_is_even(i32::MIN, i32::MIN, -1));
    assert!(checker_is_even(i32::MAX, i32::MAX, 0));
}
