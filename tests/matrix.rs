use scene_engine::matrix::transpose;

fn sample() -> [f32; 16] {
    let mut m = [0.0f32; 16];
    for (k, v) in m.iter_mut().enumerate() {
        *v = k as f32 + 0.5;
    }
    m
}

#[test]
fn transpose_swaps_rows_and_columns() {
    let m = sample();
    let t = transpose(m);
    for row in 0..4 {
        for col in 0..4 {
            assert_eq!(t[4 * row + col], m[4 * col + row]);
        }
    }
    assert_eq!(t[1], 4.5);
    assert_eq!(t[4], 1.5);
    assert_eq!(t[0], m[0]);
    assert_eq!(t[15], m[15]);
}

#[test]
fn transpose_twice_is_identity_exactly() {
    let m = [
        1.0f32, -2.25, 3.5, 0.0, 1e-7, 5.0, -6.0, 7.0, 8.0, 9.5, -10.0, 11.0, 12.0, 13.0, 14.0,
        f32::MAX,
    ];
    assert_eq!(transpose(transpose(m)), m);
}

#[test]
fn transpose_of_translation_moves_offsets_to_last_column() {
    let translation = [
        1.0f32, 0.0, 0.0, 0.0, 0.0, 1.0, 0.0, 0.0, 0.0, 0.0, 1.0, 0.0, 2.0, 3.0, 4.0, 1.0,
    ];
    let t = transpose(translation);
    assert_eq!(
        t,
        [1.0, 0.0, 0.0, 2.0, 0.0, 1.0, 0.0, 3.0, 0.0, 0.0, 1.0, 4.0, 0.0, 0.0, 0.0, 1.0]
    );
}
