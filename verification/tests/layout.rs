use ocelotl::layout::transpose_2d;

#[test]
fn transpose_2d_matches_hand_written_result() {
    let src = [1.0_f32, 2.0, 3.0, 4.0, 5.0, 6.0];
    assert_eq!(transpose_2d(&src, 2, 3), vec![1.0, 4.0, 2.0, 5.0, 3.0, 6.0]);
}

#[test]
fn transpose_2d_is_an_involution_on_the_swapped_shape() {
    let src: Vec<f32> = (0..12).map(|v| v as f32).collect();
    let once = transpose_2d(&src, 3, 4);
    assert_eq!(transpose_2d(&once, 4, 3), src);
}

#[test]
fn transpose_2d_handles_degenerate_shapes() {
    let src = [7.0_f32];
    assert_eq!(transpose_2d(&src, 1, 1), vec![7.0]);
    let row = [1.0_f32, 2.0, 3.0];
    assert_eq!(transpose_2d(&row, 1, 3), vec![1.0, 2.0, 3.0]);
}
