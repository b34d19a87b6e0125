use learnopengl::sphere::sphere_strip_indices;

#[test]
fn small_sphere_zig_zags_over_rows() {
    assert_eq!(sphere_strip_indices(2, 2), vec![0, 3, 1, 4, 2, 5, 8, 5, 7, 4, 6, 3]);
}

#[test]
fn sample_sphere_indices_stay_in_grid() {
    let indices = sphere_strip_indices(64, 64);
    assert_eq!(indices.len(), 2 * 65 * 64);
    assert!(indices.iter().all(|&i| i < 65 * 65));
    assert_eq!(&indices[..4], &[0, 65, 1, 66]);
    assert_eq!(&indices[130..134], &[194, 129, 193, 128]);
}

#[test]
fn no_rows_no_indices() {
    assert!(sphere_strip_indices(5, 0).is_empty());
    assert_eq!(sphere_strip_indices(0, 1), vec![0, 1]);
}
