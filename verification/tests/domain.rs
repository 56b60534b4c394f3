use fatou::{build_grid, FractalError, Point};

fn same(p: Option<Point<f32>>, re: f32, im: f32) -> bool {
    match p {
        Some(p) => p.re == re && p.im == im,
        None => false,
    }
}

#[test]
fn grid_pairs_every_x_with_every_y() {
    let x = [-2.0f32, 0.0, 2.0];
    let y = [10.0f32, 20.0];
    let grid = build_grid(&x, &y).ok().unwrap();
    assert_eq!(grid.shape(), (2, 3));
    assert_eq!(grid.points().len(), 6);
    for i in 0..2 {
        for j in 0..3 {
            assert!(same(grid.point(i, j), x[j], y[i]));
            let p = grid.points()[i * 3 + j];
            assert!(p.re == x[j] && p.im == y[i]);
        }
    }
    assert!(grid.point(2, 0).is_none());
    assert!(grid.point(0, 3).is_none());
}

#[test]
fn ranges_need_not_be_monotonic() {
    let grid = build_grid(&[5u8, 1, 3], &[9u8, 2]).ok().unwrap();
    let p = grid.point(1, 0).unwrap();
    assert_eq!((p.re, p.im), (5, 2));
    let p = grid.point(0, 2).unwrap();
    assert_eq!((p.re, p.im), (3, 9));
}

#[test]
fn single_point_domain() {
    let grid = build_grid(&[1.5f32], &[-0.5f32]).ok().unwrap();
    assert_eq!(grid.shape(), (1, 1));
    assert!(same(grid.point(0, 0), 1.5, -0.5));
}

#[test]
fn empty_range_is_an_invalid_domain() {
    let none: [f32; 0] = [];
    assert_eq!(build_grid(&none, &[0.0f32]).err(), Some(FractalError::InvalidDomain));
    assert_eq!(build_grid(&[0.0f32], &none).err(), Some(FractalError::InvalidDomain));
    assert_eq!(build_grid(&none, &none).err(), Some(FractalError::InvalidDomain));
}
