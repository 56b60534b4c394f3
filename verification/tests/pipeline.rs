use fatou::{array_to_grayscale, fatou_grid, FractalError, Point};
use num_complex::Complex32;

fn mandelbrot(z: Point<f32>, c: Point<f32>) -> Point<f32> {
    let next = Complex32::new(z.re, z.im) * Complex32::new(z.re, z.im) + Complex32::new(c.re, c.im);
    Point { re: next.re, im: next.im }
}

fn beyond(radius: f32) -> impl Fn(Point<f32>) -> bool {
    move |z: Point<f32>| Complex32::new(z.re, z.im).norm() > radius
}

fn zero() -> Point<f32> {
    Point { re: 0.0, im: 0.0 }
}

#[test]
fn picture_of_three_columns() {
    let g = fatou_grid(&[-2.0f32, 0.0, 2.0], &[0.0f32], zero(), mandelbrot, beyond(2.0), 10)
        .ok()
        .unwrap();
    assert_eq!(g.shape(), (1, 3));
    assert_eq!(g.cell(0, 0), Some(255));
    assert_eq!(g.cell(0, 1), Some(255));
    assert_eq!(g.cell(0, 2), Some(25));
}

#[test]
fn picture_goes_all_the_way_to_a_raster() {
    let x = [-2.0f32, 0.0, 1.0, 3.0];
    let y = [0.0f32, 2.5];
    let g = fatou_grid(&x, &y, zero(), mandelbrot, beyond(2.0), 10).ok().unwrap();
    assert_eq!(g.shape(), (2, 4));
    assert!(g.is_standard_layout());
    let raster = array_to_grayscale(g).ok().unwrap();
    assert_eq!(raster.dimensions(), (4, 2));
    assert_eq!(raster.into_samples(), vec![255, 255, 51, 0, 0, 0, 0, 0]);
}

#[test]
fn picture_refuses_an_empty_range_first() {
    let none: [f32; 0] = [];
    for max_iter in [0u32, 10] {
        let r = fatou_grid(&none, &[0.0f32], zero(), mandelbrot, beyond(2.0), max_iter);
        assert_eq!(r.err(), Some(FractalError::InvalidDomain));
    }
}

#[test]
fn picture_refuses_a_zero_budget() {
    let r = fatou_grid(&[0.0f32], &[0.0f32], zero(), mandelbrot, beyond(2.0), 0);
    assert_eq!(r.err(), Some(FractalError::InvalidParameter));
}
