use fatou::{array_to_grayscale, FractalError, IntensityGrid};

#[test]
fn raster_has_the_width_and_height_of_the_grid() {
    let cells = [1u8, 2, 3, 4, 5, 6];
    let grid = IntensityGrid::from_cells(2, 3, &cells).ok().unwrap();
    let raster = array_to_grayscale(grid).ok().unwrap();
    assert_eq!(raster.dimensions(), (3, 2));
    let samples = raster.into_samples();
    assert_eq!(samples.len(), 3 * 2);
    assert_eq!(samples, vec![1, 2, 3, 4, 5, 6]);
}

#[test]
fn tall_raster_keeps_rows_apart() {
    let cells = [10u8, 20, 30, 40];
    let grid = IntensityGrid::from_cells(4, 1, &cells).ok().unwrap();
    let raster = array_to_grayscale(grid).ok().unwrap();
    assert_eq!(raster.dimensions(), (1, 4));
    assert_eq!(raster.into_samples(), vec![10, 20, 30, 40]);
}

#[test]
fn samples_decode_as_the_same_image() {
    let cells = [0u8, 64, 128, 255, 1, 2];
    let grid = IntensityGrid::from_cells(3, 2, &cells).ok().unwrap();
    let raster = array_to_grayscale(grid).ok().unwrap();
    let (width, height) = raster.dimensions();
    let image = image::GrayImage::from_raw(width, height, raster.into_samples()).unwrap();
    for y in 0..3u32 {
        for x in 0..2u32 {
            assert_eq!(image.get_pixel(x, y).0[0], cells[(y * 2 + x) as usize]);
        }
    }
}

#[test]
fn grid_without_cells_is_an_invalid_input() {
    for (height, width) in [(0usize, 0usize), (0, 3), (3, 0)] {
        let grid = IntensityGrid::from_cells(height, width, &[]).ok().unwrap();
        assert_eq!(grid.shape(), (height, width));
        assert_eq!(grid.len(), 0);
        assert_eq!(array_to_grayscale(grid).err(), Some(FractalError::InvalidInput));
    }
}

#[test]
fn empty_grid_with_a_long_axis_is_still_an_invalid_input() {
    let too_long = u32::MAX as usize + 1;
    let grid = IntensityGrid::from_cells(0, too_long, &[]).ok().unwrap();
    assert_eq!(grid.shape(), (0, too_long));
    assert_eq!(array_to_grayscale(grid).err(), Some(FractalError::InvalidInput));
    let grid = IntensityGrid::from_cells(too_long, 0, &[]).ok().unwrap();
    assert_eq!(grid.shape(), (too_long, 0));
    assert_eq!(array_to_grayscale(grid).err(), Some(FractalError::InvalidInput));
}

#[test]
fn grids_made_here_are_in_standard_layout() {
    for (height, width) in [(0usize, 0usize), (0, 3), (3, 0), (1, 1), (1, 5), (5, 1), (3, 4)] {
        let cells = vec![7u8; height * width];
        let grid = IntensityGrid::from_cells(height, width, &cells).ok().unwrap();
        assert!(grid.is_standard_layout());
    }
}
