use fatou::escape::EscapeGrid;
use fatou::{array_to_grayscale, to_intensity, FractalError, IntensityGrid, IntensityMode};

fn levels(height: usize, width: usize, cells: Vec<u32>, max_iter: u32, mode: IntensityMode) -> Vec<u8> {
    let grid = EscapeGrid::from_cells(height, width, cells).ok().unwrap();
    let out = to_intensity(&grid, max_iter, mode).ok().unwrap();
    assert_eq!(out.shape(), (height, width));
    let mut seen = Vec::new();
    for i in 0..height {
        for j in 0..width {
            seen.push(out.cell(i, j).unwrap());
        }
    }
    seen
}

#[test]
fn linear_fixed_divides_by_the_budget() {
    let got = levels(2, 3, vec![0, 1, 5, 9, 10, 3], 10, IntensityMode::LinearFixed);
    assert_eq!(got, vec![0, 25, 127, 229, 255, 76]);
}

#[test]
fn linear_fixed_is_the_same_in_every_image() {
    let one = levels(1, 2, vec![7, 100], 100, IntensityMode::LinearFixed);
    let other = levels(1, 3, vec![7, 7, 2], 100, IntensityMode::LinearFixed);
    assert_eq!(one, vec![17, 255]);
    assert_eq!(other, vec![17, 17, 5]);
}

#[test]
fn linear_max_divides_by_the_largest_cell() {
    let got = levels(1, 4, vec![1, 2, 4, 0], 100, IntensityMode::LinearMax);
    assert_eq!(got, vec![63, 127, 255, 0]);
    let got = levels(2, 2, vec![3, 7, 7, 1], 10, IntensityMode::LinearMax);
    assert_eq!(got, vec![109, 255, 255, 36]);
}

#[test]
fn linear_max_flat_field_of_zeros_maps_to_zeros() {
    let got = levels(3, 2, vec![0; 6], 10, IntensityMode::LinearMax);
    assert_eq!(got, vec![0; 6]);
}

#[test]
fn linear_max_flat_field_maps_to_one_level() {
    for value in [1u32, 4, 10] {
        let got = levels(2, 2, vec![value; 4], 10, IntensityMode::LinearMax);
        assert_eq!(got, vec![255; 4]);
    }
}

#[test]
fn large_escape_times_do_not_overflow() {
    let top = u32::MAX;
    let got = levels(1, 3, vec![top, top / 2, 0], top, IntensityMode::LinearFixed);
    assert_eq!(got, vec![255, 127, 0]);
    let got = levels(1, 3, vec![top, top / 2, 0], top, IntensityMode::LinearMax);
    assert_eq!(got, vec![255, 127, 0]);
}

#[test]
fn gray_levels_keep_the_row_major_order() {
    let grid = EscapeGrid::from_cells(3, 2, vec![0, 2, 4, 6, 8, 10]).ok().unwrap();
    let out = to_intensity(&grid, 10, IntensityMode::LinearFixed).ok().unwrap();
    assert_eq!(out.shape(), (3, 2));
    assert_eq!(out.cell(0, 1), Some(51));
    assert_eq!(out.cell(1, 0), Some(102));
    assert_eq!(out.cell(2, 1), Some(255));
    assert_eq!(out.cell(3, 0), None);
    assert_eq!(out.cell(0, 2), None);
    assert!(out.is_standard_layout());
    let raster = array_to_grayscale(out).ok().unwrap();
    assert_eq!(raster.into_samples(), vec![0, 51, 102, 153, 204, 255]);
}

#[test]
fn zero_budget_is_refused_before_anything_else() {
    let empty = EscapeGrid::from_cells(0, 0, vec![]).ok().unwrap();
    for mode in [IntensityMode::LinearFixed, IntensityMode::LinearMax] {
        assert_eq!(to_intensity(&empty, 0, mode).err(), Some(FractalError::InvalidParameter));
    }
    let grid = EscapeGrid::from_cells(1, 1, vec![0]).ok().unwrap();
    assert_eq!(
        to_intensity(&grid, 0, IntensityMode::LinearFixed).err(),
        Some(FractalError::InvalidParameter)
    );
}

#[test]
fn empty_grid_is_an_invalid_input() {
    for (height, width) in [(0usize, 0usize), (0, 4), (4, 0)] {
        let empty = EscapeGrid::from_cells(height, width, vec![]).ok().unwrap();
        for mode in [IntensityMode::LinearFixed, IntensityMode::LinearMax] {
            assert_eq!(to_intensity(&empty, 10, mode).err(), Some(FractalError::InvalidInput));
        }
    }
}

#[test]
fn cell_beyond_the_budget_is_an_invalid_input() {
    let grid = EscapeGrid::from_cells(1, 3, vec![1, 11, 2]).ok().unwrap();
    for mode in [IntensityMode::LinearFixed, IntensityMode::LinearMax] {
        assert_eq!(to_intensity(&grid, 10, mode).err(), Some(FractalError::InvalidInput));
    }
}

#[test]
fn intensity_grid_from_cells_round_trips() {
    let cells = [9u8, 8, 7, 6, 5, 4, 3, 2];
    let grid = IntensityGrid::from_cells(2, 4, &cells).ok().unwrap();
    assert_eq!(grid.shape(), (2, 4));
    assert_eq!(grid.len(), 8);
    for i in 0..2 {
        for j in 0..4 {
            assert_eq!(grid.cell(i, j), Some(cells[i * 4 + j]));
        }
    }
    assert_eq!(grid.cell(2, 0), None);
    assert_eq!(
        IntensityGrid::from_cells(3, 3, &cells).err(),
        Some(FractalError::InvalidInput)
    );
    assert_eq!(
        IntensityGrid::from_cells(usize::MAX, 1, &[]).err(),
        Some(FractalError::InvalidInput)
    );
    assert_eq!(
        IntensityGrid::from_cells(usize::MAX, 0, &[]).err(),
        Some(FractalError::InvalidInput)
    );
    assert_eq!(
        IntensityGrid::from_cells(0, usize::MAX, &[]).err(),
        Some(FractalError::InvalidInput)
    );
}
