use grid_layouts::grid1::Grid;
use grid_layouts::GridImpl;

#[test]
fn flat_new_is_default_filled() {
    let g: Grid<usize> = Grid::new(4, 3);
    assert_eq!(g.width(), 4);
    assert_eq!(g.height(), 3);
    assert_eq!(g.as_slice().len(), 12);
    assert!(g.as_slice().iter().all(|v| *v == 0));
    assert_eq!(g.get(3, 2), Some(&0));
    assert_eq!(g.get(4, 2), None);
    assert_eq!(g.get(3, 3), None);
}

#[test]
fn flat_set_then_get() {
    let mut g: Grid<usize> = Grid::new(5, 4);
    *g.get_mut(2, 3).unwrap() = 42;
    assert_eq!(g.get(2, 3), Some(&42));
    assert_eq!(g.as_slice()[3 * 5 + 2], 42);
    assert_eq!(g.get(3, 2), Some(&0));
}

#[test]
fn flat_out_of_bounds_is_none() {
    let mut g: Grid<u8> = Grid::new(2, 2);
    assert_eq!(g.get(2, 0), None);
    assert_eq!(g.get(0, 2), None);
    assert_eq!(g.get(usize::MAX, usize::MAX), None);
    assert!(g.get_mut(2, 1).is_none());
}

#[test]
fn flat_from_data_row_major() {
    let g = Grid::from_data(3, 2, vec![1, 2, 3, 4, 5, 6]);
    assert_eq!(g.get(0, 1), Some(&4));
    assert_eq!(g.get(2, 0), Some(&3));
    assert_eq!(*g.get_unchecked(1, 1), 5);
    assert_eq!(g.row(0), &[1, 2, 3]);
    assert_eq!(g.row(1), &[4, 5, 6]);
}

#[test]
fn flat_rows_have_width() {
    let g = Grid::from_data(3, 2, vec![1, 2, 3, 4, 5, 6]);
    for y in 0..g.height() {
        assert_eq!(g.row(y).len(), g.width());
    }
}

#[test]
fn flat_row_mut_then_get() {
    let mut g = Grid::from_data(3, 2, vec![1, 2, 3, 4, 5, 6]);
    g.row_mut(1)[2] = 60;
    assert_eq!(g.get(2, 1), Some(&60));
    assert_eq!(g.get(2, 0), Some(&3));
}

#[test]
fn flat_rows_in_order_and_restartable() {
    let g = Grid::from_data(2, 3, vec![1, 2, 3, 4, 5, 6]);
    let a = g.rows();
    assert_eq!(a.len(), 3);
    assert_eq!(a[0], &[1, 2]);
    assert_eq!(a[1], &[3, 4]);
    assert_eq!(a[2], &[5, 6]);
    let b = g.rows();
    assert_eq!(a, b);
}

#[test]
fn flat_unchecked_and_slice_writes() {
    let mut g: Grid<i32> = Grid::new(3, 3);
    *g.get_unchecked_mut(1, 2) = 7;
    assert_eq!(g.get(1, 2), Some(&7));
    g.as_mut_slice()[0] = -1;
    assert_eq!(g.get(0, 0), Some(&-1));
}

#[test]
fn flat_empty_grid() {
    let g: Grid<u32> = Grid::new(0, 0);
    assert_eq!(g.as_slice().len(), 0);
    assert_eq!(g.get(0, 0), None);
    assert!(g.rows().is_empty());
}
