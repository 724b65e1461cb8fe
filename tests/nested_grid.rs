use grid_layouts::grid2::Grid;
use grid_layouts::GridImpl;

#[test]
fn nested_from_data_shape_and_get() {
    let g = Grid::from_data(vec![vec![1, 2], vec![3, 4], vec![5, 6]]);
    assert_eq!(g.width(), 2);
    assert_eq!(g.height(), 3);
    assert_eq!(g.get(1, 2), Some(&6));
    assert_eq!(g.get(2, 2), None);
    assert_eq!(g.get(0, 3), None);
}

#[test]
fn nested_new_is_default_filled() {
    let g: Grid<usize> = Grid::new(4, 3);
    assert_eq!(g.width(), 4);
    assert_eq!(g.height(), 3);
    for y in 0..3 {
        assert_eq!(g.row(y), &[0, 0, 0, 0]);
    }
    assert_eq!(g.get(3, 2), Some(&0));
    assert_eq!(g.get(4, 2), None);
    assert_eq!(g.get(3, 3), None);
}

#[test]
fn nested_set_then_get() {
    let mut g: Grid<usize> = Grid::new(3, 2);
    *g.get_mut(2, 1).unwrap() = 9;
    assert_eq!(g.get(2, 1), Some(&9));
    assert_eq!(g.get(1, 1), Some(&0));
    assert!(g.get_mut(3, 1).is_none());
    assert!(g.get_mut(0, 2).is_none());
}

#[test]
fn nested_row_mut_then_get() {
    let mut g = Grid::from_data(vec![vec![1, 2], vec![3, 4]]);
    g.row_mut(0)[1] = 20;
    assert_eq!(g.get(1, 0), Some(&20));
    assert_eq!(g.row(0).len(), g.width());
}

#[test]
fn nested_rows_in_order_and_restartable() {
    let g = Grid::from_data(vec![vec![1, 2], vec![3, 4], vec![5, 6]]);
    let a = g.rows();
    assert_eq!(a.len(), 3);
    assert_eq!(a[0], &[1, 2]);
    assert_eq!(a[2], &[5, 6]);
    assert!(a.iter().all(|r| r.len() == 2));
    assert_eq!(a, g.rows());
}

#[test]
fn nested_unchecked_access() {
    let mut g = Grid::from_data(vec![vec![1, 2], vec![3, 4]]);
    assert_eq!(*g.get_unchecked(0, 1), 3);
    *g.get_unchecked_mut(0, 1) = 30;
    assert_eq!(g.get(0, 1), Some(&30));
}
