use grid_layouts::bench::{apply_workload, generate_dimensions, mean_time, n_coords, random_coords};
use grid_layouts::grid1::Grid as FlatGrid;
use grid_layouts::grid2::Grid as NestedGrid;
use grid_layouts::rng::Rng;
use grid_layouts::GridImpl;

#[test]
fn dimensions_for_exponent_eight() {
    let d = generate_dimensions(8..9);
    assert_eq!(d.len(), 12);
    assert!(d.contains(&(256, 256)));
    assert!(d.contains(&(384, 256)));
    assert!(d.contains(&(256, 384)));
    assert!(d.contains(&(320, 192)));
    assert!(d.contains(&(1024, 128)));
    assert_eq!(d[0], (256, 256));
    assert_eq!(d[11], (320, 192));
}

#[test]
fn dimensions_cover_each_exponent_in_order() {
    let d = generate_dimensions(8..15);
    assert_eq!(d.len(), 7 * 12);
    assert_eq!(d[12], (512, 512));
    assert_eq!(d[6 * 12], (16384, 16384));
    assert!(generate_dimensions(3..3).is_empty());
}

#[test]
fn coordinate_count_formula() {
    assert_eq!(n_coords(100, 50), 533);
    assert_eq!(n_coords(256, 256), 2048);
    assert_eq!(n_coords(1, 0), 0);
}

#[test]
fn rng_range_is_inclusive_and_seeded() {
    let mut a = Rng::new(12345);
    let mut b = Rng::new(12345);
    for _ in 0..1000 {
        let v = a.range(3, 7);
        assert!((3..=7).contains(&v));
        assert_eq!(v, b.range(3, 7));
    }
    let mut c = Rng::new(0);
    assert_eq!(c.range(5, 5), 5);
}

#[test]
fn random_coords_stay_in_bounds() {
    let mut rng = Rng::new(99);
    let coords = random_coords(&mut rng, 500, 7, 3);
    assert_eq!(coords.len(), 500);
    assert!(coords.iter().all(|&(x, y)| x < 7 && y < 3));
}

#[test]
fn workload_writes_sum_of_coordinates() {
    let coords = vec![(1, 2), (3, 0), (1, 2)];
    let mut f: FlatGrid<usize> = FlatGrid::new(4, 3);
    let mut n: NestedGrid<usize> = NestedGrid::new(4, 3);
    apply_workload(&mut f, &coords);
    apply_workload(&mut n, &coords);
    assert_eq!(f.get(1, 2), Some(&3));
    assert_eq!(f.get(3, 0), Some(&3));
    assert_eq!(f.get(0, 0), Some(&0));
    assert_eq!(n.get(1, 2), Some(&3));
    assert_eq!(n.get(3, 0), Some(&3));
    assert_eq!(n.get(2, 2), Some(&0));
}

#[test]
fn mean_time_rounds_down() {
    assert_eq!(mean_time(100, 20), 5);
    assert_eq!(mean_time(7, 2), 3);
    assert_eq!(mean_time(0, 20), 0);
}

#[test]
fn random_coords_reproducible_from_seed() {
    let mut a = Rng::new(2024);
    let mut b = Rng::new(2024);
    let first = random_coords(&mut a, 50, 100, 40);
    assert_eq!(first, random_coords(&mut b, 50, 100, 40));
    let second = random_coords(&mut a, 50, 100, 40);
    assert_ne!(first, second);
}

#[test]
fn rng_full_range_is_the_raw_step() {
    let mut a = Rng::new(77);
    let mut b = Rng::new(77);
    assert_eq!(a.next_u64() as usize, b.range(0, usize::MAX));
    assert_eq!(a.next_u64(), b.next_u64());
    let mut z = Rng::new(0);
    assert_ne!(z.next_u64(), 0);
}
