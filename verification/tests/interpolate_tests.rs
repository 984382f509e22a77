use fftviz::interpolate::{mirror_row, space_interpolate, time_interpolate};
use fftviz::SCALE;

#[test]
fn time_interpolate_at_zero_returns_first_row() {
    let a: Vec<u64> = vec![0, 1_000_000, 123_456];
    let b: Vec<u64> = vec![2_000_000, 500_000, 654_321];
    assert_eq!(time_interpolate(&a, &b, 0), a);
}

#[test]
fn time_interpolate_at_one_returns_second_row() {
    let a: Vec<u64> = vec![0, 1_000_000, 123_456];
    let b: Vec<u64> = vec![2_000_000, 500_000, 654_321];
    assert_eq!(time_interpolate(&a, &b, SCALE), b);
}

#[test]
fn time_interpolate_midpoint() {
    let a: Vec<u64> = vec![0, 1_000_000];
    let b: Vec<u64> = vec![2_000_000, 500_000];
    assert_eq!(time_interpolate(&a, &b, 500_000), vec![1_000_000, 750_000]);
}

#[test]
fn time_interpolate_monotonic_in_alpha() {
    let a: Vec<u64> = vec![100, 200, 300];
    let b: Vec<u64> = vec![1_000_000, 2_000_000, 3_000_000];
    let mut prev = time_interpolate(&a, &b, 0);
    for step in 1..=10u64 {
        let cur = time_interpolate(&a, &b, step * SCALE / 10);
        for j in 0..a.len() {
            assert!(prev[j] <= cur[j]);
        }
        prev = cur;
    }
}

#[test]
fn space_interpolate_zero_is_identity() {
    let mut v: Vec<u64> = vec![5, 7, 9];
    space_interpolate(&mut v, 0);
    assert_eq!(v, vec![5, 7, 9]);
}

#[test]
fn space_interpolate_inserts_midpoints() {
    let mut v: Vec<u64> = vec![0, 1_000_000];
    space_interpolate(&mut v, 1);
    assert_eq!(v, vec![0, 500_000, 1_000_000]);
}

#[test]
fn space_interpolate_thirds_and_length() {
    let mut v: Vec<u64> = vec![0, 900_000, 300_000];
    space_interpolate(&mut v, 2);
    // (3 - 1) * (2 + 1) + 1 = 7
    assert_eq!(v.len(), 7);
    assert_eq!(v, vec![0, 300_000, 600_000, 900_000, 700_000, 500_000, 300_000]);
    // every original value sits at its scaled index
    assert_eq!(v[0], 0);
    assert_eq!(v[3], 900_000);
    assert_eq!(v[6], 300_000);
}

#[test]
fn space_interpolate_rounds_toward_current_bar() {
    let mut v: Vec<u64> = vec![0, 10];
    space_interpolate(&mut v, 2);
    // 0 + 10 * 1 / 3 = 3 and 0 + 10 * 2 / 3 = 6
    assert_eq!(v, vec![0, 3, 6, 10]);
}

#[test]
fn mirror_row_is_reverse_then_original() {
    let v: Vec<u64> = vec![1, 2, 3];
    let m = mirror_row(&v);
    assert_eq!(m, vec![3, 2, 1, 1, 2, 3]);
    assert_eq!(m.len(), 2 * v.len());
}

#[test]
fn mirror_row_of_empty_row_is_empty() {
    let v: Vec<u64> = Vec::new();
    assert_eq!(mirror_row(&v), Vec::<u64>::new());
}
