use tinynn::scalar::Scalar;
use tinynn::tools::matrix::{Mat, TILE};

fn cells(m: &Mat<i64>) -> Vec<i64> {
    let mut out = Vec::new();
    for i in 0..m.row() {
        for j in 0..m.col() {
            out.push(m.get(i, j));
        }
    }
    out
}

fn counting(rows: usize, cols: usize, start: i64, step: i64) -> Mat<i64> {
    let mut buffer = Vec::new();
    for k in 0..rows * cols {
        buffer.push(start + step * ((k * 7 + 3) % 11) as i64 - 4);
    }
    Mat::from_vec(buffer, rows, cols)
}

fn naive_product(a: &Mat<i64>, b: &Mat<i64>) -> Vec<i64> {
    let mut out = Vec::new();
    for i in 0..a.row() {
        for j in 0..b.col() {
            let mut acc: i64 = 0;
            for k in 0..a.col() {
                acc = acc.wrapping_add(a.get(i, k).wrapping_mul(b.get(k, j)));
            }
            out.push(acc);
        }
    }
    out
}

fn check_product(rows: usize, depth: usize, cols: usize) {
    let a = counting(rows, depth, 1, 3);
    let b = counting(depth, cols, -2, 5);
    let c = a.mul(&b);
    assert_eq!(c.shape(), (rows, cols));
    assert_eq!(cells(&c), naive_product(&a, &b));
}

#[test]
fn new_is_zero_filled() {
    let m: Mat<i64> = Mat::new(2, 3);
    assert_eq!(m.row(), 2);
    assert_eq!(m.col(), 3);
    assert_eq!(m.shape(), (2, 3));
    assert_eq!(cells(&m), vec![0, 0, 0, 0, 0, 0]);
}

#[test]
fn val_mat_fills_every_cell() {
    let m = Mat::val_mat(3, 2, 7i64);
    assert_eq!(m.shape(), (3, 2));
    assert_eq!(cells(&m), vec![7, 7, 7, 7, 7, 7]);
}

#[test]
fn zeroes_like_takes_the_shape() {
    let m = Mat::val_mat(4, 5, 9i64);
    let z = Mat::zeroes_like(&m);
    assert_eq!(z.shape(), (4, 5));
    assert_eq!(cells(&z), vec![0; 20]);
}

#[test]
fn from_vec_reads_row_major() {
    let m = Mat::from_vec(vec![1i64, 2, 3, 4, 5, 6], 2, 3);
    assert_eq!(m.get(0, 0), 1);
    assert_eq!(m.get(0, 2), 3);
    assert_eq!(m.get(1, 0), 4);
    assert_eq!(m.get(1, 2), 6);
}

#[test]
fn map_2_to_1_is_row_major() {
    assert_eq!(Mat::<i64>::map_2_to_1(0, 0, 5), 0);
    assert_eq!(Mat::<i64>::map_2_to_1(3, 0, 5), 3);
    assert_eq!(Mat::<i64>::map_2_to_1(3, 2, 5), 13);
    assert_eq!(Mat::<i64>::map_2_to_1(27, 27, 28), 783);
}

#[test]
fn set_writes_one_cell() {
    let mut m: Mat<i64> = Mat::new(2, 3);
    m.set(1, 2, 5);
    m.set(0, 1, -3);
    assert_eq!(cells(&m), vec![0, -3, 0, 0, 0, 5]);
}

#[test]
fn clone_keeps_every_cell() {
    let m = Mat::from_vec(vec![1i64, 2, 3, 4], 2, 2);
    let mut c = m.clone();
    c.set(0, 0, 9);
    assert_eq!(cells(&m), vec![1, 2, 3, 4]);
    assert_eq!(cells(&c), vec![9, 2, 3, 4]);
}

#[test]
fn transpose_swaps_coordinates() {
    let m = Mat::from_vec(vec![1i64, 2, 3, 4, 5, 6], 2, 3);
    let t = m.transpose();
    assert_eq!(t.shape(), (3, 2));
    assert_eq!(cells(&t), vec![1, 4, 2, 5, 3, 6]);
    for i in 0..2 {
        for j in 0..3 {
            assert_eq!(t.get(j, i), m.get(i, j));
        }
    }
}

#[test]
fn transpose_twice_is_identity() {
    for (rows, cols) in [(1, 1), (1, 7), (7, 1), (3, 5), (33, 2)] {
        let m = counting(rows, cols, 2, 3);
        let back = m.transpose().transpose();
        assert_eq!(back.shape(), (rows, cols));
        assert_eq!(cells(&back), cells(&m));
    }
}

#[test]
fn map_applies_to_every_cell_and_keeps_the_receiver() {
    let m = Mat::from_vec(vec![1i64, -2, 3, -4], 2, 2);
    let doubled = m.map(|v: i64| v * 2);
    assert_eq!(doubled.shape(), (2, 2));
    assert_eq!(cells(&doubled), vec![2, -4, 6, -8]);
    assert_eq!(cells(&m), vec![1, -2, 3, -4]);
}

#[test]
fn add_is_cell_by_cell() {
    let a = Mat::from_vec(vec![1i64, 2, 3, 4], 2, 2);
    let b = Mat::from_vec(vec![10i64, 20, 30, 40], 2, 2);
    assert_eq!(cells(&a.add(&b)), vec![11, 22, 33, 44]);
}

#[test]
fn sub_is_cell_by_cell() {
    let a = Mat::from_vec(vec![1i64, 2, 3, 4], 2, 2);
    let b = Mat::from_vec(vec![10i64, 20, 30, 40], 2, 2);
    assert_eq!(cells(&a.sub(&b)), vec![-9, -18, -27, -36]);
}

#[test]
fn add_then_sub_gives_the_first_back() {
    let a = counting(5, 4, 3, 2);
    let b = counting(5, 4, -7, 5);
    assert_eq!(cells(&a.add(&b).sub(&b)), cells(&a));
    let big = Mat::val_mat(2, 2, i64::MAX);
    let one = Mat::val_mat(2, 2, 1i64);
    assert_eq!(cells(&big.add(&one)), vec![i64::MIN; 4]);
    assert_eq!(cells(&big.add(&one).sub(&one)), cells(&big));
}

#[test]
fn ele_mul_is_cell_by_cell() {
    let a = Mat::from_vec(vec![1i64, 2, 3, 4], 2, 2);
    let b = Mat::from_vec(vec![5i64, -6, 7, 0], 2, 2);
    assert_eq!(cells(&a.ele_mul(&b)), vec![5, -12, 21, 0]);
}

#[test]
fn scaler_mul_scales_every_cell() {
    let a = Mat::from_vec(vec![1i64, -2, 3, 4, 5, 6], 3, 2);
    let s = a.scaler_mul(-3);
    assert_eq!(s.shape(), (3, 2));
    assert_eq!(cells(&s), vec![-3, 6, -9, -12, -15, -18]);
}

#[test]
fn product_of_small_matrices() {
    let a = Mat::from_vec(vec![1i64, 2, 3, 4, 5, 6], 2, 3);
    let b = Mat::from_vec(vec![7i64, 8, 9, 10, 11, 12], 3, 2);
    let c = a.mul(&b);
    assert_eq!(c.shape(), (2, 2));
    assert_eq!(cells(&c), vec![58, 64, 139, 154]);
}

#[test]
fn product_with_a_column_vector() {
    let a = Mat::from_vec(vec![1i64, 2, 3, 4, 5, 6], 2, 3);
    let x = Mat::from_vec(vec![1i64, 0, -1], 3, 1);
    let c = a.mul(&x);
    assert_eq!(c.shape(), (2, 1));
    assert_eq!(cells(&c), vec![-2, -2]);
}

#[test]
fn tile_edge_is_thirty_two() {
    assert_eq!(TILE, 32);
}

#[test]
fn tiled_product_matches_naive_below_one_tile() {
    check_product(1, 1, 1);
    check_product(3, 5, 2);
    check_product(31, 31, 31);
}

#[test]
fn tiled_product_matches_naive_at_one_tile() {
    check_product(32, 32, 32);
    check_product(32, 1, 32);
    check_product(1, 32, 1);
}

#[test]
fn tiled_product_matches_naive_above_one_tile() {
    check_product(33, 33, 33);
    check_product(64, 64, 64);
    check_product(65, 40, 70);
}

#[test]
fn tiled_product_matches_naive_on_mixed_extents() {
    check_product(1, 33, 65);
    check_product(65, 1, 33);
    check_product(33, 65, 1);
    check_product(31, 32, 33);
    check_product(70, 31, 32);
}

#[test]
fn sum_adds_one_row() {
    let a = Mat::from_vec(vec![1i64, 2, 3, 4, 5, 6], 2, 3);
    assert_eq!(a.sum(0), 6);
    assert_eq!(a.sum(1), 15);
}

#[test]
fn sum_all_adds_every_cell() {
    let a = Mat::from_vec(vec![1i64, 2, 3, 4, 5, 6], 2, 3);
    assert_eq!(a.sum_all(), 21);
}

#[test]
fn normalize_divides_by_the_largest_magnitude() {
    let mut a = Mat::from_vec(vec![10i64, -50, 25, 100, -7, 0], 2, 3);
    a.normalize_self();
    assert_eq!(a.shape(), (2, 3));
    assert_eq!(cells(&a), vec![0, 0, 0, 1, 0, 0]);
    let mut b = Mat::from_vec(vec![6i64, -3, 2, -6], 4, 1);
    b.normalize_self();
    assert_eq!(cells(&b), vec![1, 0, 0, -1]);
}

#[test]
fn normalize_uses_the_magnitude_of_a_negative_peak() {
    let mut a = Mat::from_vec(vec![1i64, -8, 4], 1, 3);
    a.normalize_self();
    assert_eq!(cells(&a), vec![0, -1, 0]);
}

#[test]
fn normalize_of_zeros_follows_the_division() {
    let mut a = Mat::from_vec(vec![0i64, 0, 0], 3, 1);
    a.normalize_self();
    assert_eq!(cells(&a), vec![0.div(0), 0.div(0), 0.div(0)]);
}

#[test]
fn get_max_gives_column_then_row() {
    let a = Mat::from_vec(vec![1i64, 2, 3, 4, -9, 6], 2, 3);
    assert_eq!(a.get_max(), (1, 1));
    let b = Mat::from_vec(vec![1i64, 2, 30, 4, -9, 6], 2, 3);
    assert_eq!(b.get_max(), (2, 0));
}

#[test]
fn get_max_takes_the_first_on_a_tie() {
    let a = Mat::from_vec(vec![3i64, -7, 7, 7, 2, -7], 3, 2);
    assert_eq!(a.get_max(), (1, 0));
    let b = Mat::val_mat(4, 4, 5i64);
    assert_eq!(b.get_max(), (0, 0));
}

#[test]
fn get_max_of_one_hot_is_the_hot_row() {
    for n in 1..12usize {
        for k in 0..n {
            let v: Mat<i64> = Mat::one_hot(k, n);
            assert_eq!(v.shape(), (n, 1));
            assert_eq!(v.get_max(), (0, k));
        }
    }
}

#[test]
fn one_hot_has_a_single_one() {
    let v: Mat<i64> = Mat::one_hot(2, 5);
    assert_eq!(cells(&v), vec![0, 0, 1, 0, 0]);
}

#[test]
fn rand_mat_draws_inside_the_range() {
    let m = Mat::rand_mat(20, 20, -5i64, 5i64);
    assert_eq!(m.shape(), (20, 20));
    let all = cells(&m);
    assert!(all.iter().all(|v| -5 <= *v && *v < 5));
    assert!(all.iter().any(|v| *v != -5));
    assert!(all.iter().any(|v| *v != all[0]));
}

#[test]
fn rand_mat_of_a_range_of_one_is_constant() {
    let m = Mat::rand_mat(3, 3, 3i64, 4i64);
    assert_eq!(cells(&m), vec![3; 9]);
}

#[test]
fn display_writes_one_line_for_each_row() {
    let m = Mat::from_vec(vec![1i64, -2, 3, 4, 5, 6], 2, 3);
    assert_eq!(m.display(&|v: i64| v.to_string()), "1,-2,3,\n4,5,6,\n");
    let single = Mat::val_mat(1, 1, 7i64);
    assert_eq!(single.display(&|v: i64| format!("<{}>", v)), "<7>,\n");
    let column = Mat::from_vec(vec![1i64, 2], 2, 1);
    assert_eq!(column.display(&|_v: i64| String::new()), ",\n,\n");
}

#[test]
fn index_reads_row_then_column() {
    let m = Mat::from_vec(vec![1i64, 2, 3, 4, 5, 6], 2, 3);
    assert_eq!(m[(0, 0)], 1);
    assert_eq!(m[(0, 2)], 3);
    assert_eq!(m[(1, 1)], 5);
    for i in 0..2 {
        for j in 0..3 {
            assert_eq!(m[(i, j)], m.get(i, j));
        }
    }
}
