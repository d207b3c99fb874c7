use fixed_matrix::Matrix;
use fixed_matrix::Matrix2;
use fixed_matrix::Matrix3;
use fixed_matrix::Matrix4;
use fixed_matrix::Vector;
use fixed_matrix::Vector2;
use fixed_matrix::Vector4;

fn close(a: &[f64], b: &[f64], epsilon: f64) -> bool {
    a.len() == b.len() && a.iter().zip(b.iter()).all(|(x, y)| (x - y).abs() <= epsilon)
}

#[test]
fn empty_is_all_zeros_of_the_right_length() {
    assert_eq!(Matrix::<f64, 3, 2>::empty().to_vec(), vec![0.0; 6]);
    assert_eq!(Matrix::<f64, 1, 4>::empty().to_vec(), vec![0.0; 4]);
    assert_eq!(Matrix4::<f64>::empty().to_vec(), vec![0.0; 16]);
    assert_eq!(Vector4::<f64>::empty().to_vec().len(), 4);
    assert_eq!(Matrix::<u32, 5, 7>::empty().to_vec(), vec![0u32; 35]);
}

#[test]
fn filled_repeats_the_element() {
    let m = Matrix::<f64, 2, 3>::filled(1.5);
    assert_eq!(m.to_vec(), vec![1.5; 6]);
    assert_eq!(m.elems, [[1.5; 2]; 3]);
}

#[test]
fn from_array_reads_column_major() {
    // 1  3  5
    // 2  4  6
    let m = Matrix::<i32, 2, 3>::from_array([1, 2, 3, 4, 5, 6]);
    assert_eq!(m.elems, [[1, 2], [3, 4], [5, 6]]);
    assert_eq!(m.get(0, 0), Some(&1));
    assert_eq!(m.get(1, 0), Some(&2));
    assert_eq!(m.get(0, 1), Some(&3));
    assert_eq!(m.get(1, 2), Some(&6));
    assert_eq!(m.to_vec(), vec![1, 2, 3, 4, 5, 6]);
}

#[test]
fn from_slice_takes_exactly_rows_times_cols() {
    let m = Matrix2::<f64>::from_slice(&[1.0, 2.0, 3.0, 4.0]);
    assert_eq!(m, Some(Matrix2::from_array([1.0, 2.0, 3.0, 4.0])));
    assert_eq!(m.unwrap().elems, [[1.0, 2.0], [3.0, 4.0]]);
    assert!(Matrix2::<f64>::from_slice(&[1.0, 2.0, 3.0]).is_none());
    assert!(Matrix2::<f64>::from_slice(&[1.0, 2.0, 3.0, 4.0, 5.0]).is_none());
    assert!(Matrix2::<f64>::from_slice(&[]).is_none());
    assert!(Matrix::<f64, 3, 2>::from_slice(&[0.0; 5]).is_none());
    assert!(Matrix::<f64, 3, 2>::from_slice(&[0.0; 6]).is_some());
}

#[test]
fn from_slice_refuses_a_shape_too_large_to_count() {
    assert!(Matrix::<(), { usize::MAX }, 2>::from_slice(&[(); 4]).is_none());
}

#[test]
fn a_matrix_without_elements_can_be_built() {
    let m = Matrix::<f64, 0, 3>::from_slice(&[]);
    assert!(m.is_some());
    assert_eq!(m.unwrap().to_vec(), Vec::<f64>::new());
    let n = Matrix::<f64, 3, 0>::from_array([]);
    assert_eq!(n.to_vec(), Vec::<f64>::new());
    assert_eq!(n.cols().len(), 0);
    assert_eq!(Matrix::<f64, 0, 3>::empty().cols().len(), 3);
}

#[test]
fn identity_has_ones_on_the_diagonal() {
    let m = Matrix3::<f64>::identity();
    assert_eq!(m.to_vec(), vec![1.0, 0.0, 0.0, 0.0, 1.0, 0.0, 0.0, 0.0, 1.0]);
    let n = Matrix2::<u8>::identity();
    assert_eq!(n.elems, [[1, 0], [0, 1]]);
}

#[test]
fn identity_elems_fills_the_shorter_diagonal() {
    // 2.5  0.0  0.0
    // 0.0  2.5  0.0
    let wide = Matrix::<f64, 2, 3>::identity_elems(2.5);
    assert_eq!(wide.to_vec(), vec![2.5, 0.0, 0.0, 2.5, 0.0, 0.0]);
    let tall = Matrix::<f64, 3, 2>::identity_elems(2.5);
    assert_eq!(tall.to_vec(), vec![2.5, 0.0, 0.0, 0.0, 2.5, 0.0]);
}

#[test]
fn default_is_the_identity() {
    assert_eq!(Matrix3::<f64>::default(), Matrix3::<f64>::identity());
    assert_eq!(Matrix2::<f64>::default().to_vec(), vec![1.0, 0.0, 0.0, 1.0]);
    assert_eq!(Vector2::<f64>::default().to_vec(), vec![1.0, 0.0]);
}

#[test]
fn identity_is_neutral_for_the_product() {
    let a = Matrix2::from_array([0.1, 653.0, 92.3, 2.0]);
    assert_eq!(a * Matrix2::<f64>::default(), a);
    assert_eq!(Matrix2::<f64>::default() * a, a);
}

#[test]
fn index_is_column_major() {
    assert_eq!(Matrix::<f64, 3, 4>::index(0, 0), Some(0));
    assert_eq!(Matrix::<f64, 3, 4>::index(1, 2), Some(7));
    assert_eq!(Matrix::<f64, 3, 4>::index(2, 3), Some(11));
    assert_eq!(Matrix::<f64, 3, 4>::index(3, 0), None);
    assert_eq!(Matrix::<f64, 3, 4>::index(0, 4), None);
    let m = Matrix::<i32, 3, 4>::from_array([0, 1, 2, 3, 4, 5, 6, 7, 8, 9, 10, 11]);
    let flat = m.to_vec();
    for row in 0..3 {
        for col in 0..4 {
            let at = Matrix::<i32, 3, 4>::index(row, col).unwrap();
            assert_eq!(flat[at], *m.get_unsafe(row, col));
            assert_eq!(flat[at], m[(row, col)]);
        }
    }
}

#[test]
fn index_has_no_position_beyond_usize() {
    assert_eq!(Matrix::<(), { usize::MAX }, 2>::index(0, 1), Some(usize::MAX));
    assert_eq!(Matrix::<(), { usize::MAX }, 2>::index(1, 1), None);
    assert_eq!(Matrix::<(), { usize::MAX }, 2>::index(usize::MAX - 1, 0), Some(usize::MAX - 1));
}

#[test]
fn out_of_bounds_get_is_none() {
    let mut m = Matrix2::from_array([0.5, 0.0, 10.0, 2.0]);
    assert_eq!(m.get(5, 5), None);
    assert_eq!(m.get(2, 0), None);
    assert_eq!(m.get(0, 2), None);
    assert!(m.get_mut(5, 5).is_none());
    assert_eq!(Matrix2::<f64>::index(5, 5), None);
    assert_eq!(m, Matrix2::from_array([0.5, 0.0, 10.0, 2.0]));
}

#[test]
fn out_of_bounds_message_names_the_index_and_the_size() {
    assert_eq!(
        Matrix2::<f64>::bounds_message(5, 5),
        "matrix index 5,5 out of bounds for matrix of size 2x2"
    );
    assert_eq!(
        Matrix::<f64, 10, 120>::bounds_message(0, 4096),
        "matrix index 0,4096 out of bounds for matrix of size 10x120"
    );
    assert_eq!(
        Matrix::<u8, 0, 7>::bounds_message(usize::MAX, 90),
        format!("matrix index {},90 out of bounds for matrix of size 0x7", usize::MAX)
    );
}

#[test]
fn get_and_get_unsafe_read_one_slot() {
    let m = Matrix::<f64, 2, 3>::from_array([1.0, 2.0, 3.0, 4.0, 5.0, 6.0]);
    for row in 0..2 {
        for col in 0..3 {
            assert_eq!(m.get(row, col), Some(m.get_unsafe(row, col)));
            assert_eq!(*m.get_unsafe(row, col), (col * 2 + row + 1) as f64);
        }
    }
}

#[test]
fn write_then_read_gives_the_value_and_changes_nothing_else() {
    let start = Matrix::<f64, 3, 2>::from_array([1.0, 2.0, 3.0, 4.0, 5.0, 6.0]);
    for row in 0..3 {
        for col in 0..2 {
            let mut by_set = start;
            by_set.set(row, col, 9.5);
            let mut by_ref = start;
            *by_ref.get_mut_unsafe(row, col) = 9.5;
            let mut by_option = start;
            *by_option.get_mut(row, col).unwrap() = 9.5;
            assert_eq!(by_set, by_ref);
            assert_eq!(by_set, by_option);
            for r in 0..3 {
                for c in 0..2 {
                    let expected = if r == row && c == col { 9.5 } else { *start.get_unsafe(r, c) };
                    assert_eq!(*by_set.get_unsafe(r, c), expected);
                }
            }
        }
    }
}

#[test]
fn get_mut_hands_out_the_current_value() {
    let mut m = Matrix2::from_array([1, 2, 3, 4]);
    assert_eq!(m.get_mut(1, 0), Some(&mut 2));
    assert_eq!(*m.get_mut_unsafe(0, 1), 3);
}

#[test]
fn copies_are_independent() {
    let a = Matrix2::from_array([1.0, 2.0, 3.0, 4.0]);
    let mut b = a;
    let c = a.clone();
    b.set(0, 0, 7.0);
    assert_eq!(a.to_vec(), vec![1.0, 2.0, 3.0, 4.0]);
    assert_eq!(b.to_vec(), vec![7.0, 2.0, 3.0, 4.0]);
    assert_eq!(c, a);
}

#[test]
fn equality_is_that_of_the_elements() {
    let a = Matrix2::from_array([1.0, 2.0, 3.0, 4.0]);
    assert!(a == Matrix2::from_array([1.0, 2.0, 3.0, 4.0]));
    assert!(a != Matrix2::from_array([1.0, 2.0, 3.0, 4.5]));
    assert!(a != Matrix2::from_array([1.5, 2.0, 3.0, 4.0]));
    assert!(Matrix2::from_array([0.0, 0.0, 0.0, 0.0]) == Matrix2::from_array([-0.0, 0.0, -0.0, 0.0]));
    let nan = Matrix2::from_array([1.0, f64::NAN, 3.0, 4.0]);
    assert!(nan != nan);
    assert!(Matrix::<f64, 0, 2>::empty() == Matrix::<f64, 0, 2>::filled(3.0));
}

#[test]
fn add_and_sub_work_element_by_element() {
    let a = Matrix::<f64, 2, 3>::from_array([1.0, 2.0, 3.0, 4.0, 5.0, 6.0]);
    let b = Matrix::<f64, 2, 3>::from_array([0.5, 0.25, 8.0, -4.0, 1.0, 0.0]);
    assert_eq!((a + b).to_vec(), vec![1.5, 2.25, 11.0, 0.0, 6.0, 6.0]);
    assert_eq!((a - b).to_vec(), vec![0.5, 1.75, -5.0, 8.0, 4.0, 6.0]);
    let x = Matrix2::<i64>::from_array([1, 2, 3, 4]);
    let y = Matrix2::<i64>::from_array([10, 20, 30, 40]);
    assert_eq!((x + y).elems, [[11, 22], [33, 44]]);
    assert_eq!((y - x).elems, [[9, 18], [27, 36]]);
}

#[test]
fn scalar_mul_doubles_each_element() {
    let a = Matrix2::from_array([1.0, 2.0, 3.0, 4.0]);
    assert_eq!(a * 2.0, Matrix2::from_array([2.0, 4.0, 6.0, 8.0]));
    let b = Matrix::<i32, 1, 3>::from_array([1, -2, 3]);
    assert_eq!((b * -3).to_vec(), vec![-3, 6, -9]);
}

#[test]
fn product_of_integer_matrices_is_exact() {
    // 1  2     5  6     19  22
    // 3  4  *  7  8  =  43  50
    let a = Matrix2::<i64>::from_array([1, 3, 2, 4]);
    let b = Matrix2::<i64>::from_array([5, 7, 6, 8]);
    assert_eq!((a * b).to_vec(), vec![19, 43, 22, 50]);
    assert_eq!((b * a).to_vec(), vec![23, 31, 34, 46]);
}

#[test]
fn product_takes_the_shape_from_both_operands() {
    // 1  2  3     1  0
    // 4  5  6  *  0  1  =   4   5
    //             1  1     10  11
    let a = Matrix::<i32, 2, 3>::from_array([1, 4, 2, 5, 3, 6]);
    let b = Matrix::<i32, 3, 2>::from_array([1, 0, 1, 0, 1, 1]);
    let c: Matrix<i32, 2, 2> = a * b;
    assert_eq!(c.to_vec(), vec![4, 10, 5, 11]);
    let d: Matrix<i32, 3, 3> = b * a;
    assert_eq!(d.to_vec(), vec![1, 4, 5, 2, 5, 7, 3, 6, 9]);
    let row = Matrix::<i32, 1, 3>::from_array([1, 2, 3]);
    let column = Vector::<i32, 3>::from_array([4, 5, 6]);
    assert_eq!((row * column).to_vec(), vec![32]);
    assert_eq!((column * row).to_vec(), vec![4, 5, 6, 8, 10, 12, 12, 15, 18]);
}

#[test]
fn product_over_no_terms_is_zero() {
    let a = Matrix::<f64, 2, 0>::from_array([]);
    let b = Matrix::<f64, 0, 3>::from_array([]);
    assert_eq!((a * b).to_vec(), vec![0.0; 6]);
}

#[test]
fn product_adds_the_terms_from_zero_in_their_order() {
    let big = 1.0e16;
    let a = Matrix::<f64, 1, 3>::from_array([big, 1.0, -big]);
    let b = Vector::<f64, 3>::from_array([1.0, 1.0, 1.0]);
    assert_eq!((a * b).to_vec(), vec![((0.0 + big) + 1.0) - big]);
    let c = Matrix::<f64, 1, 1>::from_array([-0.0]);
    let d = Matrix::<f64, 1, 1>::from_array([1.0]);
    assert!((c * d).get_unsafe(0, 0).is_sign_positive());
}

#[test]
fn product_is_associative() {
    let a = Matrix::<f64, 2, 3>::from_array([0.1, 653.0, 92.3, 2.0, 1.5, -7.25]);
    let b = Matrix::<f64, 3, 2>::from_array([29.0, 9.2, 0.2, 1.2, -3.0, 0.75]);
    let c = Matrix::<f64, 2, 4>::from_array([1.9, 1.1, 0.5, 19.3, 10.2, 0.2, 12.0, 1.0]);
    let left: Matrix<f64, 2, 4> = (a * b) * c;
    let right: Matrix<f64, 2, 4> = a * (b * c);
    assert!(close(&left.to_vec(), &right.to_vec(), 0.0001));
    let x = Matrix::<i64, 2, 3>::from_array([1, -2, 3, 4, 5, -6]);
    let y = Matrix::<i64, 3, 2>::from_array([7, 8, -9, 10, 11, 12]);
    let z = Matrix::<i64, 2, 1>::from_array([-13, 14]);
    assert_eq!((x * y) * z, x * (y * z));
}

#[test]
fn scalar_mul_distributes_over_add() {
    let a = Matrix2::from_array([0.1, 653.0, 92.3, 2.0]);
    let b = Matrix2::from_array([29.0, 9.2, 0.2, 1.2]);
    let k = 3.7;
    assert!(close(&((a + b) * k).to_vec(), &(a * k + b * k).to_vec(), 0.0001));
    let x = Matrix2::<i64>::from_array([1, -2, 3, 4]);
    let y = Matrix2::<i64>::from_array([5, 6, -7, 8]);
    assert_eq!((x + y) * 9, x * 9 + y * 9);
}

#[test]
fn from_cols_undoes_cols() {
    let a = Matrix::<f64, 3, 2>::from_array([1.0, 2.0, 5.0, 3.0, 4.0, 3.5]);
    let columns = a.cols().map(|column| column.elems[0]);
    assert_eq!(columns, [[1.0, 2.0, 5.0], [3.0, 4.0, 3.5]]);
    assert_eq!(Matrix::from_cols(columns), a);
    let b = Matrix4::<i32>::from_array([1, 2, 3, 4, 5, 6, 7, 8, 9, 10, 11, 12, 13, 14, 15, 16]);
    assert_eq!(Matrix::from_cols(b.cols().map(|column| column.elems[0])), b);
}

#[test]
fn cols_are_column_vectors_in_order() {
    let a = Matrix::<i32, 2, 3>::from_array([1, 2, 3, 4, 5, 6]);
    let columns = a.cols();
    assert_eq!(columns.len(), 3);
    assert_eq!(columns[0].to_vec(), vec![1, 2]);
    assert_eq!(columns[1].to_vec(), vec![3, 4]);
    assert_eq!(columns[2], Vector2::from_array([5, 6]));
}

#[test]
fn from_cols_concatenates_the_columns() {
    let m = Matrix::from_cols([[1.0, 2.0, 3.0], [4.0, 5.0, 6.0]]);
    assert_eq!(m.to_vec(), vec![1.0, 2.0, 3.0, 4.0, 5.0, 6.0]);
    assert_eq!(m.get(2, 1), Some(&6.0));
}
