use sidd_gpt::error::LinearError;
use sidd_gpt::matrix::Matrix;

#[test]
fn from_cells_accepts_cells_that_fill_the_shape() {
    let m = Matrix::from_cells(2, 3, vec![1, 2, 3, 4, 5, 6]).unwrap();
    assert_eq!(m.rows(), 2);
    assert_eq!(m.cols(), 3);
    assert_eq!(m.cells(), &vec![1, 2, 3, 4, 5, 6]);
}

#[test]
fn from_cells_accepts_empty_shapes() {
    assert!(Matrix::from_cells(0, 0, vec![]).is_ok());
    assert!(Matrix::from_cells(0, 5, vec![]).is_ok());
    assert!(Matrix::from_cells(5, 0, vec![]).is_ok());
    assert!(Matrix::from_cells(usize::MAX, 0, vec![]).is_ok());
}

#[test]
fn from_cells_refuses_any_other_count() {
    assert_eq!(Matrix::from_cells(2, 3, vec![0; 5]).unwrap_err(), LinearError::ShapeMismatch);
    assert_eq!(Matrix::from_cells(2, 3, vec![0; 7]).unwrap_err(), LinearError::ShapeMismatch);
    assert_eq!(Matrix::from_cells(0, 3, vec![0; 1]).unwrap_err(), LinearError::ShapeMismatch);
    assert_eq!(Matrix::from_cells(1, 1, vec![]).unwrap_err(), LinearError::ShapeMismatch);
}

#[test]
fn from_cells_refuses_a_shape_too_large_to_count() {
    assert_eq!(
        Matrix::from_cells(usize::MAX, 2, vec![0; 2]).unwrap_err(),
        LinearError::ShapeMismatch
    );
    assert_eq!(
        Matrix::from_cells(usize::MAX, usize::MAX, vec![1]).unwrap_err(),
        LinearError::ShapeMismatch
    );
}

#[test]
fn get_reads_row_major() {
    let m = Matrix::from_cells(2, 3, vec![10, 11, 12, 20, 21, 22]).unwrap();
    assert_eq!(m.get(0, 0), Some(10));
    assert_eq!(m.get(0, 2), Some(12));
    assert_eq!(m.get(1, 0), Some(20));
    assert_eq!(m.get(1, 2), Some(22));
}

#[test]
fn get_is_none_outside_the_shape() {
    let m = Matrix::from_cells(2, 3, vec![10, 11, 12, 20, 21, 22]).unwrap();
    assert_eq!(m.get(2, 0), None);
    assert_eq!(m.get(0, 3), None);
    assert_eq!(m.get(1, 3), None);
    assert_eq!(m.get(usize::MAX, usize::MAX), None);
    let empty = Matrix::from_cells(0, 3, vec![]).unwrap();
    assert_eq!(empty.get(0, 0), None);
}

#[test]
fn row_copies_one_row() {
    let m = Matrix::from_cells(3, 2, vec![1, 2, 3, 4, 5, 6]).unwrap();
    assert_eq!(m.row(0), Some(vec![1, 2]));
    assert_eq!(m.row(1), Some(vec![3, 4]));
    assert_eq!(m.row(2), Some(vec![5, 6]));
    assert_eq!(m.row(3), None);
    let thin = Matrix::from_cells(2, 0, vec![]).unwrap();
    assert_eq!(thin.row(1), Some(vec![]));
    assert_eq!(thin.row(2), None);
}

#[test]
fn row_cells_agree_with_get() {
    let m = Matrix::from_cells(3, 4, (0u32..12).collect()).unwrap();
    for i in 0..3 {
        let row = m.row(i).unwrap();
        assert_eq!(row.len(), 4);
        for j in 0..4 {
            assert_eq!(Some(row[j]), m.get(i, j));
            assert_eq!(m.get(i, j), Some((i * 4 + j) as u32));
        }
    }
}

#[test]
fn set_writes_one_cell_and_returns_the_old_one() {
    let mut m = Matrix::from_cells(2, 3, vec![10, 11, 12, 20, 21, 22]).unwrap();
    assert_eq!(m.set(1, 1, 99), Some(21));
    assert_eq!(m.cells(), &vec![10, 11, 12, 20, 99, 22]);
    assert_eq!(m.get(1, 1), Some(99));
    assert_eq!(m.set(0, 2, 7), Some(12));
    assert_eq!(m.cells(), &vec![10, 11, 7, 20, 99, 22]);
    assert_eq!((m.rows(), m.cols()), (2, 3));
}

#[test]
fn set_outside_the_shape_changes_nothing() {
    let mut m = Matrix::from_cells(2, 3, vec![10, 11, 12, 20, 21, 22]).unwrap();
    assert_eq!(m.set(2, 0, 1), None);
    assert_eq!(m.set(0, 3, 1), None);
    assert_eq!(m.set(usize::MAX, usize::MAX, 1), None);
    assert_eq!(m.cells(), &vec![10, 11, 12, 20, 21, 22]);
}
