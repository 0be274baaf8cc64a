use polyfit::matrix::Matrix;

#[test]
fn create_matrices() {
    let mat = Matrix::new(2, 2, vec![1.0, 2.0, 3.0, 4.0]);
    let mat1 = Matrix::new(1, 3, vec![1.0, 2.0, 3.0]);
    let mat2 = Matrix::new(2, 2, vec![1.0, 2.0, 3.0, 4.0]);

    println!("mat is {:?}", mat);
    println!("mat1 is {:?}", mat1);
    println!("mat2 is {:?}", mat2);

    assert!(mat.rows() == 2);
    assert!(mat.cols() == 2);
    assert!(mat1.rows() == 1);
    assert!(mat1.cols() == 3);
    assert!(mat2.rows() == 2);
    assert!(mat2.cols() == 2);
}

#[test]
fn test_get_rows() {
    let mat = Matrix::new(3, 3, vec![1, 2, 3, 4, 5, 6, 7, 8, 9]);
    let indices = [1, 2];
    assert_eq!(mat.get_rows(&indices[..]), Matrix::new(2, 3, vec![4, 5, 6, 7, 8, 9]));
}

#[test]
fn test_row_iter() {
    let mat = Matrix::new(3, 2, vec![1, 2, 3, 4, 5, 6]);

    let mut iter = mat.row_iter().into_iter();

    let row1 = iter.next();
    assert_eq!(row1, Some(Matrix::new(1, 2, vec![1, 2])));
    let row2 = iter.next();
    assert_eq!(row2, Some(Matrix::new(1, 2, vec![3, 4])));
    let row3 = iter.next();
    assert_eq!(row3, Some(Matrix::new(1, 2, vec![5, 6])));

    assert_eq!(iter.next(), None);
}

#[test]
fn test_col_iter() {
    let mat = Matrix::new(3, 2, vec![1, 2, 3, 4, 5, 6]);

    let mut iter = mat.col_iter().into_iter();

    let col1 = iter.next();
    assert_eq!(col1, Some(Matrix::new(3, 1, vec![1, 3, 5])));
    let col2 = iter.next();
    assert_eq!(col2, Some(Matrix::new(3, 1, vec![2, 4, 6])));

    assert_eq!(iter.next(), None);
}

#[test]
fn test_row_concat() {
    let mat1 = Matrix::new(2, 2, vec![1, 2, 3, 4]);
    let mat2 = Matrix::new(2, 2, vec![5, 6, 7, 8]);

    let mat3 = mat1.row_concat(mat2);
    assert_eq!(mat3, Matrix::new(4, 2, vec![1, 2, 3, 4, 5, 6, 7, 8]));
}

#[test]
fn test_col_concat() {
    let mat1 = Matrix::new(2, 2, vec![1, 2, 3, 4]);
    let mat2 = Matrix::new(2, 2, vec![5, 6, 7, 8]);

    let mat3 = mat1.col_concat(mat2);
    assert_eq!(mat3, Matrix::new(2, 4, vec![1, 2, 5, 6, 3, 4, 7, 8]));
}

#[test]
fn transpose_swaps_rows_and_columns() {
    let mat = Matrix::new(2, 3, vec![1, 2, 3, 4, 5, 6]);
    let t = mat.t();
    assert_eq!(t.rows(), 3);
    assert_eq!(t.cols(), 2);
    assert_eq!(t, Matrix::new(3, 2, vec![1, 4, 2, 5, 3, 6]));
}

#[test]
fn get_columns_picks_in_given_order() {
    let mat = Matrix::new(2, 3, vec![1, 2, 3, 4, 5, 6]);
    let indices = [2, 0];
    assert_eq!(mat.get_columns(&indices[..]), Matrix::new(2, 2, vec![3, 1, 6, 4]));
}

#[test]
fn get_reads_row_major() {
    let mat = Matrix::new(2, 3, vec![1, 2, 3, 4, 5, 6]);
    assert_eq!(mat.get(0, 2), 3);
    assert_eq!(mat.get(1, 0), 4);
    assert_eq!(mat.get_data(), &vec![1, 2, 3, 4, 5, 6]);
}

#[test]
fn row_concat_of_uneven_heights() {
    let mat1 = Matrix::new(1, 2, vec![1, 2]);
    let mat2 = Matrix::new(2, 2, vec![3, 4, 5, 6]);
    let mat3 = mat1.row_concat(mat2);
    assert_eq!(mat3.rows(), 3);
    assert_eq!(mat3, Matrix::new(3, 2, vec![1, 2, 3, 4, 5, 6]));
}
