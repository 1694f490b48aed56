use corroded_classifier::accuracy::{argmax_first, count_matches, order_key};
use corroded_classifier::cifar::{parse_records, RecordError, IMAGE_BYTES, NUM_CLASSES, RECORD_BYTES};
use corroded_classifier::dataset::{check_one_hot, Dataset, DatasetError};
use corroded_classifier::matrix::{Matrix, ShapeError};
use corroded_classifier::topology::{LayerShape, ShapeMismatch, Topology};

fn key_rows(rows: &[&[f32]]) -> Matrix<i32> {
    let cols = rows[0].len();
    let mut flat = Vec::new();
    for r in rows {
        for x in r.iter() {
            flat.push(order_key(x.to_bits()));
        }
    }
    Matrix::from_flat(rows.len(), cols, flat).unwrap()
}

fn byte_matrix(rows: usize, cols: usize, f: impl Fn(usize, usize) -> u8) -> Matrix<u8> {
    let mut flat = Vec::new();
    for i in 0..rows {
        for j in 0..cols {
            flat.push(f(i, j));
        }
    }
    Matrix::from_flat(rows, cols, flat).unwrap()
}

fn one_hot_labels(rows: usize, classes: usize) -> Matrix<u8> {
    byte_matrix(rows, classes, |i, j| if i % classes == j { 1 } else { 0 })
}

#[test]
fn argmax_tie_takes_lowest_index() {
    assert_eq!(argmax_first(&vec![3, 5, 5, 1]), 1);
    assert_eq!(argmax_first(&vec![7, 7, 7]), 0);
    assert_eq!(argmax_first(&vec![-4]), 0);
    assert_eq!(argmax_first(&vec![1, 2, 9]), 2);
}

#[test]
fn order_key_follows_float_order() {
    let xs = [f32::NEG_INFINITY, -3.5, -1.0, -0.25, 0.0, 1e-30, 0.5, 2.0, f32::INFINITY];
    for w in xs.windows(2) {
        assert!(order_key(w[0].to_bits()) < order_key(w[1].to_bits()));
    }
    assert_eq!(order_key((-0.0f32).to_bits()), order_key(0.0f32.to_bits()));
    assert_eq!(order_key(f32::NAN.to_bits()), i32::MIN);
    assert!(order_key(f32::NAN.to_bits()) < order_key(f32::NEG_INFINITY.to_bits()));
    assert_eq!(order_key(1.0f32.to_bits()), 0x3f80_0000);
    assert_eq!(order_key((-1.0f32).to_bits()), -0x3f80_0000);
}

#[test]
fn accuracy_two_of_three() {
    let predicted = key_rows(&[&[0.9, 0.05, 0.05], &[0.1, 0.8, 0.1], &[0.2, 0.7, 0.1]]);
    let labels = key_rows(&[&[1.0, 0.0, 0.0], &[0.0, 1.0, 0.0], &[0.0, 0.0, 1.0]]);
    let correct = count_matches(&predicted, &labels);
    assert_eq!(correct, 2);
    assert!((correct as f32 / predicted.nrows() as f32 - 2.0 / 3.0).abs() < 1e-6);
}

#[test]
fn accuracy_all_correct_is_one() {
    let predicted = key_rows(&[&[0.1, 0.9], &[0.8, 0.2], &[0.3, 0.6]]);
    let labels = key_rows(&[&[0.0, 1.0], &[1.0, 0.0], &[0.0, 1.0]]);
    assert_eq!(count_matches(&predicted, &labels), 3);
}

#[test]
fn accuracy_tie_uses_first_maximum_for_both() {
    // The prediction ties between classes 0 and 1: class 0 wins.
    let predicted = key_rows(&[&[0.5, 0.5, 0.1], &[0.5, 0.5, 0.1]]);
    let labels = key_rows(&[&[1.0, 0.0, 0.0], &[0.0, 1.0, 0.0]]);
    assert_eq!(count_matches(&predicted, &labels), 1);
    // A label row that ties picks its first maximum as well.
    let labels = key_rows(&[&[1.0, 1.0, 0.0], &[1.0, 1.0, 0.0]]);
    assert_eq!(count_matches(&predicted, &labels), 2);
}

#[test]
fn accuracy_nan_never_wins() {
    let predicted = key_rows(&[&[f32::NAN, 0.1, 0.2]]);
    let labels = key_rows(&[&[0.0, 0.0, 1.0]]);
    assert_eq!(count_matches(&predicted, &labels), 1);
}

#[test]
fn from_flat_checks_length() {
    let m = Matrix::from_flat(2, 3, vec![1, 2, 3, 4, 5, 6]).unwrap();
    assert_eq!(m.nrows(), 2);
    assert_eq!(m.ncols(), 3);
    assert_eq!(m.get(1, 0), 4);
    assert_eq!(m.row_vec(0), vec![1, 2, 3]);
    assert_eq!(
        Matrix::from_flat(2, 3, vec![1, 2, 3, 4, 5]).unwrap_err(),
        ShapeError { rows: 2, cols: 3, len: 5 }
    );
    assert!(Matrix::<u8>::from_flat(usize::MAX, 2, vec![]).is_err());
}

#[test]
fn slice_rows_copies_a_block() {
    let m = Matrix::from_flat(4, 2, vec![0, 1, 10, 11, 20, 21, 30, 31]).unwrap();
    let s = m.slice_rows(1, 2);
    assert_eq!(s.nrows(), 2);
    assert_eq!(s.ncols(), 2);
    assert_eq!(s.into_flat(), vec![10, 11, 20, 21]);
    let empty = m.slice_rows(4, 0);
    assert_eq!(empty.nrows(), 0);
}

#[test]
fn get_batch_returns_rows_ten_to_fifteen() {
    let images = byte_matrix(100, 4, |i, j| (i * 2 + j) as u8);
    let labels = one_hot_labels(100, 2);
    let ds = Dataset::new(images, labels, byte_matrix(3, 4, |_, _| 0), one_hot_labels(3, 2)).unwrap();
    assert_eq!(ds.get_train_size(), 100);
    assert_eq!(ds.get_test_size(), 3);
    assert_eq!(ds.get_input_size(), 4);
    assert_eq!(ds.get_num_classes(), 2);
    let (bi, bl) = ds.get_batch(10, 5);
    assert_eq!((bi.nrows(), bi.ncols()), (5, 4));
    assert_eq!((bl.nrows(), bl.ncols()), (5, 2));
    for k in 0..5 {
        assert_eq!(bi.row_vec(k), ds.train_images.row_vec(10 + k));
        assert_eq!(bl.row_vec(k), ds.train_labels.row_vec(10 + k));
    }
    assert_eq!(bi.row_vec(0), vec![20, 21, 22, 23]);
    assert_eq!(bl.row_vec(1), vec![0, 1]);
}

#[test]
fn dataset_rejects_bad_shapes() {
    let ok_i = || byte_matrix(4, 3, |_, _| 0);
    let ok_l = || one_hot_labels(4, 2);
    assert_eq!(
        Dataset::new(byte_matrix(5, 3, |_, _| 0), ok_l(), ok_i(), ok_l()).unwrap_err(),
        DatasetError::TrainRows { images: 5, labels: 4 }
    );
    assert_eq!(
        Dataset::new(ok_i(), ok_l(), ok_i(), one_hot_labels(2, 2)).unwrap_err(),
        DatasetError::TestRows { images: 4, labels: 2 }
    );
    assert_eq!(
        Dataset::new(ok_i(), ok_l(), byte_matrix(4, 5, |_, _| 0), ok_l()).unwrap_err(),
        DatasetError::InputWidth { train: 3, test: 5 }
    );
    assert_eq!(
        Dataset::new(ok_i(), ok_l(), ok_i(), one_hot_labels(4, 3)).unwrap_err(),
        DatasetError::ClassCount { train: 2, test: 3 }
    );
    let two_hot = byte_matrix(4, 2, |_, _| 1);
    assert_eq!(
        Dataset::new(ok_i(), ok_l(), ok_i(), two_hot).unwrap_err(),
        DatasetError::NotOneHot
    );
    assert!(Dataset::new(ok_i(), ok_l(), ok_i(), ok_l()).is_ok());
}

#[test]
fn one_hot_check() {
    assert!(check_one_hot(&vec![0, 0, 1, 0]));
    assert!(!check_one_hot(&vec![0, 0, 0, 0]));
    assert!(!check_one_hot(&vec![1, 0, 1, 0]));
    assert!(!check_one_hot(&vec![0, 2, 0, 0]));
    assert!(!check_one_hot(&vec![]));
}

fn record(label: u8, fill: u8) -> Vec<u8> {
    let mut r = vec![label];
    r.extend(std::iter::repeat(fill).take(IMAGE_BYTES));
    r
}

#[test]
fn parse_records_splits_images_and_labels() {
    let mut bytes = record(3, 200);
    bytes.extend(record(0, 7));
    bytes[RECORD_BYTES + 5] = 99;
    let (images, labels) = parse_records(&bytes).unwrap();
    assert_eq!((images.nrows(), images.ncols()), (2, IMAGE_BYTES));
    assert_eq!((labels.nrows(), labels.ncols()), (2, NUM_CLASSES));
    assert_eq!(labels.row_vec(0), vec![0, 0, 0, 1, 0, 0, 0, 0, 0, 0]);
    assert_eq!(labels.row_vec(1), vec![1, 0, 0, 0, 0, 0, 0, 0, 0, 0]);
    assert!(images.row_vec(0).iter().all(|&b| b == 200));
    assert_eq!(images.get(1, 4), 99);
    assert_eq!(images.get(1, 5), 7);
    let ds = Dataset::new(images, labels, byte_matrix(0, IMAGE_BYTES, |_, _| 0), byte_matrix(0, NUM_CLASSES, |_, _| 0));
    assert!(ds.is_ok());
}

#[test]
fn parse_records_errors() {
    let mut bytes = record(1, 0);
    bytes.pop();
    assert_eq!(parse_records(&bytes).unwrap_err(), RecordError::Truncated { len: RECORD_BYTES - 1 });
    let mut bytes = record(1, 0);
    bytes.extend(record(10, 0));
    assert_eq!(parse_records(&bytes).unwrap_err(), RecordError::BadLabel { record: 1, label: 10 });
    let (images, labels) = parse_records(&vec![]).unwrap();
    assert_eq!((images.nrows(), labels.nrows()), (0, 0));
}

#[test]
fn topology_forward_shape() {
    let mut t = Topology::new();
    assert_eq!(t.output_size(5), Some(5));
    assert_eq!(t.add_layer(LayerShape { input_size: 784, output_size: 256 }), Ok(()));
    assert_eq!(t.add_layer(LayerShape { input_size: 256, output_size: 256 }), Ok(()));
    assert_eq!(t.add_layer(LayerShape { input_size: 256, output_size: 10 }), Ok(()));
    assert_eq!(t.len(), 3);
    assert_eq!(t.output_size(784), Some(10));
    assert_eq!(t.output_size(783), None);
}

#[test]
fn topology_rejects_unchained_layer() {
    let mut t = Topology::new();
    assert_eq!(t.add_layer(LayerShape { input_size: 2, output_size: 4 }), Ok(()));
    assert_eq!(
        t.add_layer(LayerShape { input_size: 3, output_size: 2 }),
        Err(ShapeMismatch { expected: 4, found: 3 })
    );
    assert_eq!(t.len(), 1);
    assert_eq!(t.output_size(2), Some(4));
}
