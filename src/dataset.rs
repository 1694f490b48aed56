use vstd::prelude::*;
use crate::matrix::Matrix;

verus! {

/// `row` holds a single 1 at index `c` and 0 everywhere else.
pub open spec fn one_hot_at(row: Seq<u8>, c: int) -> bool {
    &&& 0 <= c < row.len()
    &&& row[c] == 1
    &&& forall|j: int| 0 <= j < row.len() && j != c ==> row[j] == 0
}

/// `row` is a one-hot label: exactly one entry is 1 and the rest are 0.
pub open spec fn is_one_hot(row: Seq<u8>) -> bool {
    exists|c: int| one_hot_at(row, c)
}

/// Every row of `m` is a one-hot label.
pub open spec fn all_one_hot(m: Seq<Seq<u8>>) -> bool {
    forall|i: int| 0 <= i < m.len() ==> is_one_hot(#[trigger] m[i])
}

/// Whether `row` is a one-hot label.
pub fn check_one_hot(row: &Vec<u8>) -> (r: bool)
    ensures
        r == is_one_hot(row@),
{
    let n = row.len();
    let mut ones: usize = 0;
    let mut pos: usize = 0;
    let mut i: usize = 0;
    while i < n
        invariant
            i <= n,
            n == row@.len(),
            ones <= 1,
            ones == 0 ==> forall|j: int| 0 <= j < i ==> row@[j] == 0,
            ones == 1 ==> pos < i && row@[pos as int] == 1 && forall|j: int|
                0 <= j < i && j != pos ==> row@[j] == 0,
        decreases n - i,
    {
        let v = row[i];
        if v > 1 {
            assert forall|c: int| !one_hot_at(row@, c) by {
                if one_hot_at(row@, c) && c != i {
                    assert(row@[i as int] == 0);
                }
            }
            return false;
        }
        if v == 1 {
            if ones == 1 {
                assert forall|c: int| !one_hot_at(row@, c) by {
                    if one_hot_at(row@, c) {
                        if c == pos {
                            assert(row@[i as int] == 0);
                        } else {
                            assert(row@[pos as int] == 0);
                        }
                    }
                }
                return false;
            }
            ones = 1;
            pos = i;
        }
        i = i + 1;
    }
    if ones == 1 {
        assert(one_hot_at(row@, pos as int));
        true
    } else {
        assert forall|c: int| !one_hot_at(row@, c) by {
            if one_hot_at(row@, c) {
                assert(row@[c] == 0);
            }
        }
        false
    }
}

/// Whether every row of `m` is a one-hot label.
pub fn check_all_one_hot(m: &Matrix<u8>) -> (r: bool)
    requires
        m.wf(),
    ensures
        r == all_one_hot(m@),
{
    let n = m.nrows();
    let mut i: usize = 0;
    while i < n
        invariant
            i <= n,
            n == m@.len(),
            m.wf(),
            forall|j: int| 0 <= j < i ==> is_one_hot(#[trigger] m@[j]),
        decreases n - i,
    {
        let row = m.row_vec(i);
        if !check_one_hot(&row) {
            assert(!is_one_hot(m@[i as int]));
            return false;
        }
        i = i + 1;
    }
    true
}

/// Why four matrices do not form a dataset.
#[derive(Debug, Clone, Copy, PartialEq, Eq)]
pub enum DatasetError {
    /// The training images and labels have different numbers of rows.
    TrainRows { images: usize, labels: usize },
    /// The test images and labels have different numbers of rows.
    TestRows { images: usize, labels: usize },
    /// Training and test images have different widths.
    InputWidth { train: usize, test: usize },
    /// Training and test labels have different widths.
    ClassCount { train: usize, test: usize },
    /// Some label row is not one-hot.
    NotOneHot,
}

/// Training and test images with their one-hot labels, held in memory.
/// Each image is a row of raw pixel bytes; each label is a one-hot row.
#[derive(Debug)]
pub struct Dataset {
    pub train_images: Matrix<u8>,
    pub train_labels: Matrix<u8>,
    pub test_images: Matrix<u8>,
    pub test_labels: Matrix<u8>,
}

impl Dataset {
    pub open spec fn wf(&self) -> bool {
        &&& self.train_images.wf()
        &&& self.train_labels.wf()
        &&& self.test_images.wf()
        &&& self.test_labels.wf()
        &&& self.train_images@.len() == self.train_labels@.len()
        &&& self.test_images@.len() == self.test_labels@.len()
        &&& self.train_images.num_cols() == self.test_images.num_cols()
        &&& self.train_labels.num_cols() == self.test_labels.num_cols()
        &&& all_one_hot(self.train_labels@)
        &&& all_one_hot(self.test_labels@)
    }

    /// Puts the four matrices together, checking that their shapes agree and
    /// that every label is one-hot. The checks are made in the order of the
    /// variants of `DatasetError`, and the first that fails is reported.
    pub fn new(
        train_images: Matrix<u8>,
        train_labels: Matrix<u8>,
        test_images: Matrix<u8>,
        test_labels: Matrix<u8>,
    ) -> (r: Result<Dataset, DatasetError>)
        requires
            train_images.wf(),
            train_labels.wf(),
            test_images.wf(),
            test_labels.wf(),
        ensures
            r matches Ok(d) ==> d.wf() && d.train_images == train_images && d.train_labels
                == train_labels && d.test_images == test_images && d.test_labels == test_labels,
            r is Ok <==> (train_images@.len() == train_labels@.len() && test_images@.len()
                == test_labels@.len() && train_images.num_cols() == test_images.num_cols()
                && train_labels.num_cols() == test_labels.num_cols() && all_one_hot(
                train_labels@,
            ) && all_one_hot(test_labels@)),
            r matches Err(DatasetError::TrainRows { images, labels }) ==> images
                == train_images@.len() && labels == train_labels@.len() && images != labels,
            r matches Err(DatasetError::TestRows { images, labels }) ==> train_images@.len()
                == train_labels@.len() && images == test_images@.len() && labels
                == test_labels@.len() && images != labels,
            r matches Err(DatasetError::InputWidth { train, test }) ==> train_images@.len()
                == train_labels@.len() && test_images@.len() == test_labels@.len() && train
                == train_images.num_cols() && test == test_images.num_cols() && train != test,
            r matches Err(DatasetError::ClassCount { train, test }) ==> train_images@.len()
                == train_labels@.len() && test_images@.len() == test_labels@.len()
                && train_images.num_cols() == test_images.num_cols() && train
                == train_labels.num_cols() && test == test_labels.num_cols() && train != test,
            r matches Err(DatasetError::NotOneHot) ==> train_images@.len()
                == train_labels@.len() && test_images@.len() == test_labels@.len()
                && train_images.num_cols() == test_images.num_cols() && train_labels.num_cols()
                == test_labels.num_cols(),
    {
        let a = train_images.nrows();
        let b = train_labels.nrows();
        if a != b {
            return Err(DatasetError::TrainRows { images: a, labels: b });
        }
        let c = test_images.nrows();
        let d = test_labels.nrows();
        if c != d {
            return Err(DatasetError::TestRows { images: c, labels: d });
        }
        let w1 = train_images.ncols();
        let w2 = test_images.ncols();
        if w1 != w2 {
            return Err(DatasetError::InputWidth { train: w1, test: w2 });
        }
        let k1 = train_labels.ncols();
        let k2 = test_labels.ncols();
        if k1 != k2 {
            return Err(DatasetError::ClassCount { train: k1, test: k2 });
        }
        if !check_all_one_hot(&train_labels) || !check_all_one_hot(&test_labels) {
            return Err(DatasetError::NotOneHot);
        }
        Ok(Dataset { train_images, train_labels, test_images, test_labels })
    }

    /// The training rows `start .. start + batch_size`, images and labels,
    /// as copies of their own.
    pub fn get_batch(&self, start: usize, batch_size: usize) -> (r: (Matrix<u8>, Matrix<u8>))
        requires
            self.wf(),
            start + batch_size <= self.train_images@.len(),
        ensures
            r.0.wf(),
            r.1.wf(),
            r.0.num_cols() == self.train_images.num_cols(),
            r.1.num_cols() == self.train_labels.num_cols(),
            r.0@ == self.train_images@.subrange(start as int, start + batch_size),
            r.1@ == self.train_labels@.subrange(start as int, start + batch_size),
            all_one_hot(r.1@),
    {
        let images = self.train_images.slice_rows(start, batch_size);
        let labels = self.train_labels.slice_rows(start, batch_size);
        assert forall|i: int| 0 <= i < labels@.len() implies is_one_hot(#[trigger] labels@[i]) by {
            assert(labels@[i] == self.train_labels@[start + i]);
        }
        (images, labels)
    }

    /// The number of training rows.
    pub fn get_train_size(&self) -> (r: usize)
        ensures
            r == self.train_images@.len(),
    {
        self.train_images.nrows()
    }

    /// The number of test rows.
    pub fn get_test_size(&self) -> (r: usize)
        ensures
            r == self.test_images@.len(),
    {
        self.test_images.nrows()
    }

    /// The number of entries of an image.
    pub fn get_input_size(&self) -> (r: usize)
        ensures
            r == self.train_images.num_cols(),
    {
        self.train_images.ncols()
    }

    /// The width of a label row: the number of classes.
    pub fn get_num_classes(&self) -> (r: usize)
        ensures
            r == self.train_labels.num_cols(),
    {
        self.train_labels.ncols()
    }
}

} // verus!
