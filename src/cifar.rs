use vstd::prelude::*;
use crate::dataset::{all_one_hot, is_one_hot, one_hot_at};
use crate::matrix::{Matrix, append_range, flat_row};

verus! {

/// Bytes of one image: 32 x 32 pixels, three colour planes.
pub const IMAGE_BYTES: usize = 3072;

/// Bytes of one record: a class byte followed by the image.
pub const RECORD_BYTES: usize = 3073;

/// The number of classes.
pub const NUM_CLASSES: usize = 10;

/// The one-hot row of `classes` entries with its 1 at `label`.
pub open spec fn one_hot_row(label: int, classes: nat) -> Seq<u8> {
    Seq::new(classes, |c: int| if c == label { 1u8 } else { 0u8 })
}

/// The class byte of record `k`.
pub open spec fn record_label(bytes: Seq<u8>, k: int) -> u8 {
    bytes[k * 3073]
}

/// The image bytes of record `k`.
pub open spec fn record_image(bytes: Seq<u8>, k: int) -> Seq<u8> {
    bytes.subrange(k * 3073 + 1, (k + 1) * 3073)
}

/// Every record among the first `n` names one of the ten classes.
pub open spec fn labels_valid(bytes: Seq<u8>, n: int) -> bool {
    forall|k: int| 0 <= k < n ==> #[trigger] record_label(bytes, k) < 10
}

/// Why a buffer is not a sequence of image records.
#[derive(Debug, Clone, Copy, PartialEq, Eq)]
pub enum RecordError {
    /// The length is not a whole number of records.
    Truncated { len: usize },
    /// Record `record` has class byte `label`, not below ten.
    BadLabel { record: usize, label: u8 },
}

/// Appends the one-hot row of `classes` entries with its 1 at `label`.
fn push_one_hot(out: &mut Vec<u8>, label: usize, classes: usize)
    ensures
        final(out)@ == old(out)@ + one_hot_row(label as int, classes as nat),
{
    let ghost start = out@;
    let mut c: usize = 0;
    while c < classes
        invariant
            c <= classes,
            out@ == start + one_hot_row(label as int, classes as nat).subrange(0, c as int),
        decreases classes - c,
    {
        if c == label {
            out.push(1u8);
        } else {
            out.push(0u8);
        }
        c = c + 1;
        assert(out@ =~= start + one_hot_row(label as int, classes as nat).subrange(0, c as int));
    }
    assert(one_hot_row(label as int, classes as nat).subrange(0, classes as int) =~= one_hot_row(
        label as int,
        classes as nat,
    ));
}

/// Splits a buffer of records, each a class byte followed by `IMAGE_BYTES`
/// image bytes, into an image matrix (one row per record) and a one-hot label
/// matrix (`NUM_CLASSES` columns). Fails on a buffer that is not a whole
/// number of records, and on the first record whose class byte is not below
/// `NUM_CLASSES`.
pub fn parse_records(bytes: &Vec<u8>) -> (r: Result<(Matrix<u8>, Matrix<u8>), RecordError>)
    ensures
        r is Ok <==> bytes@.len() % 3073 == 0 && labels_valid(bytes@, (bytes@.len() / 3073) as int),
        r matches Err(RecordError::Truncated { len }) ==> len == bytes@.len() && len % 3073 != 0,
        r matches Err(RecordError::BadLabel { record, label }) ==> bytes@.len() % 3073 == 0
            && record < bytes@.len() / 3073 && labels_valid(bytes@, record as int) && label
            == record_label(bytes@, record as int) && label >= 10,
        r matches Ok((images, labels)) ==> {
            &&& images.wf()
            &&& labels.wf()
            &&& images@.len() == bytes@.len() / 3073
            &&& labels@.len() == bytes@.len() / 3073
            &&& images.num_cols() == 3072
            &&& labels.num_cols() == 10
            &&& forall|k: int|
                0 <= k < images@.len() ==> #[trigger] images@[k] == record_image(bytes@, k)
            &&& forall|k: int|
                0 <= k < labels@.len() ==> #[trigger] labels@[k] == one_hot_row(
                    record_label(bytes@, k) as int,
                    10,
                )
            &&& all_one_hot(labels@)
        },
{
    let len = bytes.len();
    if len % RECORD_BYTES != 0 {
        return Err(RecordError::Truncated { len });
    }
    let n: usize = len / RECORD_BYTES;
    let mut images: Vec<u8> = Vec::new();
    let mut labels: Vec<u8> = Vec::new();
    let mut k: usize = 0;
    while k < n
        invariant
            k <= n,
            n == bytes@.len() / 3073,
            bytes@.len() == n * 3073,
            len == bytes@.len(),
            images@.len() == k * 3072,
            labels@.len() == k * 10,
            labels_valid(bytes@, k as int),
            forall|j: int| 0 <= j < k ==> #[trigger] flat_row(images@, 3072, j) == record_image(bytes@, j),
            forall|j: int| 0 <= j < k ==> #[trigger] flat_row(labels@, 10, j) == one_hot_row(
                record_label(bytes@, j) as int,
                10,
            ),
        decreases n - k,
    {
        proof {
            assert((k + 1) * 3073 <= n * 3073) by (nonlinear_arith)
                requires
                    k + 1 <= n,
            ;
            assert((k + 1) * 3073 == k * 3073 + 3073);
        }
        let base: usize = k * RECORD_BYTES;
        let label = bytes[base];
        assert(record_label(bytes@, k as int) == label);
        if label as usize >= NUM_CLASSES {
            return Err(RecordError::BadLabel { record: k, label });
        }
        let ghost old_images = images@;
        let ghost old_labels = labels@;
        push_one_hot(&mut labels, label as usize, NUM_CLASSES);
        append_range(&mut images, bytes, base + 1, base + RECORD_BYTES);
        assert forall|j: int| 0 <= j < k + 1 implies #[trigger] flat_row(images@, 3072, j)
            == record_image(bytes@, j) by {
            if j < k {
                assert(flat_row(images@, 3072, j) =~= flat_row(old_images, 3072, j));
            } else {
                assert(flat_row(images@, 3072, j) =~= record_image(bytes@, j));
            }
        }
        assert forall|j: int| 0 <= j < k + 1 implies #[trigger] flat_row(labels@, 10, j)
            == one_hot_row(record_label(bytes@, j) as int, 10) by {
            if j < k {
                assert(flat_row(labels@, 10, j) =~= flat_row(old_labels, 10, j));
            } else {
                assert(flat_row(labels@, 10, j) =~= one_hot_row(record_label(bytes@, j) as int, 10));
            }
        }
        k = k + 1;
    }
    let images = Matrix::from_flat(n, IMAGE_BYTES, images);
    let labels = Matrix::from_flat(n, NUM_CLASSES, labels);
    match (images, labels) {
        (Ok(images), Ok(labels)) => {
            assert forall|i: int| 0 <= i < labels@.len() implies is_one_hot(#[trigger] labels@[i]) by {
                let l = record_label(bytes@, i) as int;
                assert(labels@[i] == flat_row(labels.entries(), 10, i));
                assert(one_hot_at(labels@[i], l));
            }
            Ok((images, labels))
        },
        _ => Err(RecordError::Truncated { len }),
    }
}

} // verus!
