use vstd::prelude::*;
use crate::matrix::Matrix;

verus! {

/// The sort key of a 32-bit float given by its bit pattern: the magnitude
/// bits, negated when the sign bit is set, so that `-0.0` and `0.0` share a
/// key; every NaN gets the least key and never wins a maximum.
pub open spec fn float_key(bits: u32) -> int {
    let mag = bits % 0x8000_0000;
    if mag > 0x7f80_0000 {
        i32::MIN as int
    } else if bits >= 0x8000_0000 {
        -mag
    } else {
        mag as int
    }
}

/// The first index at which `s` attains its maximum (0 for an empty `s`).
pub open spec fn first_max(s: Seq<i32>) -> int
    decreases s.len(),
{
    if s.len() <= 1 {
        0
    } else {
        let k = first_max(s.drop_last());
        if s.last() > s[k] {
            s.len() - 1
        } else {
            k
        }
    }
}

/// `k` is the lowest index holding the largest value of `s`.
pub open spec fn is_first_max(s: Seq<i32>, k: int) -> bool {
    &&& 0 <= k < s.len()
    &&& forall|j: int| 0 <= j < s.len() ==> s[j] <= s[k]
    &&& forall|j: int| 0 <= j < k ==> s[j] < s[k]
}

/// The number of rows among the first `n` whose predicted class (first
/// maximum of the prediction row) is the labelled class (first maximum of the
/// label row).
pub open spec fn match_count(predicted: Seq<Seq<i32>>, labels: Seq<Seq<i32>>, n: int) -> nat
    decreases n,
{
    if n <= 0 {
        0
    } else {
        match_count(predicted, labels, n - 1) + if first_max(predicted[n - 1]) == first_max(
            labels[n - 1],
        ) {
            1nat
        } else {
            0nat
        }
    }
}

/// The first maximum is the lowest index of a largest value.
pub proof fn lemma_first_max(s: Seq<i32>)
    requires
        s.len() > 0,
    ensures
        is_first_max(s, first_max(s)),
    decreases s.len(),
{
    if s.len() > 1 {
        let t = s.drop_last();
        lemma_first_max(t);
        assert forall|j: int| 0 <= j < t.len() implies t[j] == s[j] by {}
    }
}

/// The count of matching rows never exceeds the number of rows, and reaches
/// it exactly when every row matches: an accuracy `count / n` lies in
/// `[0, 1]` and is 1 precisely on a set where every prediction is right.
pub proof fn lemma_match_count_bounds(predicted: Seq<Seq<i32>>, labels: Seq<Seq<i32>>, n: int)
    requires
        0 <= n,
    ensures
        match_count(predicted, labels, n) <= n,
        match_count(predicted, labels, n) == n <==> forall|i: int|
            0 <= i < n ==> first_max(#[trigger] predicted[i]) == first_max(labels[i]),
    decreases n,
{
    if n > 0 {
        lemma_match_count_bounds(predicted, labels, n - 1);
        if match_count(predicted, labels, n) == n {
            assert forall|i: int| 0 <= i < n implies first_max(#[trigger] predicted[i])
                == first_max(labels[i]) by {
                if i < n - 1 {
                } else {
                }
            }
        }
    }
}

/// The sort key of the float with bit pattern `bits`: for floats that are not
/// NaN, keys compare as the floats do; NaN sorts below everything.
pub fn order_key(bits: u32) -> (r: i32)
    ensures
        r == float_key(bits),
{
    let negative = bits >= 0x8000_0000;
    let mag: u32 = if negative {
        bits - 0x8000_0000
    } else {
        bits
    };
    if mag > 0x7f80_0000 {
        i32::MIN
    } else if negative {
        -(mag as i32)
    } else {
        mag as i32
    }
}

/// The lowest index holding the largest entry of `values`.
pub fn argmax_first(values: &Vec<i32>) -> (r: usize)
    requires
        values@.len() > 0,
    ensures
        r == first_max(values@),
        is_first_max(values@, r as int),
{
    let n = values.len();
    let mut best: usize = 0;
    let mut i: usize = 1;
    while i < n
        invariant
            1 <= i <= n,
            n == values@.len(),
            best == first_max(values@.subrange(0, i as int)),
            best < i,
        decreases n - i,
    {
        let ghost prefix = values@.subrange(0, i as int + 1);
        assert(prefix.drop_last() =~= values@.subrange(0, i as int));
        if values[i] > values[best] {
            best = i;
        }
        i = i + 1;
    }
    assert(values@.subrange(0, n as int) =~= values@);
    proof {
        lemma_first_max(values@);
    }
    best
}

/// The number of rows whose predicted class, the first maximum of the
/// prediction row, equals the labelled class, the first maximum of the label
/// row.
pub fn count_matches(predicted: &Matrix<i32>, labels: &Matrix<i32>) -> (r: usize)
    requires
        predicted.wf(),
        labels.wf(),
        predicted@.len() == labels@.len(),
        predicted.num_cols() > 0,
        labels.num_cols() > 0,
    ensures
        r == match_count(predicted@, labels@, predicted@.len() as int),
        r <= predicted@.len(),
{
    let n = predicted.nrows();
    let mut correct: usize = 0;
    let mut i: usize = 0;
    while i < n
        invariant
            i <= n,
            n == predicted@.len(),
            n == labels@.len(),
            predicted.wf(),
            labels.wf(),
            predicted.num_cols() > 0,
            labels.num_cols() > 0,
            correct == match_count(predicted@, labels@, i as int),
            correct <= i,
        decreases n - i,
    {
        let p = predicted.row_vec(i);
        let l = labels.row_vec(i);
        proof {
            crate::matrix::lemma_row_in_bounds(predicted.num_rows(), predicted.num_cols(), i as int);
            crate::matrix::lemma_row_in_bounds(labels.num_rows(), labels.num_cols(), i as int);
        }
        let pi = argmax_first(&p);
        let li = argmax_first(&l);
        if pi == li {
            correct = correct + 1;
        }
        i = i + 1;
    }
    correct
}

} // verus!
