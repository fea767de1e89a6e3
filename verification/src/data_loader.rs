//! Splitting a loaded data set into a held-out part and a training part.
//!
//! Reading the data from its source is the caller's side; this module holds
//! the split rule: the first `ratio` percent of the pairs (rounded down)
//! stay for training, the rest are held out.

use crate::matrix::Matrix;
use vstd::prelude::*;

verus! {

/// Splits a data set at `ratio` percent: the pairs from that point on come
/// first (the held-out set), the pairs before it second (the training set).
pub fn split_data<T: Copy>(data: Vec<(Matrix<T>, Matrix<T>)>, ratio: usize) -> (r: (
    Vec<(Matrix<T>, Matrix<T>)>,
    Vec<(Matrix<T>, Matrix<T>)>,
))
    requires
        ratio * data@.len() <= usize::MAX,
        ratio * data@.len() as int / 100 <= data@.len(),
    ensures
        r.0@ == data@.subrange(
            ratio * data@.len() as int / 100,
            data@.len() as int,
        ),
        r.1@ == data@.subrange(0, ratio * data@.len() as int / 100),
{
    let mut data = data;
    let len = data.len();
    let nb_elements = ratio * len / 100;
    let testing_data = data.split_off(nb_elements);
    (testing_data, data)
}

} // verus!
