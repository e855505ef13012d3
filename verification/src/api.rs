//! The boundary rules of the service: which requests are rejected, with
//! which error, and what the accepted ones do to the model. The
//! transport itself (HTTP, JSON envelopes, file handling) is the
//! caller's; these functions take and return plain values.

use vstd::prelude::*;

use crate::model::{
    classified_bits, raw_bits, trained, views_of, LogisticRegression, ModelView,
};
use crate::scalar::BITS_ZERO;

verus! {

/// Why a training request is invalid.
#[derive(Debug)]
pub enum TrainingFault {
    /// The feature set or the target set is empty.
    EmptySets,
    /// The number of feature vectors differs from the number of targets.
    SampleCountMismatch { features: usize, targets: usize },
    /// The first feature vector whose length differs from the model's
    /// weight count.
    SampleFeatureMismatch { index: usize, received: usize, expected: usize },
}

/// The errors the operations surface. All are client-input errors.
#[derive(Debug)]
pub enum ApiError {
    /// A prediction's feature vector has the wrong length.
    FeatureMismatch { expected: usize, received: usize },
    /// A training request is invalid.
    InvalidRequest(TrainingFault),
    /// Prediction was attempted before any training or restore.
    ModelNotReady,
}

impl ApiError {
    /// The HTTP status such an error maps to: every variant is a bad
    /// request.
    pub fn status_code(&self) -> (r: u16)
        ensures
            r == 400,
    {
        match self {
            ApiError::FeatureMismatch { .. } => 400,
            ApiError::InvalidRequest(_) => 400,
            ApiError::ModelNotReady => 400,
        }
    }
}

/// Whether a training request fits the model: both sets non-empty, one
/// target per feature vector, and every feature vector as long as the
/// weight vector.
pub open spec fn valid_training_data(m: ModelView, xs: Seq<Seq<u64>>, ys: Seq<u64>) -> bool {
    &&& xs.len() > 0
    &&& ys.len() > 0
    &&& xs.len() == ys.len()
    &&& forall|i: int| 0 <= i < xs.len() ==> #[trigger] xs[i].len() == m.weights.len()
}

/// The first index whose feature vector does not have length `w`;
/// `xs.len()` when every one does.
pub open spec fn first_bad_sample(xs: Seq<Seq<u64>>, w: int) -> int
    decreases xs.len(),
{
    if xs.len() == 0 {
        0
    } else if xs[0].len() != w {
        0
    } else {
        1 + first_bad_sample(xs.drop_first(), w)
    }
}

/// `first_bad_sample` names the first offending index: everything before
/// it fits, and it offends unless it is `xs.len()`.
pub proof fn lemma_first_bad_sample(xs: Seq<Seq<u64>>, w: int)
    ensures
        0 <= first_bad_sample(xs, w) <= xs.len(),
        first_bad_sample(xs, w) < xs.len() ==> xs[first_bad_sample(xs, w)].len() != w,
        forall|j: int| 0 <= j < first_bad_sample(xs, w) ==> #[trigger] xs[j].len() == w,
    decreases xs.len(),
{
    if xs.len() > 0 && xs[0].len() == w {
        lemma_first_bad_sample(xs.drop_first(), w);
        assert(forall|j: int|
            0 <= j < first_bad_sample(xs.drop_first(), w) ==> #[trigger] xs.drop_first()[j].len()
                == w);
        assert forall|j: int| 0 <= j < first_bad_sample(xs, w) implies #[trigger] xs[j].len()
            == w by {
            if j > 0 {
                assert(xs[j] == xs.drop_first()[j - 1]);
            }
        }
    }
}

/// The outcome a training request is owed: the error the reference
/// design reports, in its order of checks, or acceptance.
pub open spec fn training_validation(xs: Seq<Seq<u64>>, ys: Seq<u64>, w: int) -> Result<
    (),
    ApiError,
> {
    if xs.len() == 0 || ys.len() == 0 {
        Err(ApiError::InvalidRequest(TrainingFault::EmptySets))
    } else if xs.len() != ys.len() {
        Err(
            ApiError::InvalidRequest(
                TrainingFault::SampleCountMismatch {
                    features: xs.len() as usize,
                    targets: ys.len() as usize,
                },
            ),
        )
    } else if first_bad_sample(xs, w) < xs.len() {
        Err(
            ApiError::InvalidRequest(
                TrainingFault::SampleFeatureMismatch {
                    index: first_bad_sample(xs, w) as usize,
                    received: xs[first_bad_sample(xs, w)].len() as usize,
                    expected: w as usize,
                },
            ),
        )
    } else {
        Ok(())
    }
}

/// The model a prediction request acts on: replaced by a fresh
/// zero-weight model at the supplied learning rate when the request asks
/// to reconfigure, unchanged otherwise.
pub open spec fn reconfigured(
    m: ModelView,
    learning_rate: Option<u64>,
    reconfigure: Option<bool>,
) -> ModelView {
    if learning_rate is Some && reconfigure == Some(true) {
        ModelView {
            weights: Seq::new(m.weights.len(), |i: int| BITS_ZERO),
            bias: BITS_ZERO,
            learning_rate: learning_rate->0,
            initialized: false,
        }
    } else {
        m
    }
}

/// A request to persist the model to a file.
pub struct SaveModelRequest {
    pub filepath: String,
}

/// A request to restore the model from a file.
pub struct LoadModelRequest {
    pub filepath: String,
}

impl LogisticRegression {
    /// The boundary's checks on a training request, in the reference
    /// order: empty sets, then the sample/target count, then each
    /// sample's length against the weight count.
    pub fn validate_training(&self, x: &Vec<Vec<u64>>, y: &Vec<u64>) -> (r: Result<(), ApiError>)
        ensures
            r == training_validation(views_of(x@), y@, self.weights@.len() as int),
            r is Ok <==> valid_training_data(self@, views_of(x@), y@),
    {
        proof {
            lemma_first_bad_sample(views_of(x@), self.weights@.len() as int);
        }
        if x.len() == 0 || y.len() == 0 {
            return Err(ApiError::InvalidRequest(TrainingFault::EmptySets));
        }
        if x.len() != y.len() {
            return Err(
                ApiError::InvalidRequest(
                    TrainingFault::SampleCountMismatch { features: x.len(), targets: y.len() },
                ),
            );
        }
        let expected = self.weights.len();
        let mut i: usize = 0;
        while i < x.len()
            invariant
                i <= x@.len(),
                x@.len() > 0,
                x@.len() == y@.len(),
                expected == self.weights@.len(),
                forall|j: int| 0 <= j < i ==> #[trigger] views_of(x@)[j].len() == expected,
            decreases x@.len() - i,
        {
            if x[i].len() != expected {
                proof {
                    let xs = views_of(x@);
                    let w = expected as int;
                    lemma_first_bad_sample(xs, w);
                    let fb = first_bad_sample(xs, w);
                    assert(xs[i as int].len() == x@[i as int]@.len());
                    assert(xs[i as int].len() != w);
                    assert(fb == i as int) by {
                        if fb < i as int {
                            assert(xs[fb].len() == w);
                        }
                        if fb > i as int {
                            assert(xs[i as int].len() == w);
                        }
                    }
                    assert(xs[fb].len() as usize == x@[i as int]@.len() as usize);
                    assert(xs.len() > 0 && y@.len() > 0 && xs.len() == y@.len());
                }
                return Err(
                    ApiError::InvalidRequest(
                        TrainingFault::SampleFeatureMismatch {
                            index: i,
                            received: x[i].len(),
                            expected,
                        },
                    ),
                );
            }
            i += 1;
        }
        proof {
            let xs = views_of(x@);
            let w = expected as int;
            let fb = first_bad_sample(xs, w);
            if fb < xs.len() {
                assert(xs[fb].len() == w);
            }
        }
        Ok(())
    }

    /// A full training request: validate, then train; a rejected request
    /// leaves the model untouched.
    pub fn train_validated(&mut self, x: &Vec<Vec<u64>>, y: &Vec<u64>, epochs: usize) -> (r:
        Result<(), ApiError>)
        ensures
            r == training_validation(views_of(x@), y@, old(self).weights@.len() as int),
            r is Ok <==> valid_training_data(old(self)@, views_of(x@), y@),
            r is Ok ==> final(self)@ == trained(old(self)@, views_of(x@), y@, epochs as int),
            r is Err ==> final(self)@ == old(self)@,
    {
        match self.validate_training(x, y) {
            Ok(()) => {
                proof {
                    let xs = views_of(x@);
                    assert forall|i: int| 0 <= i < x@.len() implies #[trigger] x@[i]@.len()
                        == self.weights@.len() by {
                        assert(xs[i].len() == x@[i]@.len());
                        assert(xs[i].len() == self@.weights.len());
                    }
                }
                self.train(x, y, epochs);
                Ok(())
            },
            Err(e) => Err(e),
        }
    }

    /// A full prediction request: reject when the model is not yet
    /// initialized or the feature vector has the wrong length; otherwise
    /// reconfigure when asked to, and return the class label and the raw
    /// prediction of the model that results.
    pub fn handle_prediction(
        &mut self,
        features: &Vec<u64>,
        learning_rate: Option<u64>,
        reconfigure: Option<bool>,
    ) -> (r: Result<(u8, u64), ApiError>)
        ensures
            r is Ok <==> old(self).initialized && features@.len() == old(self).weights@.len(),
            !old(self).initialized ==> r == Err::<(u8, u64), ApiError>(ApiError::ModelNotReady)
                && final(self)@ == old(self)@,
            old(self).initialized && features@.len() != old(self).weights@.len() ==> r == Err::<
                (u8, u64),
                ApiError,
            >(
                ApiError::FeatureMismatch {
                    expected: old(self).weights@.len() as usize,
                    received: features@.len() as usize,
                },
            ) && final(self)@ == old(self)@,
            r is Ok ==> final(self)@ == reconfigured(old(self)@, learning_rate, reconfigure) && r
                == Ok::<(u8, u64), ApiError>(
                (
                    classified_bits(final(self)@, features@),
                    raw_bits(final(self)@, features@),
                ),
            ),
    {
        if !self.initialized {
            return Err(ApiError::ModelNotReady);
        }
        if features.len() != self.weights.len() {
            return Err(
                ApiError::FeatureMismatch {
                    expected: self.weights.len(),
                    received: features.len(),
                },
            );
        }
        if let Some(lr) = learning_rate {
            if reconfigure.unwrap_or(false) {
                let n = self.weights.len();
                *self = LogisticRegression::new(n, lr);
                proof {
                    assert(self@.weights =~= reconfigured(
                        old(self)@,
                        learning_rate,
                        reconfigure,
                    ).weights);
                    assert(self@ =~= reconfigured(old(self)@, learning_rate, reconfigure));
                }
            }
        }
        let raw = self.predict_raw(features);
        let label = self.predict(features);
        Ok((label, raw))
    }
}

} // verus!
