//! Persistence of the model as a structured record. A snapshot written
//! by the core carries every field; one read back may lack the bias or
//! the initialized flag (states saved by earlier schema versions), and
//! restoring resolves those with explicit defaults. The record's
//! rendering to bytes on disk is the caller's.

use vstd::prelude::*;

use crate::model::{LogisticRegression, ModelView};
use crate::scalar::BITS_ZERO;

verus! {

/// One persisted model snapshot, field for field. An absent field is
/// `None`.
pub struct ModelSnapshot {
    pub weights: Vec<u64>,
    pub bias: Option<u64>,
    pub learning_rate: u64,
    pub initialized: Option<bool>,
}

/// The snapshot's mathematical state.
#[verifier::ext_equal]
pub ghost struct SnapshotView {
    pub weights: Seq<u64>,
    pub bias: Option<u64>,
    pub learning_rate: u64,
    pub initialized: Option<bool>,
}

impl View for ModelSnapshot {
    type V = SnapshotView;

    open spec fn view(&self) -> SnapshotView {
        SnapshotView {
            weights: self.weights@,
            bias: self.bias,
            learning_rate: self.learning_rate,
            initialized: self.initialized,
        }
    }
}

/// The snapshot a model writes: every field present.
pub open spec fn snapshot_of(m: ModelView) -> SnapshotView {
    SnapshotView {
        weights: m.weights,
        bias: Some(m.bias),
        learning_rate: m.learning_rate,
        initialized: Some(m.initialized),
    }
}

/// The model a snapshot restores to: an absent bias defaults to 0.0,
/// an absent initialized flag to false.
pub open spec fn restored(s: SnapshotView) -> ModelView {
    ModelView {
        weights: s.weights,
        bias: if s.bias is Some {
            s.bias->0
        } else {
            BITS_ZERO
        },
        learning_rate: s.learning_rate,
        initialized: if s.initialized is Some {
            s.initialized->0
        } else {
            false
        },
    }
}

/// Writing a snapshot and restoring it preserves the weights, the bias,
/// the learning rate and the initialized flag exactly.
pub proof fn lemma_snapshot_round_trip(m: ModelView)
    ensures
        restored(snapshot_of(m)) == m,
{
    assert(restored(snapshot_of(m)) =~= m);
}

impl LogisticRegression {
    /// The snapshot of this model, with every field present.
    pub fn to_snapshot(&self) -> (r: ModelSnapshot)
        ensures
            r@ == snapshot_of(self@),
    {
        let mut weights: Vec<u64> = Vec::new();
        let mut i: usize = 0;
        while i < self.weights.len()
            invariant
                i <= self.weights@.len(),
                weights@ == self.weights@.take(i as int),
            decreases self.weights@.len() - i,
        {
            weights.push(self.weights[i]);
            i += 1;
            proof {
                assert(weights@ =~= self.weights@.take(i as int));
            }
        }
        proof {
            assert(self.weights@.take(self.weights@.len() as int) =~= self.weights@);
        }
        let r = ModelSnapshot {
            weights,
            bias: Some(self.bias),
            learning_rate: self.learning_rate,
            initialized: Some(self.initialized),
        };
        proof {
            assert(r@ =~= snapshot_of(self@));
        }
        r
    }

    /// The model a snapshot restores to, absent fields resolved to
    /// their defaults.
    pub fn from_snapshot(s: ModelSnapshot) -> (r: Self)
        ensures
            r@ == restored(s@),
    {
        let r = LogisticRegression {
            weights: s.weights,
            bias: match s.bias {
                Some(b) => b,
                None => BITS_ZERO,
            },
            learning_rate: s.learning_rate,
            initialized: match s.initialized {
                Some(f) => f,
                None => false,
            },
        };
        proof {
            assert(r@ =~= restored(s@));
        }
        r
    }
}

} // verus!
