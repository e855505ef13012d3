//! The classifier itself: parameter layout, the training sweep, and
//! prediction, all over double-precision bit patterns.

use vstd::prelude::*;

use crate::scalar::{
    add_bits, d_add, d_div, d_exp, d_gt, d_mul, d_neg, d_sub, div_bits, exp_bits, gt_bits,
    mul_bits, neg_bits, sub_bits, BITS_HALF, BITS_ONE, BITS_ZERO,
};

verus! {

/// The classifier: a weight per feature, a bias, a learning rate, and a
/// flag that records whether a training pass has completed. Every scalar
/// is the bit pattern of a double-precision number.
pub struct LogisticRegression {
    pub weights: Vec<u64>,
    pub bias: u64,
    pub learning_rate: u64,
    pub initialized: bool,
}

/// The classifier's mathematical state: its fields as plain values.
#[verifier::ext_equal]
pub ghost struct ModelView {
    pub weights: Seq<u64>,
    pub bias: u64,
    pub learning_rate: u64,
    pub initialized: bool,
}

impl View for LogisticRegression {
    type V = ModelView;

    open spec fn view(&self) -> ModelView {
        ModelView {
            weights: self.weights@,
            bias: self.bias,
            learning_rate: self.learning_rate,
            initialized: self.initialized,
        }
    }
}

/// The views of a sequence of feature vectors.
pub open spec fn views_of(x: Seq<Vec<u64>>) -> Seq<Seq<u64>> {
    Seq::new(x.len(), |i: int| x[i]@)
}

/// The logistic activation 1 / (1 + exp(-z)), over bit patterns.
pub open spec fn sigmoid_bits(z: u64) -> u64 {
    div_bits(BITS_ONE, add_bits(BITS_ONE, exp_bits(neg_bits(z))))
}

/// Left-to-right sum of the products w[i] * x[i], starting from 0.0,
/// in the order the summation runs.
pub open spec fn dot_bits(ws: Seq<u64>, xs: Seq<u64>) -> u64
    decreases ws.len(),
{
    if ws.len() == 0 {
        BITS_ZERO
    } else {
        add_bits(
            dot_bits(ws.drop_last(), xs.drop_last()),
            mul_bits(ws.last(), xs.last()),
        )
    }
}

/// The weighted sum: the dot product of weights and features, plus the bias.
pub open spec fn weighted_sum_bits(ws: Seq<u64>, xs: Seq<u64>, bias: u64) -> u64 {
    add_bits(dot_bits(ws, xs), bias)
}

/// The raw prediction: the logistic activation of the weighted sum.
pub open spec fn raw_bits(m: ModelView, x: Seq<u64>) -> u64 {
    sigmoid_bits(weighted_sum_bits(m.weights, x, m.bias))
}

/// The class label: 1 when the raw prediction is strictly above 0.5,
/// else 0 (so exactly 0.5 classifies as 0).
pub open spec fn classified_bits(m: ModelView, x: Seq<u64>) -> u8 {
    if gt_bits(raw_bits(m, x), BITS_HALF) {
        1u8
    } else {
        0u8
    }
}

/// One gradient step on one sample: with error e = prediction - target
/// and step le = learning_rate * e, each weight becomes
/// w[j] - le * x[j] and the bias becomes bias - le.
pub open spec fn sample_step(m: ModelView, x: Seq<u64>, y: u64) -> ModelView {
    let e = sub_bits(raw_bits(m, x), y);
    let le = mul_bits(m.learning_rate, e);
    ModelView {
        weights: Seq::new(m.weights.len(), |j: int| sub_bits(m.weights[j], mul_bits(le, x[j]))),
        bias: sub_bits(m.bias, le),
        learning_rate: m.learning_rate,
        initialized: m.initialized,
    }
}

/// The model after gradient steps on the first k samples, in order.
pub open spec fn run_samples(m: ModelView, xs: Seq<Seq<u64>>, ys: Seq<u64>, k: int) -> ModelView
    decreases k,
{
    if k <= 0 {
        m
    } else {
        sample_step(run_samples(m, xs, ys, k - 1), xs[k - 1], ys[k - 1])
    }
}

/// The model after e full passes over all samples.
pub open spec fn run_epochs(m: ModelView, xs: Seq<Seq<u64>>, ys: Seq<u64>, e: int) -> ModelView
    decreases e,
{
    if e <= 0 {
        m
    } else {
        run_samples(run_epochs(m, xs, ys, e - 1), xs, ys, xs.len() as int)
    }
}

/// The model after a whole training call: all epochs run, and the
/// initialized flag set unconditionally.
pub open spec fn trained(m: ModelView, xs: Seq<Seq<u64>>, ys: Seq<u64>, epochs: int) -> ModelView {
    let t = run_epochs(m, xs, ys, epochs);
    ModelView {
        weights: t.weights,
        bias: t.bias,
        learning_rate: t.learning_rate,
        initialized: true,
    }
}

proof fn lemma_run_samples_frame(m: ModelView, xs: Seq<Seq<u64>>, ys: Seq<u64>, k: int)
    ensures
        run_samples(m, xs, ys, k).weights.len() == m.weights.len(),
        run_samples(m, xs, ys, k).learning_rate == m.learning_rate,
        run_samples(m, xs, ys, k).initialized == m.initialized,
    decreases k,
{
    if k > 0 {
        lemma_run_samples_frame(m, xs, ys, k - 1);
    }
}

proof fn lemma_run_epochs_frame(m: ModelView, xs: Seq<Seq<u64>>, ys: Seq<u64>, e: int)
    ensures
        run_epochs(m, xs, ys, e).weights.len() == m.weights.len(),
        run_epochs(m, xs, ys, e).learning_rate == m.learning_rate,
        run_epochs(m, xs, ys, e).initialized == m.initialized,
    decreases e,
{
    if e > 0 {
        lemma_run_epochs_frame(m, xs, ys, e - 1);
        lemma_run_samples_frame(run_epochs(m, xs, ys, e - 1), xs, ys, xs.len() as int);
    }
}

impl LogisticRegression {
    /// A fresh model: `num_features` zero weights, zero bias, the given
    /// learning rate, not yet initialized.
    pub fn new(num_features: usize, learning_rate: u64) -> (r: Self)
        ensures
            r@.weights.len() == num_features,
            forall|i: int| 0 <= i < num_features ==> r@.weights[i] == BITS_ZERO,
            r@.bias == BITS_ZERO,
            r@.learning_rate == learning_rate,
            r@.initialized == false,
    {
        let mut weights: Vec<u64> = Vec::new();
        let mut i: usize = 0;
        while i < num_features
            invariant
                i <= num_features,
                weights@.len() == i,
                forall|j: int| 0 <= j < i ==> weights@[j] == BITS_ZERO,
            decreases num_features - i,
        {
            weights.push(BITS_ZERO);
            i += 1;
        }
        LogisticRegression { weights, bias: BITS_ZERO, learning_rate, initialized: false }
    }

    /// The logistic activation applied to `z`.
    pub fn sigmoid(&self, z: u64) -> (r: u64)
        ensures
            r == sigmoid_bits(z),
    {
        let e = d_exp(d_neg(z));
        d_div(BITS_ONE, d_add(BITS_ONE, e))
    }

    /// The dot product of the weights and the features, plus the bias.
    pub fn weighted_sum(&self, features: &Vec<u64>) -> (r: u64)
        requires
            features@.len() == self.weights@.len(),
        ensures
            r == weighted_sum_bits(self.weights@, features@, self.bias),
    {
        let mut acc: u64 = BITS_ZERO;
        let mut i: usize = 0;
        while i < self.weights.len()
            invariant
                i <= self.weights@.len(),
                features@.len() == self.weights@.len(),
                acc == dot_bits(self.weights@.take(i as int), features@.take(i as int)),
            decreases self.weights@.len() - i,
        {
            proof {
                assert(self.weights@.take(i + 1 as int).drop_last() =~= self.weights@.take(
                    i as int,
                ));
                assert(features@.take(i + 1 as int).drop_last() =~= features@.take(i as int));
            }
            acc = d_add(acc, d_mul(self.weights[i], features[i]));
            i += 1;
        }
        proof {
            assert(self.weights@.take(self.weights@.len() as int) =~= self.weights@);
            assert(features@.take(self.weights@.len() as int) =~= features@);
        }
        d_add(acc, self.bias)
    }

    /// The raw prediction for one feature vector.
    pub fn predict_raw(&self, features: &Vec<u64>) -> (r: u64)
        requires
            features@.len() == self.weights@.len(),
        ensures
            r == raw_bits(self@, features@),
    {
        let z = self.weighted_sum(features);
        self.sigmoid(z)
    }

    /// The class label for one feature vector: 1 when the raw prediction
    /// is strictly above 0.5, else 0.
    pub fn predict(&self, features: &Vec<u64>) -> (r: u8)
        requires
            features@.len() == self.weights@.len(),
        ensures
            r == classified_bits(self@, features@),
            r == 1 <==> gt_bits(raw_bits(self@, features@), BITS_HALF),
            r == 0 || r == 1,
    {
        if d_gt(self.predict_raw(features), BITS_HALF) {
            1
        } else {
            0
        }
    }

    /// Gradient-descent training: `epochs` passes over the samples in
    /// order, each applying one gradient step per sample with the current
    /// parameters, then the initialized flag is set unconditionally.
    pub fn train(&mut self, x: &Vec<Vec<u64>>, y: &Vec<u64>, epochs: usize)
        requires
            x@.len() == y@.len(),
            x@.len() > 0,
            forall|i: int| 0 <= i < x@.len() ==> #[trigger] x@[i]@.len() == old(self).weights@.len(),
        ensures
            final(self)@ == trained(old(self)@, views_of(x@), y@, epochs as int),
            final(self).initialized == true,
            final(self).weights@.len() == old(self).weights@.len(),
            final(self).learning_rate == old(self).learning_rate,
            epochs == 0 ==> final(self).weights@ == old(self).weights@ && final(self).bias
                == old(self).bias,
    {
        let ghost m0 = self@;
        let ghost xs = views_of(x@);
        let ghost ys = y@;
        let n = x.len();
        let mut e: usize = 0;
        while e < epochs
            invariant
                e <= epochs,
                n == xs.len(),
                xs == views_of(x@),
                ys == y@,
                xs.len() == ys.len(),
                forall|i: int| 0 <= i < xs.len() ==> #[trigger] xs[i].len() == m0.weights.len(),
                self@ == run_epochs(m0, xs, ys, e as int),
                self.weights@.len() == m0.weights.len(),
            decreases epochs - e,
        {
            let ghost me = self@;
            proof {
                lemma_run_epochs_frame(m0, xs, ys, e as int);
            }
            let mut i: usize = 0;
            while i < n
                invariant
                    i <= n,
                    n == xs.len(),
                    xs == views_of(x@),
                    ys == y@,
                    xs.len() == ys.len(),
                    forall|k: int| 0 <= k < xs.len() ==> #[trigger] xs[k].len()
                        == m0.weights.len(),
                    me.weights.len() == m0.weights.len(),
                    me.learning_rate == m0.learning_rate,
                    self@ == run_samples(me, xs, ys, i as int),
                    self.weights@.len() == m0.weights.len(),
                decreases n - i,
            {
                proof {
                    lemma_run_samples_frame(me, xs, ys, i as int);
                }
                let ghost cur = self@;
                let features = &x[i];
                proof {
                    assert(features@ == xs[i as int]);
                }
                let z = self.weighted_sum(features);
                let p = self.sigmoid(z);
                let err = d_sub(p, y[i]);
                let le = d_mul(self.learning_rate, err);
                proof {
                    assert(le == mul_bits(
                        cur.learning_rate,
                        sub_bits(raw_bits(cur, features@), ys[i as int]),
                    ));
                }
                let mut j: usize = 0;
                while j < self.weights.len()
                    invariant
                        j <= cur.weights.len(),
                        self.weights@.len() == cur.weights.len(),
                        features@.len() == cur.weights.len(),
                        self.bias == cur.bias,
                        self.learning_rate == cur.learning_rate,
                        self.initialized == cur.initialized,
                        forall|k: int| 0 <= k < j ==> self.weights@[k] == sub_bits(
                            cur.weights[k],
                            mul_bits(le, features@[k]),
                        ),
                        forall|k: int| j <= k < cur.weights.len() ==> self.weights@[k]
                            == cur.weights[k],
                    decreases cur.weights.len() - j,
                {
                    let wj = self.weights[j];
                    let upd = d_sub(wj, d_mul(le, features[j]));
                    self.weights.set(j, upd);
                    j += 1;
                }
                self.bias = d_sub(self.bias, le);
                proof {
                    assert(self@.weights =~= sample_step(cur, xs[i as int], ys[i as int]).weights);
                    assert(self@ =~= sample_step(cur, xs[i as int], ys[i as int]));
                    assert(run_samples(me, xs, ys, i + 1 as int) == sample_step(
                        run_samples(me, xs, ys, i as int),
                        xs[i as int],
                        ys[i as int],
                    ));
                }
                i += 1;
            }
            proof {
                assert(run_epochs(m0, xs, ys, e + 1 as int) == run_samples(
                    run_epochs(m0, xs, ys, e as int),
                    xs,
                    ys,
                    xs.len() as int,
                ));
            }
            e += 1;
        }
        self.initialized = true;
        proof {
            lemma_run_epochs_frame(m0, xs, ys, epochs as int);
            assert(self@ =~= trained(m0, xs, ys, epochs as int));
        }
    }
}

} // verus!
