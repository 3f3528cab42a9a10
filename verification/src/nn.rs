//! A feed-forward network of three fully connected layers: two rectified
//! hidden layers of one width and a logistic output layer.
//!
//! [`Net`] is the model that `@` gives: the six parameter grids, the three
//! layer widths and the learning rate. The passes and the descent step are
//! stated over it as plain matrix algebra.

use crate::chance::random_index;
use crate::scalar::{minus_one, one, Scalar};
use crate::tools::activations::{abs, drelu, is_pure, relu, sigmoid, sigmoid_spec};
use crate::tools::grid::Grid;
use crate::tools::matrix::Mat;
use vstd::prelude::*;

verus! {

/// The parameters of a network.
pub struct Net<T> {
    pub w1: Grid<T>,
    pub b1: Grid<T>,
    pub w2: Grid<T>,
    pub b2: Grid<T>,
    pub w3: Grid<T>,
    pub b3: Grid<T>,
    pub input: nat,
    pub hidden: nat,
    pub output: nat,
    pub lr: T,
}

/// What a forward pass computes: the weighted input `z` and the activation
/// `a` of each of the three layers.
pub struct Pass<T> {
    pub z1: Grid<T>,
    pub a1: Grid<T>,
    pub z2: Grid<T>,
    pub a2: Grid<T>,
    pub z3: Grid<T>,
    pub a3: Grid<T>,
}

/// The gradient of the loss in every parameter.
pub struct Grads<T> {
    pub dw1: Grid<T>,
    pub db1: Grid<T>,
    pub dw2: Grid<T>,
    pub db2: Grid<T>,
    pub dw3: Grid<T>,
    pub db3: Grid<T>,
}

impl<T> Net<T> {
    /// Every parameter has the shape that the layer widths give it.
    pub open spec fn wf(self) -> bool {
        &&& self.w1.wf() && self.w1.has_shape(self.hidden, self.input)
        &&& self.b1.wf() && self.b1.has_shape(self.hidden, 1)
        &&& self.w2.wf() && self.w2.has_shape(self.hidden, self.hidden)
        &&& self.b2.wf() && self.b2.has_shape(self.hidden, 1)
        &&& self.w3.wf() && self.w3.has_shape(self.output, self.hidden)
        &&& self.b3.wf() && self.b3.has_shape(self.output, 1)
    }

    /// Whether `x` is a feature vector for this network.
    pub open spec fn takes(self, x: Grid<T>) -> bool {
        x.wf() && x.has_shape(self.input, 1)
    }

    /// Whether `y` is a label vector for this network.
    pub open spec fn gives(self, y: Grid<T>) -> bool {
        y.wf() && y.has_shape(self.output, 1)
    }

    /// Whether `p` has the shapes of a pass through this network.
    pub open spec fn fits(self, p: Pass<T>) -> bool {
        &&& p.z1.wf() && p.z1.has_shape(self.hidden, 1)
        &&& p.a1.wf() && p.a1.has_shape(self.hidden, 1)
        &&& p.z2.wf() && p.z2.has_shape(self.hidden, 1)
        &&& p.a2.wf() && p.a2.has_shape(self.hidden, 1)
        &&& p.z3.wf() && p.z3.has_shape(self.output, 1)
        &&& p.a3.wf() && p.a3.has_shape(self.output, 1)
    }

    /// Whether the gradients have the shapes of the parameters.
    pub open spec fn matches(self, g: Grads<T>) -> bool {
        &&& g.dw1.wf() && g.dw1.same_shape(self.w1)
        &&& g.db1.wf() && g.db1.same_shape(self.b1)
        &&& g.dw2.wf() && g.dw2.same_shape(self.w2)
        &&& g.db2.wf() && g.db2.same_shape(self.b2)
        &&& g.dw3.wf() && g.dw3.same_shape(self.w3)
        &&& g.db3.wf() && g.db3.same_shape(self.b3)
    }
}

impl<T: Scalar> Net<T> {
    /// The forward pass on the feature vector `x`:
    /// `z = W a + B` layer by layer, rectified in the hidden layers and
    /// squashed by the logistic function in the output layer.
    pub open spec fn forward<E: Fn(T) -> T>(self, exp: E, x: Grid<T>) -> Pass<T> {
        let z1 = self.w1.mul(x).add(self.b1);
        let a1 = z1.relu();
        let z2 = self.w2.mul(a1).add(self.b2);
        let a2 = z2.relu();
        let z3 = self.w3.mul(a2).add(self.b3);
        let a3 = z3.sigmoid(exp);
        Pass { z1, a1, z2, a2, z3, a3 }
    }

    /// The backward pass for the pass `p` on the input `x` with the target
    /// `y`. The error at the output is `a3 - y` as it stands: the slope of
    /// the logistic function is not applied to it.
    pub open spec fn backward(self, p: Pass<T>, x: Grid<T>, y: Grid<T>) -> Grads<T> {
        let dz3 = p.a3.sub(y);
        let dw3 = dz3.mul(p.a2.transpose());
        let dz2 = p.z2.drelu().ele_mul(self.w3.transpose().mul(dz3));
        let dw2 = dz2.mul(p.a1.transpose());
        let dz1 = p.z1.drelu().ele_mul(self.w2.transpose().mul(dz2));
        let dw1 = dz1.mul(x.transpose());
        Grads { dw1, db1: dz1, dw2, db2: dz2, dw3, db3: dz3 }
    }

    /// One step of gradient descent on the first two layers:
    /// `W - lr * dW` and `B - lr * dB`. The third layer keeps its
    /// parameters.
    pub open spec fn update(
        self,
        dw1: Grid<T>,
        db1: Grid<T>,
        dw2: Grid<T>,
        db2: Grid<T>,
    ) -> Net<T> {
        Net {
            w1: self.w1.sub(dw1.scaler_mul(self.lr)),
            b1: self.b1.sub(db1.scaler_mul(self.lr)),
            w2: self.w2.sub(dw2.scaler_mul(self.lr)),
            b2: self.b2.sub(db2.scaler_mul(self.lr)),
            ..self
        }
    }

    /// Whether `xs` and `ys` are a data set for this network: as many
    /// feature vectors as label vectors, each of its shape.
    pub open spec fn learns_from(self, xs: Seq<Grid<T>>, ys: Seq<Grid<T>>) -> bool {
        &&& xs.len() == ys.len()
        &&& forall|i: int| 0 <= i < xs.len() ==> self.takes(#[trigger] xs[i])
        &&& forall|i: int| 0 <= i < ys.len() ==> self.gives(#[trigger] ys[i])
    }

    /// Gradients of zero in every parameter.
    pub open spec fn no_grads(self) -> Grads<T> {
        Grads {
            dw1: Grid::zeros(self.w1.rows, self.w1.cols),
            db1: Grid::zeros(self.b1.rows, self.b1.cols),
            dw2: Grid::zeros(self.w2.rows, self.w2.cols),
            db2: Grid::zeros(self.b2.rows, self.b2.cols),
            dw3: Grid::zeros(self.w3.rows, self.w3.cols),
            db3: Grid::zeros(self.b3.rows, self.b3.cols),
        }
    }

    /// The gradients of one sample: a forward pass, then the backward pass
    /// on what it computed.
    pub open spec fn sample_grads<E: Fn(T) -> T>(self, exp: E, x: Grid<T>, y: Grid<T>) -> Grads<T> {
        self.backward(self.forward(exp, x), x, y)
    }

    /// The gradients of the first `n` picked samples, each added to the sum
    /// of those before it.
    pub open spec fn batch_grads<E: Fn(T) -> T>(
        self,
        exp: E,
        xs: Seq<Grid<T>>,
        ys: Seq<Grid<T>>,
        picks: Seq<usize>,
        n: nat,
    ) -> Grads<T>
        decreases n,
    {
        if n == 0 {
            self.no_grads()
        } else {
            let sum = self.batch_grads(exp, xs, ys, picks, (n - 1) as nat);
            let pick = picks[n - 1] as int;
            let g = self.sample_grads(exp, xs[pick], ys[pick]);
            Grads {
                dw1: g.dw1.add(sum.dw1),
                db1: g.db1.add(sum.db1),
                dw2: g.dw2.add(sum.dw2),
                db2: g.db2.add(sum.db2),
                dw3: g.dw3.add(sum.dw3),
                db3: g.db3.add(sum.db3),
            }
        }
    }

    /// The loss tally `loss` with the magnitude of the output error of each
    /// of the first `n` picked samples added to it.
    pub open spec fn batch_loss<E: Fn(T) -> T>(
        self,
        exp: E,
        xs: Seq<Grid<T>>,
        ys: Seq<Grid<T>>,
        picks: Seq<usize>,
        n: nat,
        loss: Grid<T>,
    ) -> Grid<T>
        decreases n,
    {
        if n == 0 {
            loss
        } else {
            let pick = picks[n - 1] as int;
            self.batch_loss(exp, xs, ys, picks, (n - 1) as nat, loss).add(
                self.forward(exp, xs[pick]).a3.sub(ys[pick]).abs(),
            )
        }
    }

    /// The network after one mini-batch: the gradients of the picked samples
    /// summed, those of the first two layers divided by the number of
    /// picks, and one descent step taken with them.
    pub open spec fn after_batch<E: Fn(T) -> T>(
        self,
        exp: E,
        xs: Seq<Grid<T>>,
        ys: Seq<Grid<T>>,
        picks: Seq<usize>,
    ) -> Net<T> {
        let g = self.batch_grads(exp, xs, ys, picks, picks.len());
        let share = one::<T>().div_spec(T::of_usize(picks.len() as usize));
        self.update(
            g.dw1.scaler_mul(share),
            g.db1.scaler_mul(share),
            g.dw2.scaler_mul(share),
            g.db2.scaler_mul(share),
        )
    }

    /// The network and the loss tally after the first `b` batches of an
    /// epoch that starts from `self` with a tally of zeros.
    pub open spec fn epoch<E: Fn(T) -> T>(
        self,
        exp: E,
        xs: Seq<Grid<T>>,
        ys: Seq<Grid<T>>,
        plan: Seq<Seq<usize>>,
        b: nat,
    ) -> (Net<T>, Grid<T>)
        decreases b,
    {
        if b == 0 {
            (self, Grid::zeros(self.output, 1))
        } else {
            let (net, loss) = self.epoch(exp, xs, ys, plan, (b - 1) as nat);
            let picks = plan[b - 1];
            (
                net.after_batch(exp, xs, ys, picks),
                net.batch_loss(exp, xs, ys, picks, picks.len(), loss),
            )
        }
    }

    /// The mean loss that an epoch reports: the tally divided by the number
    /// of samples, summed, and divided by the number of its cells.
    pub open spec fn mean_loss(loss: Grid<T>, samples: usize) -> T {
        loss.scaler_mul(one::<T>().div_spec(T::of_usize(samples))).sum_all().div_spec(
            T::of_usize(loss.rows as usize).mul_spec(T::of_usize(loss.cols as usize)),
        )
    }

    /// The network after the epochs that `plans` lays out, one plan of
    /// batches for each, and the mean loss of each epoch.
    pub open spec fn trained<E: Fn(T) -> T>(
        self,
        exp: E,
        xs: Seq<Grid<T>>,
        ys: Seq<Grid<T>>,
        plans: Seq<Seq<Seq<usize>>>,
    ) -> (Net<T>, Seq<T>)
        decreases plans.len(),
    {
        if plans.len() == 0 {
            (self, Seq::empty())
        } else {
            let (net, losses) = self.trained(exp, xs, ys, plans.drop_last());
            let (next, loss) = net.epoch(exp, xs, ys, plans.last(), plans.last().len());
            (next, losses.push(Self::mean_loss(loss, xs.len() as usize)))
        }
    }
}

/// The models of the matrices of a data set.
pub open spec fn grids<T>(v: Seq<Mat<T>>) -> Seq<Grid<T>> {
    Seq::new(v.len(), |i: int| v[i]@)
}

/// The picks of each batch of a plan.
pub open spec fn batches(plan: Seq<Vec<usize>>) -> Seq<Seq<usize>> {
    Seq::new(plan.len(), |i: int| plan[i]@)
}

/// Whether every pick of every batch names one of `samples` samples.
pub open spec fn picks_below(plan: Seq<Seq<usize>>, samples: nat) -> bool {
    forall|b: int, i: int|
        0 <= b < plan.len() && 0 <= i < plan[b].len() ==> (#[trigger] plan[b][i]) < samples
}

/// How many whole batches of `batch_size` samples an epoch over `samples`
/// samples holds: none where the batch size is not positive.
pub open spec fn batch_count(samples: nat, batch_size: int) -> nat {
    if batch_size > 0 {
        (samples as int / batch_size) as nat
    } else {
        0
    }
}

/// Whether `plans` lays out `epochs` epochs over `samples` samples: one
/// plan for each epoch, each of `batch_count` batches of `batch_size`
/// picks, each pick the index of a sample.
pub open spec fn laid_out(
    plans: Seq<Seq<Seq<usize>>>,
    epochs: int,
    batch_size: int,
    samples: nat,
) -> bool {
    &&& plans.len() == (if epochs > 0 {
        epochs
    } else {
        0
    })
    &&& forall|e: int|
        0 <= e < plans.len() ==> (#[trigger] plans[e]).len() == batch_count(samples, batch_size)
    &&& forall|e: int, b: int|
        0 <= e < plans.len() && 0 <= b < plans[e].len() ==> (#[trigger] plans[e][b]).len()
            == batch_size
    &&& forall|e: int| 0 <= e < plans.len() ==> picks_below(#[trigger] plans[e], samples)
}

impl<T: Scalar> Net<T> {
    /// Whether `other` has the third layer, the widths and the learning
    /// rate of `self`.
    pub open spec fn keeps(self, other: Net<T>) -> bool {
        &&& other.w3 == self.w3
        &&& other.b3 == self.b3
        &&& other.input == self.input
        &&& other.hidden == self.hidden
        &&& other.output == self.output
        &&& other.lr == self.lr
    }

    /// A forward pass on a feature vector gives six column vectors of the
    /// layers' widths.
    pub proof fn lemma_forward_fits<E: Fn(T) -> T>(self, exp: E, x: Grid<T>)
        requires
            self.wf(),
            self.takes(x),
        ensures
            self.fits(self.forward(exp, x)),
    {
        reveal(Grid::wf);
        let p = self.forward(exp, x);
        assert(p.z1.rows * p.z1.cols == p.z1.rows) by (nonlinear_arith)
            requires
                p.z1.cols == 1,
        ;
        assert(p.z2.rows * p.z2.cols == p.z2.rows) by (nonlinear_arith)
            requires
                p.z2.cols == 1,
        ;
        assert(p.z3.rows * p.z3.cols == p.z3.rows) by (nonlinear_arith)
            requires
                p.z3.cols == 1,
        ;
    }

    /// The gradients of a backward pass have the shapes of the parameters.
    pub proof fn lemma_backward_matches(self, p: Pass<T>, x: Grid<T>, y: Grid<T>)
        requires
            self.wf(),
            self.fits(p),
            self.takes(x),
            self.gives(y),
        ensures
            self.matches(self.backward(p, x, y)),
    {
        reveal(Grid::wf);
        p.a1.lemma_transpose();
        p.a2.lemma_transpose();
        x.lemma_transpose();
        self.w2.lemma_transpose();
        self.w3.lemma_transpose();
    }

    /// A descent step leaves every shape as it was, and the third layer, the
    /// widths and the learning rate with them.
    pub proof fn lemma_update_wf(self, dw1: Grid<T>, db1: Grid<T>, dw2: Grid<T>, db2: Grid<T>)
        requires
            self.wf(),
        ensures
            self.update(dw1, db1, dw2, db2).wf(),
            self.keeps(self.update(dw1, db1, dw2, db2)),
    {
        reveal(Grid::wf);
    }

    /// Every batch of an epoch leaves every shape as it was.
    pub proof fn lemma_epoch_wf<E: Fn(T) -> T>(
        self,
        exp: E,
        xs: Seq<Grid<T>>,
        ys: Seq<Grid<T>>,
        plan: Seq<Seq<usize>>,
        b: nat,
    )
        requires
            self.wf(),
        ensures
            self.epoch(exp, xs, ys, plan, b).0.wf(),
        decreases b,
    {
        reveal(Grid::wf);
        if b > 0 {
            self.lemma_epoch_wf(exp, xs, ys, plan, (b - 1) as nat);
        }
    }

    /// Training leaves every shape as it was: only the numbers in the
    /// first two layers change.
    pub proof fn lemma_trained_wf<E: Fn(T) -> T>(
        self,
        exp: E,
        xs: Seq<Grid<T>>,
        ys: Seq<Grid<T>>,
        plans: Seq<Seq<Seq<usize>>>,
    )
        requires
            self.wf(),
        ensures
            self.trained(exp, xs, ys, plans).0.wf(),
        decreases plans.len(),
    {
        if plans.len() > 0 {
            self.lemma_trained_wf(exp, xs, ys, plans.drop_last());
            let net = self.trained(exp, xs, ys, plans.drop_last()).0;
            net.lemma_epoch_wf(exp, xs, ys, plans.last(), plans.last().len());
        }
    }

    /// No batch of an epoch touches the third layer, the widths or the
    /// learning rate.
    pub proof fn lemma_epoch_keeps<E: Fn(T) -> T>(
        self,
        exp: E,
        xs: Seq<Grid<T>>,
        ys: Seq<Grid<T>>,
        plan: Seq<Seq<usize>>,
        b: nat,
    )
        ensures
            self.keeps(self.epoch(exp, xs, ys, plan, b).0),
        decreases b,
    {
        if b > 0 {
            self.lemma_epoch_keeps(exp, xs, ys, plan, (b - 1) as nat);
        }
    }

    /// Training never touches the third layer, the widths or the learning
    /// rate, and reports one loss for each epoch.
    pub proof fn lemma_trained_keeps<E: Fn(T) -> T>(
        self,
        exp: E,
        xs: Seq<Grid<T>>,
        ys: Seq<Grid<T>>,
        plans: Seq<Seq<Seq<usize>>>,
    )
        ensures
            self.keeps(self.trained(exp, xs, ys, plans).0),
            self.trained(exp, xs, ys, plans).1.len() == plans.len(),
        decreases plans.len(),
    {
        if plans.len() > 0 {
            self.lemma_trained_keeps(exp, xs, ys, plans.drop_last());
            let net = self.trained(exp, xs, ys, plans.drop_last()).0;
            net.lemma_epoch_keeps(exp, xs, ys, plans.last(), plans.last().len());
        }
    }
}

pub struct NN<T> {
    w1: Mat<T>,
    b1: Mat<T>,
    w2: Mat<T>,
    b2: Mat<T>,
    w3: Mat<T>,
    b3: Mat<T>,
    input_shape: usize,
    hidden_layer_size: usize,
    output_shape: usize,
    lr: T,
}

impl<T> View for NN<T> {
    type V = Net<T>;

    closed spec fn view(&self) -> Net<T> {
        Net {
            w1: self.w1@,
            b1: self.b1@,
            w2: self.w2@,
            b2: self.b2@,
            w3: self.w3@,
            b3: self.b3@,
            input: self.input_shape as nat,
            hidden: self.hidden_layer_size as nat,
            output: self.output_shape as nat,
            lr: self.lr,
        }
    }
}

impl<T> NN<T> {
    #[verifier::type_invariant]
    pub open spec fn inv(&self) -> bool {
        self@.wf()
    }
}

/// Draws the picks of one epoch: `count` batches of `batch_size` indices
/// below `samples`, each index drawn on its own, with replacement.
pub fn draw_plan(samples: usize, count: usize, batch_size: usize) -> (plan: Vec<Vec<usize>>)
    requires
        count > 0 && batch_size > 0 ==> samples > 0,
    ensures
        plan@.len() == count,
        forall|b: int| 0 <= b < count ==> (#[trigger] plan@[b])@.len() == batch_size,
        picks_below(batches(plan@), samples as nat),
{
    let mut plan: Vec<Vec<usize>> = Vec::new();
    let mut b: usize = 0;
    while b < count
        invariant
            count > 0 && batch_size > 0 ==> samples > 0,
            b <= count,
            plan@.len() == b,
            forall|c: int| 0 <= c < b ==> (#[trigger] plan@[c])@.len() == batch_size,
            forall|c: int, i: int|
                0 <= c < b && 0 <= i < plan@[c]@.len() ==> (#[trigger] plan@[c]@[i]) < samples,
        decreases count - b,
    {
        let mut picks: Vec<usize> = Vec::new();
        let mut i: usize = 0;
        while i < batch_size
            invariant
                batch_size > 0 ==> samples > 0,
                i <= batch_size,
                picks@.len() == i,
                forall|k: int| 0 <= k < i ==> (#[trigger] picks@[k]) < samples,
            decreases batch_size - i,
        {
            picks.push(random_index(samples));
            i += 1;
        }
        plan.push(picks);
        b += 1;
    }
    plan
}

/// The number of pixels of one image.
pub const PIXELS: usize = 784;

/// The number of digit classes.
pub const CLASSES: usize = 10;

/// Whether `record` is one decoded line of the digit data set: a class
/// label and the pixels of one image.
pub open spec fn is_record<T>(record: (usize, Vec<T>)) -> bool {
    record.0 < CLASSES && record.1@.len() == PIXELS
}

/// Turns the decoded lines of the digit data set into training samples:
/// for each line, in order, the pixels as a column vector divided by their
/// largest magnitude, and the label as a one-hot column vector. The feature
/// vectors come first in the result, the label vectors second.
pub fn parse_mnist<T: Scalar>(records: &Vec<(usize, Vec<T>)>) -> (r: (Vec<Mat<T>>, Vec<Mat<T>>))
    requires
        forall|i: int| 0 <= i < records@.len() ==> is_record(#[trigger] records@[i]),
    ensures
        r.0@.len() == records@.len(),
        r.1@.len() == records@.len(),
        forall|i: int|
            0 <= i < records@.len() ==> (#[trigger] r.0@[i])@ == (Grid {
                rows: PIXELS as nat,
                cols: 1,
                cells: records@[i].1@,
            }).normalized(),
        forall|i: int|
            0 <= i < records@.len() ==> (#[trigger] r.1@[i])@ == Grid::<T>::one_hot(
                CLASSES as nat,
                records@[i].0 as int,
            ),
{
    let mut x: Vec<Mat<T>> = Vec::new();
    let mut y: Vec<Mat<T>> = Vec::new();
    let mut n: usize = 0;
    while n < records.len()
        invariant
            n <= records@.len(),
            forall|i: int| 0 <= i < records@.len() ==> is_record(#[trigger] records@[i]),
            x@.len() == n,
            y@.len() == n,
            forall|i: int|
                0 <= i < n ==> (#[trigger] x@[i])@ == (Grid {
                    rows: PIXELS as nat,
                    cols: 1,
                    cells: records@[i].1@,
                }).normalized(),
            forall|i: int|
                0 <= i < n ==> (#[trigger] y@[i])@ == Grid::<T>::one_hot(
                    CLASSES as nat,
                    records@[i].0 as int,
                ),
        decreases records@.len() - n,
    {
        let record = &records[n];
        assert(is_record(*record));
        y.push(Mat::one_hot(record.0, CLASSES));
        let mut buffer: Vec<T> = Vec::with_capacity(PIXELS);
        let mut k: usize = 0;
        while k < record.1.len()
            invariant
                k <= record.1@.len(),
                buffer@.len() == k,
                forall|i: int| 0 <= i < k ==> buffer@[i] == record.1@[i],
            decreases record.1@.len() - k,
        {
            buffer.push(record.1[k]);
            k += 1;
        }
        assert(buffer@ =~= record.1@);
        let mut ele = Mat::from_vec(buffer, PIXELS, 1);
        ele.normalize_self();
        x.push(ele);
        n += 1;
    }
    (x, y)
}

/// Rectifies every cell of `z`.
fn rectify<T: Scalar>(z: &Mat<T>) -> (a: Mat<T>)
    ensures
        a@ == z@.relu(),
{
    let a = z.map(relu::<T>);
    assert(a@.cells =~= z@.relu().cells);
    a
}

/// The slope of the rectifier at every cell of `z`.
fn slopes<T: Scalar>(z: &Mat<T>) -> (d: Mat<T>)
    ensures
        d@ == z@.drelu(),
{
    let d = z.map(drelu::<T>);
    assert(d@.cells =~= z@.drelu().cells);
    d
}

/// The magnitude of every cell of `m`.
fn magnitudes<T: Scalar>(m: &Mat<T>) -> (d: Mat<T>)
    ensures
        d@ == m@.abs(),
{
    let d = m.map(abs::<T>);
    assert(d@.cells =~= m@.abs().cells);
    d
}

/// The logistic function of every cell of `z`.
fn squash<T: Scalar, E: Fn(T) -> T>(z: &Mat<T>, exp: &E) -> (a: Mat<T>)
    requires
        is_pure(*exp),
    ensures
        a@ == z@.sigmoid(*exp),
{
    let logistic_of = |v: T| -> (r: T)
        ensures
            r == sigmoid_spec(*exp, v)
        {
            sigmoid(v, exp)
        };
    let a = z.map(logistic_of);
    assert(a@.cells =~= z@.sigmoid(*exp).cells);
    a
}

impl<T: Scalar> NN<T> {
    /// A network with every weight and bias drawn from `-1..1` and the
    /// learning rate one tenth.
    pub fn new(input_shape: usize, hidden_layer_size: usize, output_shape: usize) -> (r: NN<T>)
        requires
            input_shape >= 1,
            hidden_layer_size >= 1,
            output_shape >= 1,
            hidden_layer_size * input_shape <= usize::MAX,
            hidden_layer_size * hidden_layer_size <= usize::MAX,
            output_shape * hidden_layer_size <= usize::MAX,
            T::can_draw(minus_one::<T>(), one::<T>()),
        ensures
            r@.wf(),
            r@.input == input_shape,
            r@.hidden == hidden_layer_size,
            r@.output == output_shape,
            r@.lr == one::<T>().div_spec(T::of_usize(10)),
            r@.w1.all_within(minus_one::<T>(), one::<T>()),
            r@.b1.all_within(minus_one::<T>(), one::<T>()),
            r@.w2.all_within(minus_one::<T>(), one::<T>()),
            r@.b2.all_within(minus_one::<T>(), one::<T>()),
            r@.w3.all_within(minus_one::<T>(), one::<T>()),
            r@.b3.all_within(minus_one::<T>(), one::<T>()),
    {
        let unit = T::from_usize(1);
        let low = T::from_usize(0).sub(unit);
        let w1 = Mat::rand_mat(hidden_layer_size, input_shape, low, unit);
        let b1 = Mat::rand_mat(hidden_layer_size, 1, low, unit);
        let w2 = Mat::rand_mat(hidden_layer_size, hidden_layer_size, low, unit);
        let b2 = Mat::rand_mat(hidden_layer_size, 1, low, unit);
        let w3 = Mat::rand_mat(output_shape, hidden_layer_size, low, unit);
        let b3 = Mat::rand_mat(output_shape, 1, low, unit);
        NN {
            w1,
            b1,
            w2,
            b2,
            w3,
            b3,
            input_shape,
            hidden_layer_size,
            output_shape,
            lr: unit.div(T::from_usize(10)),
        }
    }

    /// A network with the parameters given and the learning rate one tenth.
    pub fn from_parts(w1: Mat<T>, b1: Mat<T>, w2: Mat<T>, b2: Mat<T>, w3: Mat<T>, b3: Mat<T>) -> (r:
        NN<T>)
        requires
            b1@.has_shape(w1@.rows, 1),
            w2@.has_shape(w1@.rows, w1@.rows),
            b2@.has_shape(w1@.rows, 1),
            w3@.cols == w1@.rows,
            b3@.has_shape(w3@.rows, 1),
        ensures
            r@ == (Net {
                w1: w1@,
                b1: b1@,
                w2: w2@,
                b2: b2@,
                w3: w3@,
                b3: b3@,
                input: w1@.cols,
                hidden: w1@.rows,
                output: w3@.rows,
                lr: one::<T>().div_spec(T::of_usize(10)),
            }),
            r@.wf(),
    {
        proof {
            use_type_invariant(&w1);
            reveal(Grid::wf);
            use_type_invariant(&b1);
            use_type_invariant(&w2);
            use_type_invariant(&b2);
            use_type_invariant(&w3);
            use_type_invariant(&b3);
        }
        let input_shape = w1.col();
        let hidden_layer_size = w1.row();
        let output_shape = w3.row();
        NN {
            w1,
            b1,
            w2,
            b2,
            w3,
            b3,
            input_shape,
            hidden_layer_size,
            output_shape,
            lr: T::from_usize(1).div(T::from_usize(10)),
        }
    }

    pub fn w1(&self) -> (r: &Mat<T>)
        ensures
            r@ == self@.w1,
    {
        &self.w1
    }

    pub fn b1(&self) -> (r: &Mat<T>)
        ensures
            r@ == self@.b1,
    {
        &self.b1
    }

    pub fn w2(&self) -> (r: &Mat<T>)
        ensures
            r@ == self@.w2,
    {
        &self.w2
    }

    pub fn b2(&self) -> (r: &Mat<T>)
        ensures
            r@ == self@.b2,
    {
        &self.b2
    }

    pub fn w3(&self) -> (r: &Mat<T>)
        ensures
            r@ == self@.w3,
    {
        &self.w3
    }

    pub fn b3(&self) -> (r: &Mat<T>)
        ensures
            r@ == self@.b3,
    {
        &self.b3
    }

    pub fn lr(&self) -> (r: T)
        ensures
            r == self@.lr,
    {
        self.lr
    }

    /// Whether `x` and `y` are a data set for this network: as many feature
    /// vectors as label vectors, each of its shape.
    pub fn accepts(&self, x: &Vec<Mat<T>>, y: &Vec<Mat<T>>) -> (ok: bool)
        ensures
            ok == self@.learns_from(grids(x@), grids(y@)),
    {
        if x.len() != y.len() {
            return false;
        }
        let mut i: usize = 0;
        while i < x.len()
            invariant
                x@.len() == y@.len(),
                i <= x@.len(),
                forall|k: int| 0 <= k < i ==> self@.takes(#[trigger] grids(x@)[k]),
                forall|k: int| 0 <= k < i ==> self@.gives(#[trigger] grids(y@)[k]),
            decreases x@.len() - i,
        {
            let feature = &x[i];
            let label = &y[i];
            proof {
                use_type_invariant(feature);
                reveal(Grid::wf);
                use_type_invariant(label);
            }
            let fits = feature.row() == self.input_shape && feature.col() == 1 && label.row()
                == self.output_shape && label.col() == 1;
            if !fits {
                assert(!self@.takes(grids(x@)[i as int]) || !self@.gives(grids(y@)[i as int]));
                return false;
            }
            i += 1;
        }
        true
    }

    /// The forward pass on `x`: the weighted input and the activation of
    /// each layer, in the order `z1, a1, z2, a2, z3, a3`.
    pub fn feed_forward<E: Fn(T) -> T>(&self, x: &Mat<T>, exp: &E) -> (r: (
        Mat<T>,
        Mat<T>,
        Mat<T>,
        Mat<T>,
        Mat<T>,
        Mat<T>,
    ))
        requires
            x@.has_shape(self@.input, 1),
            is_pure(*exp),
        ensures
            (Pass { z1: r.0@, a1: r.1@, z2: r.2@, a2: r.3@, z3: r.4@, a3: r.5@ })
                == self@.forward(*exp, x@),
            self@.fits(self@.forward(*exp, x@)),
    {
        proof {
            use_type_invariant(self);
            reveal(Grid::wf);
            use_type_invariant(x);
        }
        let z1 = self.w1.mul(x).add(&self.b1);
        let a1 = rectify(&z1);
        let z2 = self.w2.mul(&a1).add(&self.b2);
        let a2 = rectify(&z2);
        let z3 = self.w3.mul(&a2).add(&self.b3);
        let a3 = squash(&z3, exp);
        proof {
            use_type_invariant(&z1);
            reveal(Grid::wf);
            use_type_invariant(&a1);
            use_type_invariant(&z2);
            use_type_invariant(&a2);
            use_type_invariant(&z3);
            use_type_invariant(&a3);
        }
        (z1, a1, z2, a2, z3, a3)
    }

    /// Sets the learning rate.
    pub fn set_lr(&mut self, val: T)
        ensures
            final(self)@ == (Net { lr: val, ..old(self)@ }),
    {
        proof {
            use_type_invariant(&*self);
            reveal(Grid::wf);
        }
        self.lr = val;
    }

    /// The backward pass: the gradient in every parameter, in the order
    /// `dw1, db1, dw2, db2, dw3, db3`, from the six matrices of a forward
    /// pass, the input `x` and the target `y`, handed in as
    /// `(z1, a1, z2, a2, z3, a3, x, y)`.
    pub fn back_prop(
        &self,
        ins: (&Mat<T>, &Mat<T>, &Mat<T>, &Mat<T>, &Mat<T>, &Mat<T>, &Mat<T>, &Mat<T>),
    ) -> (r: (Mat<T>, Mat<T>, Mat<T>, Mat<T>, Mat<T>, Mat<T>))
        requires
            ins.0@.has_shape(self@.hidden, 1),
            ins.1@.has_shape(self@.hidden, 1),
            ins.2@.has_shape(self@.hidden, 1),
            ins.3@.has_shape(self@.hidden, 1),
            ins.4@.has_shape(self@.output, 1),
            ins.5@.has_shape(self@.output, 1),
            ins.6@.has_shape(self@.input, 1),
            ins.7@.has_shape(self@.output, 1),
        ensures
            (Grads { dw1: r.0@, db1: r.1@, dw2: r.2@, db2: r.3@, dw3: r.4@, db3: r.5@ })
                == self@.backward(
                (Pass { z1: ins.0@, a1: ins.1@, z2: ins.2@, a2: ins.3@, z3: ins.4@, a3: ins.5@ }),
                ins.6@,
                ins.7@,
            ),
            self@.matches(
                (Grads { dw1: r.0@, db1: r.1@, dw2: r.2@, db2: r.3@, dw3: r.4@, db3: r.5@ }),
            ),
    {
        let (z1, a1, z2, a2, _z3, a3, x, y) = ins;
        proof {
            use_type_invariant(self);
            reveal(Grid::wf);
            use_type_invariant(&self.w1);
            use_type_invariant(&self.w2);
            use_type_invariant(&self.w3);
            use_type_invariant(a1);
            use_type_invariant(a2);
            use_type_invariant(x);
            a1@.lemma_transpose();
            a2@.lemma_transpose();
            x@.lemma_transpose();
            self@.w2.lemma_transpose();
            self@.w3.lemma_transpose();
        }
        let dz3 = a3.sub(y);
        let dw3 = dz3.mul(&a2.transpose());
        let db3 = dz3.clone();

        let dz2 = slopes(z2).ele_mul(&self.w3.transpose().mul(&dz3));
        let dw2 = dz2.mul(&a1.transpose());
        let db2 = dz2.clone();

        let dz1 = slopes(z1).ele_mul(&self.w2.transpose().mul(&dz2));
        let dw1 = dz1.mul(&x.transpose());
        let db1 = dz1.clone();
        proof {
            use_type_invariant(&dw1);
            reveal(Grid::wf);
            use_type_invariant(&db1);
            use_type_invariant(&dw2);
            use_type_invariant(&db2);
            use_type_invariant(&dw3);
            use_type_invariant(&db3);
        }
        (dw1, db1, dw2, db2, dw3, db3)
    }

    /// One step of gradient descent on the first two layers, at the
    /// learning rate. The third layer keeps its parameters.
    pub fn update_param(&mut self, dw1: &Mat<T>, db1: &Mat<T>, dw2: &Mat<T>, db2: &Mat<T>)
        requires
            dw1@.same_shape(old(self)@.w1),
            db1@.same_shape(old(self)@.b1),
            dw2@.same_shape(old(self)@.w2),
            db2@.same_shape(old(self)@.b2),
        ensures
            final(self)@ == old(self)@.update(dw1@, db1@, dw2@, db2@),
    {
        proof {
            use_type_invariant(&*self);
            reveal(Grid::wf);
        }
        let lr = self.lr;
        let w1 = self.w1.sub(&dw1.scaler_mul(lr));
        let b1 = self.b1.sub(&db1.scaler_mul(lr));
        let w2 = self.w2.sub(&dw2.scaler_mul(lr));
        let b2 = self.b2.sub(&db2.scaler_mul(lr));
        proof {
            use_type_invariant(&w1);
            reveal(Grid::wf);
            use_type_invariant(&b1);
            use_type_invariant(&w2);
            use_type_invariant(&b2);
        }
        self.w1 = w1;
        self.b1 = b1;
        self.w2 = w2;
        self.b2 = b2;
    }
    /// One mini-batch on the samples that `picks` names, in their order:
    /// the gradients of the picks are summed, those of the first two layers
    /// divided by the number of picks, and one descent step is taken.
    /// Returns the loss tally `loss` with the magnitude of each pick's
    /// output error added.
    pub fn train_batch<E: Fn(T) -> T>(
        &mut self,
        x: &Vec<Mat<T>>,
        y: &Vec<Mat<T>>,
        picks: &Vec<usize>,
        loss: &Mat<T>,
        exp: &E,
    ) -> (r: Mat<T>)
        requires
            old(self)@.learns_from(grids(x@), grids(y@)),
            forall|i: int| 0 <= i < picks@.len() ==> (#[trigger] picks@[i]) < x@.len(),
            loss@.has_shape(old(self)@.output, 1),
            is_pure(*exp),
        ensures
            final(self)@ == old(self)@.after_batch(*exp, grids(x@), grids(y@), picks@),
            r@ == old(self)@.batch_loss(
                *exp,
                grids(x@),
                grids(y@),
                picks@,
                picks@.len(),
                loss@,
            ),
            r@.has_shape(old(self)@.output, 1),
    {
        proof {
            use_type_invariant(&*self);
            reveal(Grid::wf);
        }
        let ghost net = self@;
        let ghost xs = grids(x@);
        let ghost ys = grids(y@);
        let mut dw1 = Mat::zeroes_like(&self.w1);
        let mut db1 = Mat::zeroes_like(&self.b1);
        let mut dw2 = Mat::zeroes_like(&self.w2);
        let mut db2 = Mat::zeroes_like(&self.b2);
        let mut dw3 = Mat::zeroes_like(&self.w3);
        let mut db3 = Mat::zeroes_like(&self.b3);
        let mut tally = loss.clone();
        let mut n: usize = 0;
        while n < picks.len()
            invariant
                self@ == net,
                net.wf(),
                xs == grids(x@),
                ys == grids(y@),
                net.learns_from(xs, ys),
                forall|i: int| 0 <= i < picks@.len() ==> (#[trigger] picks@[i]) < x@.len(),
                is_pure(*exp),
                n <= picks@.len(),
                dw1@.same_shape(net.w1),
                db1@.same_shape(net.b1),
                dw2@.same_shape(net.w2),
                db2@.same_shape(net.b2),
                dw3@.same_shape(net.w3),
                db3@.same_shape(net.b3),
                tally@.has_shape(net.output, 1),
                (Grads { dw1: dw1@, db1: db1@, dw2: dw2@, db2: db2@, dw3: dw3@, db3: db3@ })
                    == net.batch_grads(*exp, xs, ys, picks@, n as nat),
                tally@ == net.batch_loss(*exp, xs, ys, picks@, n as nat, loss@),
            decreases picks@.len() - n,
        {
            let index = picks[n];
            assert(net.takes(xs[index as int]));
            assert(net.gives(ys[index as int]));
            let (z1, a1, z2, a2, z3, a3) = self.feed_forward(&x[index], exp);
            let (bdw1, bdb1, bdw2, bdb2, bdw3, bdb3) = self.back_prop(
                (&z1, &a1, &z2, &a2, &z3, &a3, &x[index], &y[index]),
            );
            dw1 = bdw1.add(&dw1);
            db1 = bdb1.add(&db1);

            dw2 = bdw2.add(&dw2);
            db2 = bdb2.add(&db2);

            dw3 = bdw3.add(&dw3);
            db3 = bdb3.add(&db3);
            tally = tally.add(&magnitudes(&a3.sub(&y[index])));
            n += 1;
        }
        let share = T::from_usize(1).div(T::from_usize(picks.len()));
        dw1 = dw1.scaler_mul(share);
        db1 = db1.scaler_mul(share);
        dw2 = dw2.scaler_mul(share);
        db2 = db2.scaler_mul(share);
        self.update_param(&dw1, &db1, &dw2, &db2);
        tally
    }

    /// One epoch on the batches that `plan` lays out, in their order.
    /// Returns the mean loss of the epoch.
    pub fn train_epoch<E: Fn(T) -> T>(
        &mut self,
        x: &Vec<Mat<T>>,
        y: &Vec<Mat<T>>,
        plan: &Vec<Vec<usize>>,
        exp: &E,
    ) -> (r: T)
        requires
            old(self)@.learns_from(grids(x@), grids(y@)),
            picks_below(batches(plan@), x@.len()),
            is_pure(*exp),
        ensures
            final(self)@ == old(self)@.epoch(
                *exp,
                grids(x@),
                grids(y@),
                batches(plan@),
                plan@.len(),
            ).0,
            r == Net::mean_loss(
                old(self)@.epoch(*exp, grids(x@), grids(y@), batches(plan@), plan@.len()).1,
                x@.len() as usize,
            ),
    {
        proof {
            use_type_invariant(&*self);
            reveal(Grid::wf);
        }
        let ghost net = self@;
        let ghost xs = grids(x@);
        let ghost ys = grids(y@);
        let ghost lists = batches(plan@);
        let mut loss: Mat<T> = Mat::new(self.output_shape, 1);
        let mut b: usize = 0;
        while b < plan.len()
            invariant
                b <= plan@.len(),
                xs == grids(x@),
                ys == grids(y@),
                lists == batches(plan@),
                picks_below(lists, x@.len()),
                is_pure(*exp),
                self@.wf(),
                self@.input == net.input,
                self@.output == net.output,
                net.learns_from(xs, ys),
                loss@.has_shape(net.output, 1),
                (self@, loss@) == net.epoch(*exp, xs, ys, lists, b as nat),
            decreases plan@.len() - b,
        {
            let picks = &plan[b];
            assert(picks@ == lists[b as int]);
            assert forall|i: int| 0 <= i < picks@.len() implies (#[trigger] picks@[i]) < x@.len() by {
                assert(lists[b as int][i] < x@.len());
            }
            loss = self.train_batch(x, y, picks, &loss, exp);
            proof {
                use_type_invariant(&*self);
                reveal(Grid::wf);
            }
            b += 1;
        }
        let scaled = loss.scaler_mul(T::from_usize(1).div(T::from_usize(x.len())));
        scaled.sum_all().div(T::from_usize(loss.row()).mul(T::from_usize(loss.col())))
    }
    /// Trains for `epochs` epochs of `samples / batch_size` mini-batches
    /// each, every sample of a batch drawn at random, with replacement,
    /// from the whole data set. Returns the mean loss of each epoch, in
    /// order. A batch size below zero leaves no batch to run.
    ///
    /// Which samples are drawn is left to chance; what is done with them is
    /// not: the result is that of [`Net::trained`] on some lay-out of picks.
    pub fn train<E: Fn(T) -> T>(
        &mut self,
        x: &Vec<Mat<T>>,
        y: &Vec<Mat<T>>,
        epochs: i32,
        batch_size: i32,
        exp: &E,
    ) -> (losses: Vec<T>)
        requires
            old(self)@.learns_from(grids(x@), grids(y@)),
            batch_size != 0,
            is_pure(*exp),
        ensures
            exists|plans: Seq<Seq<Seq<usize>>>| #[trigger]
                laid_out(plans, epochs as int, batch_size as int, x@.len()) && (
                    final(self)@,
                    losses@,
                ) == old(self)@.trained(*exp, grids(x@), grids(y@), plans),
            epochs <= 0 ==> final(self)@ == old(self)@ && losses@.len() == 0,
            epochs > 0 ==> losses@.len() == epochs,
            old(self)@.keeps(final(self)@),
    {
        proof {
            use_type_invariant(&*self);
            reveal(Grid::wf);
        }
        let ghost net = self@;
        let ghost xs = grids(x@);
        let ghost ys = grids(y@);
        let samples: usize = x.len();
        let size: usize = if batch_size > 0 {
            batch_size as usize
        } else {
            0
        };
        let count: usize = if batch_size > 0 {
            samples / size
        } else {
            0
        };
        proof {
            if count > 0 {
                assert(samples > 0) by (nonlinear_arith)
                    requires
                        size > 0,
                        samples as int / size as int > 0,
                ;
            }
        }
        let mut losses: Vec<T> = Vec::new();
        let ghost mut plans: Seq<Seq<Seq<usize>>> = Seq::empty();
        let mut done: i32 = 0;
        while done < epochs
            invariant
                xs == grids(x@),
                ys == grids(y@),
                samples == x@.len(),
                size == (if batch_size > 0 {
                    batch_size as int
                } else {
                    0
                }),
                count == batch_count(samples as nat, batch_size as int),
                count > 0 ==> samples > 0,
                is_pure(*exp),
                net.learns_from(xs, ys),
                self@.wf(),
                0 <= done,
                epochs > 0 ==> done <= epochs,
                epochs <= 0 ==> done == 0,
                plans.len() == done,
                losses@.len() == done,
                laid_out(plans, done as int, batch_size as int, samples as nat),
                (self@, losses@) == net.trained(*exp, xs, ys, plans),
                net.keeps(self@),
            decreases epochs - done,
        {
            let plan = draw_plan(samples, count, size);
            let ghost before = plans;
            let ghost start = self@;
            let loss = self.train_epoch(x, y, &plan, exp);
            losses.push(loss);
            proof {
                use_type_invariant(&*self);
                reveal(Grid::wf);
                plans = before.push(batches(plan@));
                assert(plans.drop_last() =~= before);
                assert(plans.last() == batches(plan@));
                start.lemma_epoch_keeps(*exp, xs, ys, batches(plan@), plan@.len() as nat);
            }
            done += 1;
        }
        assert(laid_out(plans, epochs as int, batch_size as int, x@.len()));
        losses
    }
}

} // verus!
