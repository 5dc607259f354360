//! The dense layer: `Y = f(W*X + B)`, trained in place.
use vstd::prelude::*;
use crate::activations::ActivationFunction;
use crate::scalar::Scalar;
use crate::training::{BackpropTrain, Compute, GradientDescent, PerceptronRule, SupervisedTrain};

verus! {

/// How many input components take part in a pass: the shorter of the
/// layer's input size and the input given. Missing components contribute
/// nothing and extra ones are ignored.
pub open spec fn span<F>(n_in: nat, x: Seq<F>) -> nat {
    if x.len() < n_in {
        x.len()
    } else {
        n_in
    }
}

/// Index of the weight from input `i` to output `j` in the row-major matrix.
pub open spec fn at(n_in: nat, j: int, i: int) -> int {
    j * n_in + i
}

/// The bias of output `j` plus the first `k` weighted inputs, accumulated
/// from left to right.
pub open spec fn partial_sum<F: Scalar>(
    w: Seq<F>,
    b: Seq<F>,
    n_in: nat,
    x: Seq<F>,
    j: int,
    k: nat,
) -> F
    decreases k,
{
    if k == 0 {
        b[j]
    } else {
        partial_sum(w, b, n_in, x, j, (k - 1) as nat).spec_plus(
            w[at(n_in, j, k - 1)].spec_times(x[k - 1]),
        )
    }
}

/// The pre-activation sum of every output.
pub open spec fn pre_activations<F: Scalar>(w: Seq<F>, b: Seq<F>, n_in: nat, x: Seq<F>) -> Seq<F> {
    Seq::new(b.len(), |j: int| partial_sum(w, b, n_in, x, j, span(n_in, x)))
}

/// Component `j` of a target vector; a missing component counts as zero.
pub open spec fn target_at<F: Scalar>(t: Seq<F>, j: int) -> F {
    if j < t.len() {
        t[j]
    } else {
        F::spec_zero()
    }
}

/// `j * n_in + i` stays below the size of the weight matrix.
proof fn lemma_at_bound(n_in: nat, n_out: nat, j: int, i: int)
    requires
        0 <= j < n_out,
        0 <= i < n_in,
    ensures
        0 <= at(n_in, j, i) < n_in * n_out,
{
    assert(0 <= j * n_in + i < n_in * n_out) by (nonlinear_arith)
        requires
            0 <= j < n_out,
            0 <= i < n_in,
    ;
}

/// Distinct (output, input) pairs address distinct weights.
proof fn lemma_at_distinct(n_in: nat, j1: int, i1: int, j2: int, i2: int)
    requires
        0 <= j1,
        0 <= j2,
        0 <= i1 < n_in,
        0 <= i2 < n_in,
        j1 != j2 || i1 != i2,
    ensures
        at(n_in, j1, i1) != at(n_in, j2, i2),
{
    if j1 < j2 {
        assert(j1 * n_in + i1 < j2 * n_in + i2) by (nonlinear_arith)
            requires
                j1 < j2,
                0 <= i1 < n_in,
                0 <= i2,
        ;
    } else if j2 < j1 {
        assert(j2 * n_in + i2 < j1 * n_in + i1) by (nonlinear_arith)
            requires
                j2 < j1,
                0 <= i2 < n_in,
                0 <= i1,
        ;
    }
}

/// The error vector handed back for input `i`: `x[i]` minus the weights
/// from input `i` times the deltas of the first `m` outputs, subtracted in
/// output order.
pub open spec fn back_sum<F: Scalar>(w: Seq<F>, n_in: nat, d: Seq<F>, x: Seq<F>, i: int, m: nat) -> F
    decreases m,
{
    if m == 0 {
        x[i]
    } else {
        back_sum(w, n_in, d, x, i, (m - 1) as nat).spec_minus(
            w[at(n_in, m - 1, i)].spec_times(d[m - 1]),
        )
    }
}

/// `w` is an `n_out` by `n_in` matrix, row-major, whose entry for output `j`
/// and input `i` is `f(j, i)`.
pub open spec fn matrix_is<F>(w: Seq<F>, n_in: nat, n_out: nat, f: spec_fn(int, int) -> F) -> bool {
    &&& w.len() == n_in * n_out
    &&& forall|j: int, i: int|
        0 <= j < n_out && 0 <= i < n_in ==> #[trigger] w[at(n_in, j, i)] == f(j, i)
}

/// `v` is a value that a generator of type `G`, in some state, returns.
pub open spec fn drawn<F, G: FnMut() -> F>(v: F) -> bool {
    exists|h: G| call_ensures(h, (), v)
}

/// A feedforward layer: every input is connected to every output.
///
/// With `X` the input, `W` the weight matrix, `B` the biases and `f` the
/// activation applied to each component, the output is `Y = f(W*X + B)`.
/// The weight from input `i` to output `j` is stored at `j * inputs + i`.
#[verifier::reject_recursive_types(F)]
pub struct FeedforwardLayer<F: Scalar, V: Fn(F) -> F, D: Fn(F) -> F> {
    inputs: usize,
    coeffs: Vec<F>,
    biases: Vec<F>,
    activation: ActivationFunction<F, V, D>,
}

impl<F: Scalar, V: Fn(F) -> F, D: Fn(F) -> F> FeedforwardLayer<F, V, D> {
    pub closed spec fn spec_inputs(&self) -> nat {
        self.inputs as nat
    }

    /// The weight matrix, row-major.
    pub closed spec fn spec_weights(&self) -> Seq<F> {
        self.coeffs@
    }

    pub closed spec fn spec_biases(&self) -> Seq<F> {
        self.biases@
    }

    pub closed spec fn spec_activation(&self) -> ActivationFunction<F, V, D> {
        self.activation
    }

    pub open spec fn spec_outputs(&self) -> nat {
        self.spec_biases().len()
    }

    /// One weight per (input, output) pair, one bias per output, and a pure
    /// activation.
    pub open spec fn wf(&self) -> bool {
        &&& self.spec_weights().len() == self.spec_inputs() * self.spec_outputs()
        &&& self.spec_activation().wf()
    }

    /// The pre-activation sums on input `x`.
    pub open spec fn raw(&self, x: Seq<F>) -> Seq<F> {
        pre_activations(self.spec_weights(), self.spec_biases(), self.spec_inputs(), x)
    }

    /// The layer's output on input `x`.
    pub open spec fn output(&self, x: Seq<F>) -> Seq<F> {
        self.raw(x).map_values(|s: F| self.spec_activation().spec_value(s))
    }

    /// The activation's derivative at each pre-activation sum on input `x`.
    pub open spec fn deltas(&self, x: Seq<F>) -> Seq<F> {
        self.raw(x).map_values(|s: F| self.spec_activation().spec_derivative(s))
    }

    /// Every output on `x` is what the activation function returns on the
    /// matching pre-activation sum.
    pub open spec fn outputs_returned(&self, x: Seq<F>) -> bool {
        forall|j: int|
            0 <= j < self.spec_outputs() ==> self.spec_activation().value.ensures(
                (self.raw(x)[j],),
                #[trigger] self.output(x)[j],
            )
    }

    /// Every delta on `x` is what the derivative returns on the matching
    /// pre-activation sum.
    pub open spec fn deltas_returned(&self, x: Seq<F>) -> bool {
        forall|j: int|
            0 <= j < self.spec_outputs() ==> self.spec_activation().derivative.ensures(
                (self.raw(x)[j],),
                #[trigger] self.deltas(x)[j],
            )
    }

    /// Output `j`'s error on input `x` against target `t`.
    pub open spec fn error(&self, x: Seq<F>, t: Seq<F>, j: int) -> F {
        self.output(x)[j].spec_minus(target_at(t, j))
    }

    /// The error vector that gradient descent hands back on input `x`,
    /// computed from the weights before the update.
    pub open spec fn back_error(&self, x: Seq<F>) -> Seq<F> {
        Seq::new(
            x.len(),
            |i: int|
                if i < span(self.spec_inputs(), x) {
                    back_sum(self.spec_weights(), self.spec_inputs(), self.deltas(x), x, i, self.spec_outputs())
                } else {
                    x[i]
                },
        )
    }

    /// The weight from input `i` to output `j` after a gradient-descent step.
    pub open spec fn gradient_weight(&self, rate: F, x: Seq<F>, t: Seq<F>, j: int, i: int) -> F {
        let w = self.spec_weights()[at(self.spec_inputs(), j, i)];
        if i < span(self.spec_inputs(), x) {
            w.spec_minus(
                rate.spec_times(x[i]).spec_times(self.deltas(x)[j]).spec_times(self.error(x, t, j)),
            )
        } else {
            w
        }
    }

    /// The bias of output `j` after a gradient-descent step.
    pub open spec fn gradient_bias(&self, rate: F, x: Seq<F>, t: Seq<F>, j: int) -> F {
        self.spec_biases()[j].spec_minus(
            rate.spec_times(self.deltas(x)[j]).spec_times(self.error(x, t, j)),
        )
    }

    /// `next` is this layer after a gradient-descent step at `rate` on input
    /// `x` and target `t`: same sizes and activation, every weight and bias
    /// updated from the values before the step.
    pub open spec fn gradient_step(&self, rate: F, x: Seq<F>, t: Seq<F>, next: &Self) -> bool {
        &&& next.spec_inputs() == self.spec_inputs()
        &&& next.spec_activation() == self.spec_activation()
        &&& matrix_is(
            next.spec_weights(),
            self.spec_inputs(),
            self.spec_outputs(),
            |j: int, i: int| self.gradient_weight(rate, x, t, j, i),
        )
        &&& next.spec_biases() == Seq::new(
            self.spec_outputs(),
            |j: int| self.gradient_bias(rate, x, t, j),
        )
    }

    /// The weight from input `i` to output `j` after a delta-rule step.
    pub open spec fn perceptron_weight(&self, rate: F, x: Seq<F>, t: Seq<F>, j: int, i: int) -> F {
        let w = self.spec_weights()[at(self.spec_inputs(), j, i)];
        if i < span(self.spec_inputs(), x) {
            w.spec_minus(rate.spec_times(self.error(x, t, j)).spec_times(x[i]))
        } else {
            w
        }
    }

    /// The bias of output `j` after a delta-rule step.
    pub open spec fn perceptron_bias(&self, rate: F, x: Seq<F>, t: Seq<F>, j: int) -> F {
        self.spec_biases()[j].spec_minus(rate.spec_times(self.error(x, t, j)))
    }

    /// `next` is this layer after a delta-rule step at `rate` on input `x`
    /// and target `t`.
    pub open spec fn perceptron_step(&self, rate: F, x: Seq<F>, t: Seq<F>, next: &Self) -> bool {
        &&& next.spec_inputs() == self.spec_inputs()
        &&& next.spec_activation() == self.spec_activation()
        &&& matrix_is(
            next.spec_weights(),
            self.spec_inputs(),
            self.spec_outputs(),
            |j: int, i: int| self.perceptron_weight(rate, x, t, j, i),
        )
        &&& next.spec_biases() == Seq::new(
            self.spec_outputs(),
            |j: int| self.perceptron_bias(rate, x, t, j),
        )
    }

    /// A vector of `n` copies of `v`.
    fn filled(n: usize, v: F) -> (r: Vec<F>)
        ensures
            r@ == Seq::new(n as nat, |k: int| v),
    {
        let mut r: Vec<F> = Vec::new();
        let mut k: usize = 0;
        while k < n
            invariant
                k <= n,
                r@ == Seq::new(k as nat, |q: int| v),
            decreases n - k,
        {
            r.push(v);
            k += 1;
            assert(r@ =~= Seq::new(k as nat, |q: int| v));
        }
        r
    }

    /// A vector of `n` values drawn from `generator`, one call each, in order.
    fn generated<G: FnMut() -> F>(n: usize, generator: &mut G) -> (r: Vec<F>)
        requires
            forall|g: G| call_requires(g, ()),
        ensures
            r@.len() == n,
            forall|k: int| 0 <= k < n ==> drawn::<F, G>(#[trigger] r@[k]),
    {
        let mut r: Vec<F> = Vec::new();
        let mut k: usize = 0;
        while k < n
            invariant
                k <= n,
                r@.len() == k,
                forall|g: G| call_requires(g, ()),
                forall|q: int| 0 <= q < k ==> drawn::<F, G>(#[trigger] r@[q]),
            decreases n - k,
        {
            r.push(generator());
            k += 1;
        }
        r
    }

    /// A layer with every weight and bias set to zero.
    pub fn new(inputs: usize, outputs: usize, activation: ActivationFunction<F, V, D>) -> (layer: Self)
        requires
            inputs * outputs <= usize::MAX,
            activation.wf(),
        ensures
            layer.wf(),
            layer.spec_inputs() == inputs,
            layer.spec_activation() == activation,
            layer.spec_weights() == Seq::new(inputs as nat * outputs as nat, |k: int| F::spec_zero()),
            layer.spec_biases() == Seq::new(outputs as nat, |k: int| F::spec_zero()),
    {
        let coeffs = Self::filled(inputs * outputs, F::zero());
        let biases = Self::filled(outputs, F::zero());
        FeedforwardLayer { inputs, coeffs, biases, activation }
    }

    /// A layer whose weights, in row-major order, then biases are drawn from
    /// `generator`, one call each (for example a random number generator).
    pub fn new_from<G: FnMut() -> F>(
        inputs: usize,
        outputs: usize,
        activation: ActivationFunction<F, V, D>,
        generator: G,
    ) -> (layer: Self)
        requires
            inputs * outputs <= usize::MAX,
            activation.wf(),
            forall|g: G| call_requires(g, ()),
        ensures
            layer.wf(),
            layer.spec_inputs() == inputs,
            layer.spec_outputs() == outputs,
            layer.spec_activation() == activation,
            forall|k: int| 0 <= k < layer.spec_weights().len() ==> drawn::<F, G>(#[trigger] layer.spec_weights()[k]),
            forall|k: int| 0 <= k < outputs ==> drawn::<F, G>(#[trigger] layer.spec_biases()[k]),
    {
        let mut generator = generator;
        let coeffs = Self::generated(inputs * outputs, &mut generator);
        let biases = Self::generated(outputs, &mut generator);
        FeedforwardLayer { inputs, coeffs, biases, activation }
    }

    /// A layer whose weights are drawn from `weight_generator`, in row-major
    /// order, and biases from `bias_generator`.
    pub fn new_from_generators<G: FnMut() -> F>(
        inputs: usize,
        outputs: usize,
        activation: ActivationFunction<F, V, D>,
        weight_generator: G,
        bias_generator: G,
    ) -> (layer: Self)
        requires
            inputs * outputs <= usize::MAX,
            activation.wf(),
            forall|g: G| call_requires(g, ()),
        ensures
            layer.wf(),
            layer.spec_inputs() == inputs,
            layer.spec_outputs() == outputs,
            layer.spec_activation() == activation,
            forall|k: int| 0 <= k < layer.spec_weights().len() ==> drawn::<F, G>(#[trigger] layer.spec_weights()[k]),
            forall|k: int| 0 <= k < outputs ==> drawn::<F, G>(#[trigger] layer.spec_biases()[k]),
    {
        let mut weight_generator = weight_generator;
        let mut bias_generator = bias_generator;
        let coeffs = Self::generated(inputs * outputs, &mut weight_generator);
        let biases = Self::generated(outputs, &mut bias_generator);
        FeedforwardLayer { inputs, coeffs, biases, activation }
    }

    /// A layer with the given weights, row-major, and biases.
    pub fn new_from_values(
        inputs: usize,
        outputs: usize,
        activation: ActivationFunction<F, V, D>,
        coefficients: Vec<F>,
        biases: Vec<F>,
    ) -> (layer: Self)
        requires
            coefficients@.len() == inputs * outputs,
            biases@.len() == outputs,
            activation.wf(),
        ensures
            layer.wf(),
            layer.spec_inputs() == inputs,
            layer.spec_activation() == activation,
            layer.spec_weights() == coefficients@,
            layer.spec_biases() == biases@,
    {
        FeedforwardLayer { inputs, coeffs: coefficients, biases, activation }
    }

    /// The weights, row-major: the one from input `i` to output `j` is at
    /// `j * input_size() + i`.
    pub fn get_coefficients(&self) -> (r: &Vec<F>)
        ensures
            r@ == self.spec_weights(),
    {
        &self.coeffs
    }

    /// Replaces all weights. The new matrix must have the layer's shape.
    pub fn set_coefficients(&mut self, coefficients: Vec<F>)
        requires
            coefficients@.len() == old(self).spec_weights().len(),
        ensures
            final(self).spec_weights() == coefficients@,
            final(self).spec_biases() == old(self).spec_biases(),
            final(self).spec_inputs() == old(self).spec_inputs(),
            final(self).spec_activation() == old(self).spec_activation(),
    {
        self.coeffs = coefficients;
    }

    pub fn get_biases(&self) -> (r: &Vec<F>)
        ensures
            r@ == self.spec_biases(),
    {
        &self.biases
    }

    /// Replaces all biases. There must be one per output, as before.
    pub fn set_biases(&mut self, biases: Vec<F>)
        requires
            biases@.len() == old(self).spec_biases().len(),
        ensures
            final(self).spec_biases() == biases@,
            final(self).spec_weights() == old(self).spec_weights(),
            final(self).spec_inputs() == old(self).spec_inputs(),
            final(self).spec_activation() == old(self).spec_activation(),
    {
        self.biases = biases;
    }

    /// The pre-activation sums of the current weights and biases.
    fn pre_activation(&self, input: &[F]) -> (raw: Vec<F>)
        requires
            self.wf(),
        ensures
            raw@ == self.raw(input@),
    {
        let n_out = self.biases.len();
        let n_w = self.coeffs.len();
        let n = if self.inputs < input.len() {
            self.inputs
        } else {
            input.len()
        };
        let mut raw: Vec<F> = Vec::new();
        let mut j: usize = 0;
        while j < n_out
            invariant
                self.wf(),
                n_out == self.spec_outputs(),
                n == span(self.spec_inputs(), input@),
                n_w == self.spec_weights().len(),
                j <= n_out,
                raw@.len() == j,
                forall|q: int| 0 <= q < j ==> raw@[q] == #[trigger] self.raw(input@)[q],
            decreases n_out - j,
        {
            let mut acc = self.biases[j];
            let mut i: usize = 0;
            while i < n
                invariant
                    self.wf(),
                    n_out == self.spec_outputs(),
                    n == span(self.spec_inputs(), input@),
                    n_w == self.spec_weights().len(),
                    j < n_out,
                    i <= n,
                    acc == partial_sum(
                        self.spec_weights(),
                        self.spec_biases(),
                        self.spec_inputs(),
                        input@,
                        j as int,
                        i as nat,
                    ),
                decreases n - i,
            {
                proof {
                    lemma_at_bound(self.spec_inputs(), self.spec_outputs(), j as int, i as int);
                }
                acc = acc.plus(self.coeffs[j * self.inputs + i].times(input[i]));
                i += 1;
            }
            raw.push(acc);
            j += 1;
        }
        assert(raw@ =~= self.raw(input@));
        raw
    }
}

impl<F: Scalar, V: Fn(F) -> F, D: Fn(F) -> F> FeedforwardLayer<F, V, D> {
    /// Applies the activation to every pre-activation sum.
    pub fn compute(&self, input: &[F]) -> (out: Vec<F>)
        requires
            self.wf(),
        ensures
            out@ == self.output(input@),
            self.outputs_returned(input@),
    {
        let raw = self.pre_activation(input);
        let mut out: Vec<F> = Vec::new();
        let mut j: usize = 0;
        while j < raw.len()
            invariant
                self.wf(),
                raw@ == self.raw(input@),
                j <= raw@.len(),
                out@.len() == j,
                forall|q: int| 0 <= q < j ==> out@[q] == #[trigger] self.output(input@)[q],
                forall|q: int|
                    0 <= q < j ==> self.activation.value.ensures((raw@[q],), #[trigger] out@[q]),
            decreases raw.len() - j,
        {
            out.push(self.activation.value_at(raw[j]));
            j += 1;
        }
        assert(out@ =~= self.output(input@));
        out
    }

    pub fn input_size(&self) -> (n: usize)
        ensures
            n == self.spec_inputs(),
    {
        self.inputs
    }

    /// The number of outputs: one per bias.
    pub fn output_size(&self) -> (n: usize)
        ensures
            n == self.spec_outputs(),
    {
        self.biases.len()
    }

    /// One gradient-descent step. The returned vector is computed from the
    /// weights as they were before the step.
    #[verifier::rlimit(50)]
    pub fn backprop_train(&mut self, rule: &GradientDescent<F>, input: &[F], target: &[F]) -> (back: Vec<F>)
        requires
            old(self).wf(),
        ensures
            final(self).wf(),
            old(self).gradient_step(rule.rate, input@, target@, final(self)),
            back@ == old(self).back_error(input@),
            old(self).outputs_returned(input@),
            old(self).deltas_returned(input@),
    {
        let ghost pre: Self = *self;
        let raw = self.pre_activation(input);
        let n_out = self.biases.len();
        let n_w = self.coeffs.len();
        let n = if self.inputs < input.len() {
            self.inputs
        } else {
            input.len()
        };
        let mut deltas: Vec<F> = Vec::new();
        let mut out: Vec<F> = Vec::new();
        let mut q: usize = 0;
        while q < n_out
            invariant
                self.wf(),
                n_out == self.spec_outputs(),
                raw@ == self.raw(input@),
                q <= n_out,
                deltas@.len() == q,
                out@.len() == q,
                forall|p: int| 0 <= p < q ==> deltas@[p] == #[trigger] self.deltas(input@)[p],
                forall|p: int| 0 <= p < q ==> out@[p] == #[trigger] self.output(input@)[p],
                forall|p: int|
                    0 <= p < q ==> self.activation.value.ensures((raw@[p],), #[trigger] out@[p]),
                forall|p: int|
                    0 <= p < q ==> self.activation.derivative.ensures((raw@[p],), #[trigger] deltas@[p]),
            decreases n_out - q,
        {
            deltas.push(self.activation.derivative_at(raw[q]));
            out.push(self.activation.value_at(raw[q]));
            q += 1;
        }
        assert(deltas@ =~= pre.deltas(input@));
        assert(out@ =~= pre.output(input@));
        let mut returned = vstd::slice::slice_to_vec(input);
        let mut j: usize = 0;
        while j < n_out
            invariant
                pre.wf(),
                self.inputs == pre.inputs,
                self.activation == pre.activation,
                self.biases@.len() == n_out,
                n_out == pre.spec_outputs(),
                n_w == pre.spec_weights().len(),
                self.coeffs@.len() == n_w,
                n == span(pre.spec_inputs(), input@),
                deltas@ == pre.deltas(input@),
                out@ == pre.output(input@),
                j <= n_out,
                returned@.len() == input@.len(),
                forall|i: int|
                    0 <= i < n ==> #[trigger] returned@[i] == back_sum(
                        pre.spec_weights(),
                        pre.spec_inputs(),
                        deltas@,
                        input@,
                        i,
                        j as nat,
                    ),
                forall|i: int| n <= i < input@.len() ==> #[trigger] returned@[i] == input@[i],
                forall|jj: int, ii: int|
                    0 <= jj < n_out && 0 <= ii < pre.spec_inputs() ==> #[trigger] self.coeffs@[at(
                        pre.spec_inputs(),
                        jj,
                        ii,
                    )] == if jj < j {
                        pre.gradient_weight(rule.rate, input@, target@, jj, ii)
                    } else {
                        pre.spec_weights()[at(pre.spec_inputs(), jj, ii)]
                    },
                forall|jj: int|
                    0 <= jj < n_out ==> #[trigger] self.biases@[jj] == if jj < j {
                        pre.gradient_bias(rule.rate, input@, target@, jj)
                    } else {
                        pre.spec_biases()[jj]
                    },
            decreases n_out - j,
        {
            let t = if j < target.len() {
                target[j]
            } else {
                F::zero()
            };
            let err = out[j].minus(t);
            assert(err == pre.error(input@, target@, j as int));
            let mut i: usize = 0;
            while i < n
                invariant
                    pre.wf(),
                    self.inputs == pre.inputs,
                    self.activation == pre.activation,
                    self.biases@.len() == n_out,
                    n_out == pre.spec_outputs(),
                    n_w == pre.spec_weights().len(),
                    self.coeffs@.len() == n_w,
                    n == span(pre.spec_inputs(), input@),
                    deltas@ == pre.deltas(input@),
                    out@ == pre.output(input@),
                    err == pre.error(input@, target@, j as int),
                    j < n_out,
                    i <= n,
                    returned@.len() == input@.len(),
                    forall|p: int|
                        0 <= p < n ==> #[trigger] returned@[p] == back_sum(
                            pre.spec_weights(),
                            pre.spec_inputs(),
                            deltas@,
                            input@,
                            p,
                            if p < i {
                                (j + 1) as nat
                            } else {
                                j as nat
                            },
                        ),
                    forall|p: int| n <= p < input@.len() ==> #[trigger] returned@[p] == input@[p],
                    forall|jj: int, ii: int|
                        0 <= jj < n_out && 0 <= ii < pre.spec_inputs() ==> #[trigger] self.coeffs@[at(
                            pre.spec_inputs(),
                            jj,
                            ii,
                        )] == if jj < j || (jj == j && ii < i) {
                            pre.gradient_weight(rule.rate, input@, target@, jj, ii)
                        } else {
                            pre.spec_weights()[at(pre.spec_inputs(), jj, ii)]
                        },
                    forall|jj: int|
                        0 <= jj < n_out ==> #[trigger] self.biases@[jj] == if jj < j {
                            pre.gradient_bias(rule.rate, input@, target@, jj)
                        } else {
                            pre.spec_biases()[jj]
                        },
                decreases n - i,
            {
                proof {
                    lemma_at_bound(pre.spec_inputs(), n_out as nat, j as int, i as int);
                }
                let k = j * self.inputs + i;
                let wk = self.coeffs[k];
                let back = returned[i].minus(wk.times(deltas[j]));
                returned.set(i, back);
                let step = rule.rate.times(input[i]).times(deltas[j]).times(err);
                let ghost before = self.coeffs@;
                self.coeffs.set(k, wk.minus(step));
                proof {
                    let n_in = pre.spec_inputs();
                    assert forall|jj: int, ii: int|
                        0 <= jj < n_out && 0 <= ii < n_in implies #[trigger] self.coeffs@[at(n_in, jj, ii)]
                        == if jj < j || (jj == j && ii < i + 1) {
                            pre.gradient_weight(rule.rate, input@, target@, jj, ii)
                        } else {
                            pre.spec_weights()[at(n_in, jj, ii)]
                        } by {
                        if jj != j || ii != i {
                            lemma_at_distinct(n_in, jj, ii, j as int, i as int);
                            lemma_at_bound(n_in, n_out as nat, jj, ii);
                            assert(k == at(n_in, j as int, i as int));
                            assert(self.coeffs@[at(n_in, jj, ii)] == before[at(n_in, jj, ii)]);
                        }
                    }
                }
                i += 1;
            }
            let bj = self.biases[j];
            self.biases.set(j, bj.minus(rule.rate.times(deltas[j]).times(err)));
            j += 1;
        }
        assert(self.spec_biases() =~= Seq::new(
            pre.spec_outputs(),
            |jj: int| pre.gradient_bias(rule.rate, input@, target@, jj),
        ));
        assert(returned@ =~= pre.back_error(input@));
        returned
    }

    /// One delta-rule step: each weight and bias moves against the raw
    /// output error, whatever the activation's derivative.
    #[verifier::rlimit(50)]
    pub fn perceptron_train(&mut self, rule: &PerceptronRule<F>, input: &[F], target: &[F])
        requires
            old(self).wf(),
        ensures
            final(self).wf(),
            old(self).perceptron_step(rule.rate, input@, target@, final(self)),
            old(self).outputs_returned(input@),
    {
        let ghost pre: Self = *self;
        let out = self.compute(input);
        let n_out = self.biases.len();
        let n_w = self.coeffs.len();
        let n = if self.inputs < input.len() {
            self.inputs
        } else {
            input.len()
        };
        let mut j: usize = 0;
        while j < n_out
            invariant
                pre.wf(),
                self.inputs == pre.inputs,
                self.activation == pre.activation,
                self.biases@.len() == n_out,
                n_out == pre.spec_outputs(),
                n_w == pre.spec_weights().len(),
                self.coeffs@.len() == n_w,
                n == span(pre.spec_inputs(), input@),
                out@ == pre.output(input@),
                j <= n_out,
                forall|jj: int, ii: int|
                    0 <= jj < n_out && 0 <= ii < pre.spec_inputs() ==> #[trigger] self.coeffs@[at(
                        pre.spec_inputs(),
                        jj,
                        ii,
                    )] == if jj < j {
                        pre.perceptron_weight(rule.rate, input@, target@, jj, ii)
                    } else {
                        pre.spec_weights()[at(pre.spec_inputs(), jj, ii)]
                    },
                forall|jj: int|
                    0 <= jj < n_out ==> #[trigger] self.biases@[jj] == if jj < j {
                        pre.perceptron_bias(rule.rate, input@, target@, jj)
                    } else {
                        pre.spec_biases()[jj]
                    },
            decreases n_out - j,
        {
            let t = if j < target.len() {
                target[j]
            } else {
                F::zero()
            };
            let diff = out[j].minus(t);
            let mut i: usize = 0;
            while i < n
                invariant
                    pre.wf(),
                    self.inputs == pre.inputs,
                    self.activation == pre.activation,
                    self.biases@.len() == n_out,
                    n_out == pre.spec_outputs(),
                    n_w == pre.spec_weights().len(),
                    self.coeffs@.len() == n_w,
                    n == span(pre.spec_inputs(), input@),
                    out@ == pre.output(input@),
                    diff == pre.error(input@, target@, j as int),
                    j < n_out,
                    i <= n,
                    forall|jj: int, ii: int|
                        0 <= jj < n_out && 0 <= ii < pre.spec_inputs() ==> #[trigger] self.coeffs@[at(
                            pre.spec_inputs(),
                            jj,
                            ii,
                        )] == if jj < j || (jj == j && ii < i) {
                            pre.perceptron_weight(rule.rate, input@, target@, jj, ii)
                        } else {
                            pre.spec_weights()[at(pre.spec_inputs(), jj, ii)]
                        },
                    forall|jj: int|
                        0 <= jj < n_out ==> #[trigger] self.biases@[jj] == if jj < j {
                            pre.perceptron_bias(rule.rate, input@, target@, jj)
                        } else {
                            pre.spec_biases()[jj]
                        },
                decreases n - i,
            {
                proof {
                    lemma_at_bound(pre.spec_inputs(), n_out as nat, j as int, i as int);
                }
                let k = j * self.inputs + i;
                let wk = self.coeffs[k];
                let step = rule.rate.times(diff).times(input[i]);
                let ghost before = self.coeffs@;
                self.coeffs.set(k, wk.minus(step));
                proof {
                    let n_in = pre.spec_inputs();
                    assert forall|jj: int, ii: int|
                        0 <= jj < n_out && 0 <= ii < n_in implies #[trigger] self.coeffs@[at(n_in, jj, ii)]
                        == if jj < j || (jj == j && ii < i + 1) {
                            pre.perceptron_weight(rule.rate, input@, target@, jj, ii)
                        } else {
                            pre.spec_weights()[at(n_in, jj, ii)]
                        } by {
                        if jj != j || ii != i {
                            lemma_at_distinct(n_in, jj, ii, j as int, i as int);
                            lemma_at_bound(n_in, n_out as nat, jj, ii);
                            assert(k == at(n_in, j as int, i as int));
                            assert(self.coeffs@[at(n_in, jj, ii)] == before[at(n_in, jj, ii)]);
                        }
                    }
                }
                i += 1;
            }
            let bj = self.biases[j];
            self.biases.set(j, bj.minus(rule.rate.times(diff)));
            j += 1;
        }
        assert(self.spec_biases() =~= Seq::new(
            pre.spec_outputs(),
            |jj: int| pre.perceptron_bias(rule.rate, input@, target@, jj),
        ));
    }
}

impl<F: Scalar, V: Fn(F) -> F, D: Fn(F) -> F> Compute<F> for FeedforwardLayer<F, V, D> {
    open spec fn ready(&self) -> bool {
        self.wf()
    }

    open spec fn spec_input_size(&self) -> nat {
        self.spec_inputs()
    }

    open spec fn spec_output_size(&self) -> nat {
        self.spec_outputs()
    }

    fn compute(&self, input: &[F]) -> (out: Vec<F>)
        ensures
            out@ == self.output(input@),
    {
        FeedforwardLayer::compute(self, input)
    }

    fn input_size(&self) -> (n: usize) {
        FeedforwardLayer::input_size(self)
    }

    fn output_size(&self) -> (n: usize) {
        FeedforwardLayer::output_size(self)
    }
}

impl<F: Scalar, V: Fn(F) -> F, D: Fn(F) -> F> BackpropTrain<F, GradientDescent<F>> for FeedforwardLayer<F, V, D> {
    fn backprop_train(&mut self, rule: &GradientDescent<F>, input: &[F], target: &[F]) -> (back: Vec<F>)
        ensures
            old(self).gradient_step(rule.rate, input@, target@, final(self)),
            back@ == old(self).back_error(input@),
    {
        FeedforwardLayer::backprop_train(self, rule, input, target)
    }
}

impl<F: Scalar, V: Fn(F) -> F, D: Fn(F) -> F> SupervisedTrain<F, PerceptronRule<F>> for FeedforwardLayer<F, V, D> {
    fn supervised_train(&mut self, rule: &PerceptronRule<F>, input: &[F], target: &[F])
        ensures
            old(self).perceptron_step(rule.rate, input@, target@, final(self)),
    {
        self.perceptron_train(rule, input, target)
    }
}

impl<F: Scalar, V: Fn(F) -> F, D: Fn(F) -> F> SupervisedTrain<F, GradientDescent<F>> for FeedforwardLayer<F, V, D> {
    /// A gradient-descent step whose error vector is dropped.
    fn supervised_train(&mut self, rule: &GradientDescent<F>, input: &[F], target: &[F])
        ensures
            old(self).gradient_step(rule.rate, input@, target@, final(self)),
    {
        FeedforwardLayer::backprop_train(self, rule, input, target);
    }
}

/// A layer whose weights and biases are all zero, under an activation that
/// returns its argument, outputs zero on every output, for every input whose
/// components each give zero when multiplied by zero and added to zero (all
/// inputs for integers; for floats, those without an infinite or NaN
/// component).
pub proof fn lemma_zero_layer_outputs_zero<F: Scalar, V: Fn(F) -> F, D: Fn(F) -> F>(
    layer: &FeedforwardLayer<F, V, D>,
    x: Seq<F>,
)
    requires
        layer.wf(),
        layer.spec_weights() == Seq::new(layer.spec_weights().len(), |k: int| F::spec_zero()),
        layer.spec_biases() == Seq::new(layer.spec_outputs(), |k: int| F::spec_zero()),
        forall|s: F| #[trigger] layer.spec_activation().spec_value(s) == s,
        forall|i: int|
            0 <= i < x.len() ==> #[trigger] F::spec_zero().spec_plus(F::spec_zero().spec_times(x[i]))
                == F::spec_zero(),
    ensures
        layer.output(x) == Seq::new(layer.spec_outputs(), |j: int| F::spec_zero()),
{
    let n_in = layer.spec_inputs();
    let n_out = layer.spec_outputs();
    let n = span(n_in, x);
    assert forall|j: int| 0 <= j < n_out implies #[trigger] layer.raw(x)[j] == F::spec_zero() by {
        lemma_zero_partial_sum(layer, x, j, n);
    }
    assert(layer.output(x) =~= Seq::new(n_out, |j: int| F::spec_zero()));
}

proof fn lemma_zero_partial_sum<F: Scalar, V: Fn(F) -> F, D: Fn(F) -> F>(
    layer: &FeedforwardLayer<F, V, D>,
    x: Seq<F>,
    j: int,
    k: nat,
)
    requires
        layer.wf(),
        layer.spec_weights() == Seq::new(layer.spec_weights().len(), |q: int| F::spec_zero()),
        layer.spec_biases() == Seq::new(layer.spec_outputs(), |q: int| F::spec_zero()),
        forall|i: int|
            0 <= i < x.len() ==> #[trigger] F::spec_zero().spec_plus(F::spec_zero().spec_times(x[i]))
                == F::spec_zero(),
        0 <= j < layer.spec_outputs(),
        k <= span(layer.spec_inputs(), x),
    ensures
        partial_sum(
            layer.spec_weights(),
            layer.spec_biases(),
            layer.spec_inputs(),
            x,
            j,
            k,
        ) == F::spec_zero(),
    decreases k,
{
    if k > 0 {
        lemma_zero_partial_sum(layer, x, j, (k - 1) as nat);
        lemma_at_bound(layer.spec_inputs(), layer.spec_outputs(), j, k - 1);
    }
}

/// The zero layer outputs zeros on every input when the scalars are
/// wrapping 64-bit integers.
pub proof fn lemma_zero_integer_layer_outputs_zero<V: Fn(i64) -> i64, D: Fn(i64) -> i64>(
    layer: &FeedforwardLayer<i64, V, D>,
    x: Seq<i64>,
)
    requires
        layer.wf(),
        layer.spec_weights() == Seq::new(layer.spec_weights().len(), |k: int| 0i64),
        layer.spec_biases() == Seq::new(layer.spec_outputs(), |k: int| 0i64),
        forall|s: i64| #[trigger] layer.spec_activation().spec_value(s) == s,
    ensures
        layer.output(x) == Seq::new(layer.spec_outputs(), |j: int| 0i64),
{
    assert forall|i: int| 0 <= i < x.len() implies #[trigger] 0i64.spec_plus(0i64.spec_times(x[i])) == 0i64 by {
        assert(0i64.wrapping_mul(x[i]) == 0i64);
        assert(0i64.wrapping_add(0i64) == 0i64);
    }
    lemma_zero_layer_outputs_zero(layer, x);
}

/// The output is a function of the input and of the layer's shape, weights,
/// biases and activation alone: two layers that agree on those (in particular
/// one layer that was not changed between two calls) give the same output on
/// the same input.
pub proof fn lemma_output_deterministic<F: Scalar, V: Fn(F) -> F, D: Fn(F) -> F>(
    first: &FeedforwardLayer<F, V, D>,
    second: &FeedforwardLayer<F, V, D>,
    x: Seq<F>,
)
    requires
        first.spec_inputs() == second.spec_inputs(),
        first.spec_weights() == second.spec_weights(),
        first.spec_biases() == second.spec_biases(),
        first.spec_activation() == second.spec_activation(),
    ensures
        first.output(x) == second.output(x),
        first.raw(x) == second.raw(x),
{
}

/// The output has one component per output of the layer, whatever the
/// input's length.
pub proof fn lemma_output_length<F: Scalar, V: Fn(F) -> F, D: Fn(F) -> F>(
    layer: &FeedforwardLayer<F, V, D>,
    x: Seq<F>,
)
    ensures
        layer.output(x).len() == layer.spec_outputs(),
{
}

} // verus!
