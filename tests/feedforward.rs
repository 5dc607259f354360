use dense_nn::{
    ActivationFunction, BackpropTrain, Compute, FeedforwardLayer, GradientDescent, PerceptronRule,
    Scalar, SupervisedTrain,
};

/// Single-precision floats as the layer's scalar. The `spec_` methods only
/// exist for the verifier's model of the arithmetic; at run time they do what
/// the operations do.
#[derive(Clone, Copy, Debug, PartialEq, PartialOrd)]
struct F32(f32);

impl Scalar for F32 {
    fn spec_zero() -> F32 {
        F32::zero()
    }

    fn spec_plus(self, other: F32) -> F32 {
        self.plus(other)
    }

    fn spec_minus(self, other: F32) -> F32 {
        self.minus(other)
    }

    fn spec_times(self, other: F32) -> F32 {
        self.times(other)
    }

    fn zero() -> F32 {
        F32(0.0)
    }

    fn plus(self, other: F32) -> F32 {
        F32(self.0 + other.0)
    }

    fn minus(self, other: F32) -> F32 {
        F32(self.0 - other.0)
    }

    fn times(self, other: F32) -> F32 {
        F32(self.0 * other.0)
    }
}

fn identity() -> ActivationFunction<F32, impl Fn(F32) -> F32, impl Fn(F32) -> F32> {
    ActivationFunction::new(|x: F32| x, |_x: F32| F32(1.0))
}

fn step() -> ActivationFunction<F32, impl Fn(F32) -> F32, impl Fn(F32) -> F32> {
    ActivationFunction::new(
        |x: F32| if x.0 > 0.0 { F32(1.0) } else { F32(0.0) },
        |_x: F32| F32(0.0),
    )
}

fn sigmoid() -> ActivationFunction<F32, impl Fn(F32) -> F32, impl Fn(F32) -> F32> {
    ActivationFunction::new(
        |x: F32| F32(1.0 / (1.0 + (-x.0).exp())),
        |x: F32| {
            let s = 1.0 / (1.0 + (-x.0).exp());
            F32(s * (1.0 - s))
        },
    )
}

fn vals(v: &[f32]) -> Vec<F32> {
    v.iter().map(|x| F32(*x)).collect()
}

fn raw(v: Vec<F32>) -> Vec<f32> {
    v.into_iter().map(|x| x.0).collect()
}

#[test]
fn basics() {
    let layer = FeedforwardLayer::<F32, _, _>::new(7, 3, identity());
    assert_eq!(layer.input_size(), 7);
    assert_eq!(layer.output_size(), 3);
}

#[test]
fn compute() {
    let layer = FeedforwardLayer::new_from(4, 2, identity(), || F32(0.5));
    let output = layer.compute(&vals(&[1.0, 1.0, 1.0, 1.0]));
    // all weigths and biases are 0.5, output should be 4*0.5 + 0.5 = 2.5
    for o in &output {
        assert!((o.0 - 2.5).abs() < 0.00001);
    }
}

#[test]
fn perceptron_rule() {
    let mut layer = FeedforwardLayer::new(4, 2, step());
    let rule = PerceptronRule { rate: F32(0.5) };
    for _ in 0..3 {
        layer.supervised_train(&rule, &vals(&[1.0, 1.0, 1.0, 1.0]), &vals(&[0.0, 0.0]));
        layer.supervised_train(&rule, &vals(&[1.0, -1.0, 1.0, -1.0]), &vals(&[1.0, 1.0]));
    }
    assert_eq!(raw(layer.compute(&vals(&[1.0, 1.0, 1.0, 1.0]))), [0.0f32, 0.0]);
    assert_eq!(raw(layer.compute(&vals(&[1.0, -1.0, 1.0, -1.0]))), [1.0f32, 1.0]);
}

#[test]
fn supervised_train() {
    // a deterministic pseudo-random initialization.
    // uniform init is actually terrible for neural networks.
    let random = {
        let mut acc = 0;
        move || {
            acc += 1;
            F32((1.0f32 + ((13 * acc) % 12) as f32) / 13.0f32)
        }
    };
    let mut layer = FeedforwardLayer::new_from(4, 2, sigmoid(), random);
    let rule = GradientDescent { rate: F32(0.5) };
    for _ in 0..40 {
        layer.supervised_train(&rule, &vals(&[1.0, 1.0, 1.0, 1.0]), &vals(&[0.0, 0.0]));
        layer.supervised_train(&rule, &vals(&[1.0, -1.0, 1.0, -1.0]), &vals(&[1.0, 1.0]));
    }
    assert!({
        let out = layer.compute(&vals(&[1.0, 1.0, 1.0, 1.0]));
        out[0].0 < 0.2 && out[1].0 < 0.2
    });
    assert!({
        let out = layer.compute(&vals(&[1.0, -1.0, 1.0, -1.0]));
        out[0].0 > 0.8 && out[1].0 > 0.8
    });
}

/// Two layers in sequence: the second one's error vector is the first one's
/// target.
struct Chain<A, B> {
    first: A,
    second: B,
}

impl<A, B> Chain<A, B>
where
    A: BackpropTrain<F32, GradientDescent<F32>>,
    B: BackpropTrain<F32, GradientDescent<F32>>,
{
    fn compute(&self, input: &[F32]) -> Vec<F32> {
        self.second.compute(&self.first.compute(input))
    }

    fn supervised_train(&mut self, rule: &GradientDescent<F32>, input: &[F32], target: &[F32]) {
        let mid = self.first.compute(input);
        let back = self.second.backprop_train(rule, &mid, target);
        self.first.backprop_train(rule, input, &back);
    }
}

#[test]
fn backprop_train() {
    // a deterministic pseudo-random initialization.
    // uniform init is actually terrible for neural networks.
    let mut random = {
        let mut acc = 0;
        move || {
            acc += 1;
            F32((1.0f32 + ((13 * acc) % 12) as f32) / 13.0f32)
        }
    };
    let mut layer = Chain {
        first: FeedforwardLayer::new_from(4, 8, sigmoid(), &mut random),
        second: FeedforwardLayer::new_from(8, 2, sigmoid(), &mut random),
    };
    let rule = GradientDescent { rate: F32(0.5) };
    for _ in 0..200 {
        layer.supervised_train(&rule, &vals(&[1.0, 1.0, 1.0, 1.0]), &vals(&[1.0, 0.0]));
        layer.supervised_train(&rule, &vals(&[1.0, -1.0, 1.0, -1.0]), &vals(&[0.0, 1.0]));
    }
    println!("{:?}", layer.compute(&vals(&[1.0, 1.0, 1.0, 1.0])));
    assert!({
        let out = layer.compute(&vals(&[1.0, 1.0, 1.0, 1.0]));
        out[0].0 > 0.8 && out[1].0 < 0.2
    });
    println!("{:?}", layer.compute(&vals(&[1.0, -1.0, 1.0, -1.0])));
    assert!({
        let out = layer.compute(&vals(&[1.0, -1.0, 1.0, -1.0]));
        out[0].0 < 0.2 && out[1].0 > 0.8
    });
}

#[test]
fn zero_float_layer_outputs_zeros() {
    let layer = FeedforwardLayer::<F32, _, _>::new(3, 2, identity());
    for input in [vec![], vec![1.5], vec![1.5, -2.0, 7.0], vec![1.0, 2.0, 3.0, 4.0]] {
        assert_eq!(raw(layer.compute(&vals(&input))), [0.0f32, 0.0]);
    }
}

#[test]
fn output_length_ignores_input_length() {
    let layer = FeedforwardLayer::new_from(4, 3, identity(), || F32(0.25));
    for n in 0..10 {
        let input = vals(&vec![1.0; n]);
        assert_eq!(layer.compute(&input).len(), 3);
    }
}

#[test]
fn repeated_compute_is_bit_identical() {
    let random = {
        let mut acc = 0;
        move || {
            acc += 1;
            F32((1.0f32 + ((13 * acc) % 12) as f32) / 13.0f32)
        }
    };
    let layer = FeedforwardLayer::new_from(4, 2, sigmoid(), random);
    let input = vals(&[0.3, -1.7, 2.9, 0.01]);
    let first: Vec<u32> = layer.compute(&input).iter().map(|x| x.0.to_bits()).collect();
    let second: Vec<u32> = layer.compute(&input).iter().map(|x| x.0.to_bits()).collect();
    assert_eq!(first, second);
}

#[test]
fn uniform_half_layer_outputs_two_and_a_half() {
    let layer = FeedforwardLayer::new_from_values(
        4,
        2,
        identity(),
        vals(&[0.5; 8]),
        vals(&[0.5, 0.5]),
    );
    assert_eq!(raw(layer.compute(&vals(&[1.0, 1.0, 1.0, 1.0]))), [2.5f32, 2.5]);
}
