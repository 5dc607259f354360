//! A dense (fully connected) neural-network layer over an abstract scalar
//! type, with a forward pass and two in-place learning rules: the perceptron
//! delta rule and gradient descent with a backward error signal.
pub mod activations;
pub mod feedforward;
pub mod scalar;
pub mod training;

pub use activations::ActivationFunction;
pub use feedforward::FeedforwardLayer;
pub use scalar::Scalar;
pub use training::{BackpropTrain, Compute, GradientDescent, PerceptronRule, SupervisedTrain};
