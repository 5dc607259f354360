//! Learning rules and the capabilities a trainable component offers.
use vstd::prelude::*;

verus! {

/// The perceptron delta rule: an update proportional to the raw error.
pub struct PerceptronRule<F> {
    pub rate: F,
}

/// Gradient descent: an update proportional to the error scaled by the
/// activation's derivative.
pub struct GradientDescent<F> {
    pub rate: F,
}

/// A component that maps an input vector to an output vector.
pub trait Compute<F> {
    /// The component's internal invariant.
    spec fn ready(&self) -> bool;

    spec fn spec_input_size(&self) -> nat;

    spec fn spec_output_size(&self) -> nat;

    fn compute(&self, input: &[F]) -> (out: Vec<F>)
        requires
            self.ready(),
        ensures
            out@.len() == self.spec_output_size(),
    ;

    fn input_size(&self) -> (n: usize)
        ensures
            n == self.spec_input_size(),
    ;

    fn output_size(&self) -> (n: usize)
        ensures
            n == self.spec_output_size(),
    ;
}

/// A component trained in place, one example at a time, by rule `R`.
pub trait SupervisedTrain<F, R>: Compute<F> {
    fn supervised_train(&mut self, rule: &R, input: &[F], target: &[F])
        requires
            old(self).ready(),
        ensures
            final(self).ready(),
            final(self).spec_input_size() == old(self).spec_input_size(),
            final(self).spec_output_size() == old(self).spec_output_size(),
    ;
}

/// A component trained in place by rule `R` that also hands back an error
/// vector for the component feeding it, as long as its input.
pub trait BackpropTrain<F, R>: Compute<F> {
    fn backprop_train(&mut self, rule: &R, input: &[F], target: &[F]) -> (back: Vec<F>)
        requires
            old(self).ready(),
        ensures
            final(self).ready(),
            final(self).spec_input_size() == old(self).spec_input_size(),
            final(self).spec_output_size() == old(self).spec_output_size(),
            back@.len() == input@.len(),
    ;
}

} // verus!
