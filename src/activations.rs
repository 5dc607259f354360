//! Activation functions: a scalar function and its derivative, both applied
//! point-wise.
use vstd::prelude::*;

verus! {

/// A function that can be called on every argument and returns one value per
/// argument: what "pure" means for a closure here.
pub open spec fn is_pure<F, G: Fn(F) -> F>(g: G) -> bool {
    &&& forall|x: F| #[trigger] g.requires((x,))
    &&& forall|x: F, r1: F, r2: F|
        #![trigger g.ensures((x,), r1), g.ensures((x,), r2)]
        g.ensures((x,), r1) && g.ensures((x,), r2) ==> r1 == r2
}

/// The value that a pure function returns on `x`.
pub open spec fn apply<F, G: Fn(F) -> F>(g: G, x: F) -> F {
    choose|r: F| g.ensures((x,), r)
}

/// A value returned by a call of a pure function is its value there.
pub proof fn lemma_apply<F, G: Fn(F) -> F>(g: G, x: F, r: F)
    requires
        is_pure(g),
        g.ensures((x,), r),
    ensures
        apply(g, x) == r,
{
    let c = apply(g, x);
    assert(g.ensures((x,), c));
}

/// An activation function: `value` is applied to every pre-activation sum,
/// `derivative` is its derivative, used by gradient descent.
#[verifier::reject_recursive_types(F)]
pub struct ActivationFunction<F, V: Fn(F) -> F, D: Fn(F) -> F> {
    pub value: V,
    pub derivative: D,
    pub marker: std::marker::PhantomData<F>,
}

impl<F, V: Fn(F) -> F, D: Fn(F) -> F> ActivationFunction<F, V, D> {
    /// Both functions are total and pure.
    pub open spec fn wf(&self) -> bool {
        is_pure(self.value) && is_pure(self.derivative)
    }

    pub open spec fn spec_value(&self, x: F) -> F {
        apply(self.value, x)
    }

    pub open spec fn spec_derivative(&self, x: F) -> F {
        apply(self.derivative, x)
    }

    pub fn new(value: V, derivative: D) -> (a: Self)
        ensures
            a.value == value,
            a.derivative == derivative,
    {
        ActivationFunction { value, derivative, marker: std::marker::PhantomData }
    }

    pub fn value_at(&self, x: F) -> (r: F)
        requires
            self.wf(),
        ensures
            r == self.spec_value(x),
            self.value.ensures((x,), r),
    {
        let r = (self.value)(x);
        proof {
            lemma_apply(self.value, x, r);
        }
        r
    }

    pub fn derivative_at(&self, x: F) -> (r: F)
        requires
            self.wf(),
        ensures
            r == self.spec_derivative(x),
            self.derivative.ensures((x,), r),
    {
        let r = (self.derivative)(x);
        proof {
            lemma_apply(self.derivative, x, r);
        }
        r
    }
}

} // verus!
