//! Small oscillator systems that exercise the integrator.
use crate::fixed::{lemma_mul_distributes_within_one, product_fits, sum_fits, within_one, Fixed};
use crate::solver2::{OdeSystem, VectorSpace};
use vstd::prelude::*;

verus! {

/// State of a rotator: an angle and its rate of change.
#[derive(Clone, Copy, PartialEq, Eq, Debug, Structural)]
pub struct HyperionState {
    pub theta: Fixed,
    pub omega: Fixed,
}

impl View for HyperionState {
    type V = HyperionState;

    open spec fn view(&self) -> HyperionState {
        *self
    }
}

impl VectorSpace for HyperionState {
    open spec fn dim(v: HyperionState) -> nat {
        2
    }

    open spec fn add_spec(a: HyperionState, b: HyperionState) -> HyperionState {
        HyperionState { theta: a.theta.add_spec(b.theta), omega: a.omega.add_spec(b.omega) }
    }

    open spec fn scale_spec(a: HyperionState, scalar: Fixed) -> HyperionState {
        HyperionState { theta: a.theta.mul_spec(scalar), omega: a.omega.mul_spec(scalar) }
    }

    open spec fn scale_ratio_spec(a: HyperionState, num: Fixed, den: Fixed) -> HyperionState {
        HyperionState {
            theta: a.theta.mul_div_spec(num, den),
            omega: a.omega.mul_div_spec(num, den),
        }
    }

    open spec fn sum_fits(a: HyperionState, b: HyperionState) -> bool {
        sum_fits(a.theta, b.theta) && sum_fits(a.omega, b.omega)
    }

    open spec fn product_fits(a: HyperionState, scalar: Fixed) -> bool {
        product_fits(a.theta, scalar) && product_fits(a.omega, scalar)
    }

    open spec fn within_one(a: HyperionState, b: HyperionState) -> bool {
        within_one(a.theta, b.theta) && within_one(a.omega, b.omega)
    }

    proof fn lemma_add_dim(a: HyperionState, b: HyperionState) {
    }

    proof fn lemma_scale_dim(a: HyperionState, scalar: Fixed) {
    }

    proof fn lemma_scale_ratio_dim(a: HyperionState, num: Fixed, den: Fixed) {
    }

    proof fn lemma_add_commutative(a: HyperionState, b: HyperionState) {
    }

    proof fn lemma_add_associative(a: HyperionState, b: HyperionState, c: HyperionState) {
    }

    proof fn lemma_scale_distributes(a: HyperionState, b: HyperionState, scalar: Fixed) {
        lemma_mul_distributes_within_one(a.theta, b.theta, scalar);
        lemma_mul_distributes_within_one(a.omega, b.omega, scalar);
    }

    fn add(&self, other: &Self) -> (r: Self) {
        HyperionState { theta: self.theta.add(other.theta), omega: self.omega.add(other.omega) }
    }

    fn scale(&self, scalar: Fixed) -> (r: Self) {
        HyperionState { theta: self.theta.mul(scalar), omega: self.omega.mul(scalar) }
    }

    fn scale_ratio(&self, num: Fixed, den: Fixed) -> (r: Self) {
        HyperionState {
            theta: self.theta.mul_div(num, den),
            omega: self.omega.mul_div(num, den),
        }
    }
}

/// The harmonic oscillator `dx/dt = v, dv/dt = -x` over lists `[x, v]`.
pub struct SimpleHarmonicOscillator;

impl OdeSystem<Vec<Fixed>> for SimpleHarmonicOscillator {
    open spec fn state_dim(&self) -> nat {
        2
    }

    open spec fn derivatives_spec(&self, t: Fixed, y: Seq<Fixed>) -> Seq<Fixed> {
        seq![y[1], y[0].neg_spec()]
    }

    proof fn lemma_derivative_dim(&self, t: Fixed, y: Seq<Fixed>) {
    }

    fn derivatives(&self, t: Fixed, y: &Vec<Fixed>) -> (r: Vec<Fixed>) {
        let mut out: Vec<Fixed> = Vec::new();
        out.push(y[1]);
        out.push(y[0].neg());
        assert(out@ =~= self.derivatives_spec(t, y@));
        out
    }
}

/// The harmonic oscillator `d(theta)/dt = omega, d(omega)/dt = -theta`.
pub struct CustomOscillator;

impl OdeSystem<HyperionState> for CustomOscillator {
    open spec fn state_dim(&self) -> nat {
        2
    }

    open spec fn derivatives_spec(&self, t: Fixed, y: HyperionState) -> HyperionState {
        HyperionState { theta: y.omega, omega: y.theta.neg_spec() }
    }

    proof fn lemma_derivative_dim(&self, t: Fixed, y: HyperionState) {
    }

    fn derivatives(&self, t: Fixed, y: &HyperionState) -> (r: HyperionState) {
        HyperionState { theta: y.omega, omega: y.theta.neg() }
    }
}

} // verus!
