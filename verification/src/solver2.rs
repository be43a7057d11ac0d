//! A fixed-step fourth-order Runge-Kutta integrator over any linear state space.
use crate::fixed::{
    lemma_add_associative, lemma_mul_distributes_within_one, product_fits, sum_fits, within_one,
    Fixed,
};
use vstd::prelude::*;

verus! {

/// One half, in raw units.
pub const HALF: i64 = 500_000_000;

/// Two, in raw units.
pub const TWO: i64 = 2_000_000_000;

/// Six, in raw units.
pub const SIX: i64 = 6_000_000_000;

/// A state that can be added to another of the same dimension and scaled by a
/// number or by a ratio of two numbers.
///
/// The view of a state is its mathematical value; `add_spec`, `scale_spec`
/// and `scale_ratio_spec` say what the operations compute on views.
///
/// The states form a linear space as far as fixed-point numbers allow. Sums
/// do not depend on the order of their terms. Sums that stay within the
/// clamped range may be grouped either way. Scaling distributes over a sum
/// within one unit of the last place of every component, where nothing is
/// clamped. Every implementation proves these laws.
pub trait VectorSpace: Sized + Clone + View {
    /// Number of components of a state.
    spec fn dim(v: Self::V) -> nat;

    /// The sum of two states of one dimension.
    spec fn add_spec(a: Self::V, b: Self::V) -> Self::V;

    /// A state with every component multiplied by `scalar`.
    spec fn scale_spec(a: Self::V, scalar: Fixed) -> Self::V;

    /// A state with every component multiplied by `num` and divided by `den`,
    /// rounded once.
    spec fn scale_ratio_spec(a: Self::V, num: Fixed, den: Fixed) -> Self::V;

    /// Whether every component of the sum of two states lies within the
    /// clamped range.
    spec fn sum_fits(a: Self::V, b: Self::V) -> bool;

    /// Whether every component of a state times `scalar` lies within the
    /// clamped range.
    spec fn product_fits(a: Self::V, scalar: Fixed) -> bool;

    /// Whether two states differ by at most one unit of the last place in
    /// every component.
    spec fn within_one(a: Self::V, b: Self::V) -> bool;

    /// Adding two states of one dimension gives a state of that dimension.
    proof fn lemma_add_dim(a: Self::V, b: Self::V)
        requires
            Self::dim(a) == Self::dim(b),
        ensures
            Self::dim(Self::add_spec(a, b)) == Self::dim(a),
    ;

    /// Scaling keeps the dimension.
    proof fn lemma_scale_dim(a: Self::V, scalar: Fixed)
        ensures
            Self::dim(Self::scale_spec(a, scalar)) == Self::dim(a),
    ;

    /// Scaling by a ratio keeps the dimension.
    proof fn lemma_scale_ratio_dim(a: Self::V, num: Fixed, den: Fixed)
        ensures
            Self::dim(Self::scale_ratio_spec(a, num, den)) == Self::dim(a),
    ;

    /// A sum of two states of one dimension does not depend on their order.
    proof fn lemma_add_commutative(a: Self::V, b: Self::V)
        requires
            Self::dim(a) == Self::dim(b),
        ensures
            Self::add_spec(a, b) == Self::add_spec(b, a),
    ;

    /// Sums that stay within the clamped range may be grouped either way.
    proof fn lemma_add_associative(a: Self::V, b: Self::V, c: Self::V)
        requires
            Self::dim(a) == Self::dim(b),
            Self::dim(b) == Self::dim(c),
            Self::sum_fits(a, b),
            Self::sum_fits(b, c),
        ensures
            Self::add_spec(Self::add_spec(a, b), c) == Self::add_spec(a, Self::add_spec(b, c)),
    ;

    /// Scaling a sum gives the sum of the scaled states within one unit of
    /// the last place, where the sum stays within the clamped range and no
    /// product is clamped.
    proof fn lemma_scale_distributes(a: Self::V, b: Self::V, scalar: Fixed)
        requires
            Self::dim(a) == Self::dim(b),
            Self::sum_fits(a, b),
            Self::product_fits(a, scalar),
            Self::product_fits(b, scalar),
            Self::product_fits(Self::add_spec(a, b), scalar),
        ensures
            Self::within_one(
                Self::scale_spec(Self::add_spec(a, b), scalar),
                Self::add_spec(Self::scale_spec(a, scalar), Self::scale_spec(b, scalar)),
            ),
    ;

    /// `self + other`.
    fn add(&self, other: &Self) -> (r: Self)
        requires
            Self::dim(self@) == Self::dim(other@),
        ensures
            r@ == Self::add_spec(self@, other@),
    ;

    /// `self * scalar`.
    fn scale(&self, scalar: Fixed) -> (r: Self)
        ensures
            r@ == Self::scale_spec(self@, scalar),
    ;

    /// `self * num / den`, every component rounded once.
    fn scale_ratio(&self, num: Fixed, den: Fixed) -> (r: Self)
        ensures
            r@ == Self::scale_ratio_spec(self@, num, den),
    ;
}

/// Lists of numbers form a linear space of any dimension: the length of the list.
impl VectorSpace for Vec<Fixed> {
    open spec fn dim(v: Seq<Fixed>) -> nat {
        v.len()
    }

    open spec fn add_spec(a: Seq<Fixed>, b: Seq<Fixed>) -> Seq<Fixed> {
        Seq::new(a.len(), |i: int| a[i].add_spec(b[i]))
    }

    open spec fn scale_spec(a: Seq<Fixed>, scalar: Fixed) -> Seq<Fixed> {
        Seq::new(a.len(), |i: int| a[i].mul_spec(scalar))
    }

    open spec fn scale_ratio_spec(a: Seq<Fixed>, num: Fixed, den: Fixed) -> Seq<Fixed> {
        Seq::new(a.len(), |i: int| a[i].mul_div_spec(num, den))
    }

    open spec fn sum_fits(a: Seq<Fixed>, b: Seq<Fixed>) -> bool {
        forall|i: int| 0 <= i < a.len() ==> #[trigger] sum_fits(a[i], b[i])
    }

    open spec fn product_fits(a: Seq<Fixed>, scalar: Fixed) -> bool {
        forall|i: int| 0 <= i < a.len() ==> #[trigger] product_fits(a[i], scalar)
    }

    open spec fn within_one(a: Seq<Fixed>, b: Seq<Fixed>) -> bool {
        a.len() == b.len() && forall|i: int| 0 <= i < a.len() ==> #[trigger] within_one(a[i], b[i])
    }

    proof fn lemma_add_dim(a: Seq<Fixed>, b: Seq<Fixed>) {
    }

    proof fn lemma_scale_dim(a: Seq<Fixed>, scalar: Fixed) {
    }

    proof fn lemma_scale_ratio_dim(a: Seq<Fixed>, num: Fixed, den: Fixed) {
    }

    proof fn lemma_add_commutative(a: Seq<Fixed>, b: Seq<Fixed>) {
        assert(Self::add_spec(a, b) =~= Self::add_spec(b, a));
    }

    proof fn lemma_add_associative(a: Seq<Fixed>, b: Seq<Fixed>, c: Seq<Fixed>) {
        let left = Self::add_spec(Self::add_spec(a, b), c);
        let right = Self::add_spec(a, Self::add_spec(b, c));
        assert forall|i: int| 0 <= i < a.len() implies left[i] == right[i] by {
            assert(sum_fits(a[i], b[i]));
            assert(sum_fits(b[i], c[i]));
            lemma_add_associative(a[i], b[i], c[i]);
        }
        assert(left =~= right);
    }

    proof fn lemma_scale_distributes(a: Seq<Fixed>, b: Seq<Fixed>, scalar: Fixed) {
        let sum = Self::add_spec(a, b);
        let left = Self::scale_spec(sum, scalar);
        let right = Self::add_spec(Self::scale_spec(a, scalar), Self::scale_spec(b, scalar));
        assert forall|i: int| 0 <= i < left.len() implies #[trigger] within_one(
            left[i],
            right[i],
        ) by {
            assert(sum_fits(a[i], b[i]));
            assert(product_fits(a[i], scalar));
            assert(product_fits(b[i], scalar));
            assert(product_fits(sum[i], scalar));
            lemma_mul_distributes_within_one(a[i], b[i], scalar);
        }
    }

    fn add(&self, other: &Self) -> (r: Self) {
        let n = self.len();
        let mut out: Vec<Fixed> = Vec::new();
        let mut i: usize = 0;
        while i < n
            invariant
                n == self.len(),
                n == other.len(),
                0 <= i <= n,
                out@.len() == i,
                forall|j: int| 0 <= j < i ==> out@[j] == self@[j].add_spec(other@[j]),
            decreases n - i,
        {
            out.push(self[i].add(other[i]));
            i = i + 1;
        }
        assert(out@ =~= Self::add_spec(self@, other@));
        out
    }

    fn scale(&self, scalar: Fixed) -> (r: Self) {
        let n = self.len();
        let mut out: Vec<Fixed> = Vec::new();
        let mut i: usize = 0;
        while i < n
            invariant
                n == self.len(),
                0 <= i <= n,
                out@.len() == i,
                forall|j: int| 0 <= j < i ==> out@[j] == self@[j].mul_spec(scalar),
            decreases n - i,
        {
            out.push(self[i].mul(scalar));
            i = i + 1;
        }
        assert(out@ =~= Self::scale_spec(self@, scalar));
        out
    }

    fn scale_ratio(&self, num: Fixed, den: Fixed) -> (r: Self) {
        let n = self.len();
        let mut out: Vec<Fixed> = Vec::new();
        let mut i: usize = 0;
        while i < n
            invariant
                n == self.len(),
                0 <= i <= n,
                out@.len() == i,
                forall|j: int| 0 <= j < i ==> out@[j] == self@[j].mul_div_spec(num, den),
            decreases n - i,
        {
            out.push(self[i].mul_div(num, den));
            i = i + 1;
        }
        assert(out@ =~= Self::scale_ratio_spec(self@, num, den));
        out
    }
}

/// A system of ordinary differential equations `dy/dt = f(t, y)` over states of type `T`.
pub trait OdeSystem<T: VectorSpace> {
    /// Dimension of the states the system is defined on.
    spec fn state_dim(&self) -> nat;

    /// The right-hand side `f(t, y)`.
    spec fn derivatives_spec(&self, t: Fixed, y: T::V) -> T::V;

    /// The derivative of a state has the state's dimension.
    proof fn lemma_derivative_dim(&self, t: Fixed, y: T::V)
        requires
            T::dim(y) == self.state_dim(),
        ensures
            T::dim(self.derivatives_spec(t, y)) == self.state_dim(),
    ;

    /// Evaluates `f(t, y)`.
    fn derivatives(&self, t: Fixed, y: &T) -> (r: T)
        requires
            T::dim(y@) == self.state_dim(),
        ensures
            r@ == self.derivatives_spec(t, y@),
    ;
}

/// The state after one Runge-Kutta step of size `dt` from `(t, y)` for the
/// right-hand side `f`:
///
/// ```text
/// k1 = f(t, y)
/// k2 = f(t + dt/2, y + k1 * dt/2)
/// k3 = f(t + dt/2, y + k2 * dt/2)
/// k4 = f(t + dt,   y + k3 * dt)
/// y + (k1 + 2*k2 + 2*k3 + k4) * dt / 6
/// ```
///
/// The last product and quotient are rounded once, so that a motion under a
/// constant force is followed without error.
#[verifier::opaque]
pub open spec fn rk4_formula<T: VectorSpace>(
    f: spec_fn(Fixed, T::V) -> T::V,
    t: Fixed,
    y: T::V,
    dt: Fixed,
) -> T::V {
    let half_dt = Fixed { raw: HALF }.mul_spec(dt);
    let two = Fixed { raw: TWO };
    let k1 = f(t, y);
    let k2 = f(t.add_spec(half_dt), T::add_spec(y, T::scale_spec(k1, half_dt)));
    let k3 = f(t.add_spec(half_dt), T::add_spec(y, T::scale_spec(k2, half_dt)));
    let k4 = f(t.add_spec(dt), T::add_spec(y, T::scale_spec(k3, dt)));
    let total = T::add_spec(
        T::add_spec(T::add_spec(k1, T::scale_spec(k2, two)), T::scale_spec(k3, two)),
        k4,
    );
    T::add_spec(y, T::scale_ratio_spec(total, dt, Fixed { raw: SIX }))
}

/// The right-hand side of a system, as a function of time and state.
pub open spec fn right_hand_side<T: VectorSpace, S: OdeSystem<T>>(system: &S) -> spec_fn(
    Fixed,
    T::V,
) -> T::V {
    |t: Fixed, y: T::V| system.derivatives_spec(t, y)
}

/// The state after one Runge-Kutta step of size `dt` of `system` from `(t, y)`.
pub open spec fn rk4_next<T: VectorSpace, S: OdeSystem<T>>(
    system: &S,
    t: Fixed,
    y: T::V,
    dt: Fixed,
) -> T::V {
    rk4_formula::<T>(right_hand_side::<T, S>(system), t, y, dt)
}

/// The integrator: the current time and the current state.
pub struct RungeKuttaSolver<T> {
    pub t: Fixed,
    pub state: T,
}

impl<T: VectorSpace> RungeKuttaSolver<T> {
    /// An integrator that starts at time `t0` in state `y0`.
    pub fn new(t0: Fixed, y0: T) -> (r: Self)
        ensures
            r.t == t0,
            r.state == y0,
    {
        Self { t: t0, state: y0 }
    }

    /// Advances time by `dt` and replaces the state by its Runge-Kutta successor.
    pub fn step<S: OdeSystem<T>>(&mut self, system: &S, dt: Fixed)
        requires
            T::dim(old(self).state@) == system.state_dim(),
        ensures
            final(self).t == old(self).t.add_spec(dt),
            final(self).state@ == rk4_next::<T, S>(system, old(self).t, old(self).state@, dt),
            T::dim(final(self).state@) == system.state_dim(),
    {
        proof {
            reveal(rk4_formula);
        }
        let t = self.t;
        let half_dt = Fixed { raw: HALF }.mul(dt);
        let two = Fixed { raw: TWO };
        let ghost y = self.state@;

        let k1 = system.derivatives(t, &self.state);
        proof {
            system.lemma_derivative_dim(t, y);
            T::lemma_scale_dim(k1@, half_dt);
            T::lemma_add_dim(y, T::scale_spec(k1@, half_dt));
        }
        let k2_state = self.state.add(&k1.scale(half_dt));
        let k2 = system.derivatives(t.add(half_dt), &k2_state);
        proof {
            system.lemma_derivative_dim(t.add_spec(half_dt), k2_state@);
            T::lemma_scale_dim(k2@, half_dt);
            T::lemma_add_dim(y, T::scale_spec(k2@, half_dt));
        }
        let k3_state = self.state.add(&k2.scale(half_dt));
        let k3 = system.derivatives(t.add(half_dt), &k3_state);
        proof {
            system.lemma_derivative_dim(t.add_spec(half_dt), k3_state@);
            T::lemma_scale_dim(k3@, dt);
            T::lemma_add_dim(y, T::scale_spec(k3@, dt));
        }
        let k4_state = self.state.add(&k3.scale(dt));
        let k4 = system.derivatives(t.add(dt), &k4_state);
        proof {
            system.lemma_derivative_dim(t.add_spec(dt), k4_state@);
            T::lemma_scale_dim(k2@, two);
            T::lemma_add_dim(k1@, T::scale_spec(k2@, two));
            T::lemma_scale_dim(k3@, two);
            T::lemma_add_dim(T::add_spec(k1@, T::scale_spec(k2@, two)), T::scale_spec(k3@, two));
            T::lemma_add_dim(
                T::add_spec(T::add_spec(k1@, T::scale_spec(k2@, two)), T::scale_spec(k3@, two)),
                k4@,
            );
        }
        let total = k1.add(&k2.scale(two)).add(&k3.scale(two)).add(&k4);
        let delta = total.scale_ratio(dt, Fixed { raw: SIX });
        proof {
            T::lemma_scale_ratio_dim(total@, dt, Fixed { raw: SIX });
            T::lemma_add_dim(y, delta@);
        }
        self.state = self.state.add(&delta);
        self.t = t.add(dt);
    }
}

} // verus!
