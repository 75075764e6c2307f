//! The stateful engine: one biquad section applied to a stream, one sample
//! at a time.
use crate::coefficients::BiquadCoefficients;
use crate::sample::{deterministic, is_difference, is_number, is_product, is_sum, total, Sample};
use vstd::prelude::*;

verus! {

/// What a filter remembers of its stream: the two most recent inputs, `x1`
/// before `x2`, and the two most recent outputs, `y1` before `y2`.
#[derive(Clone, Copy, Debug)]
pub struct History<S> {
    pub x1: S,
    pub x2: S,
    pub y1: S,
    pub y2: S,
}

/// A biquad filter used to filter audio signals.
#[derive(Clone, Copy, Debug)]
pub struct BiquadFilter<S> {
    pub coefficients: BiquadCoefficients<S>,
    pub history: History<S>,
}

/// `output` is an outcome of the difference equation
/// `b0·input + b1·x1 + b2·x2 - a1·y1 - a2·y2`, the sums and differences taken
/// from left to right.
pub open spec fn is_response<S: Sample>(
    c: BiquadCoefficients<S>,
    h: History<S>,
    input: S,
    output: S,
) -> bool {
    exists|m0: S, m1: S, m2: S, m3: S, m4: S, s1: S, s2: S, d1: S|
        {
            &&& #[trigger] is_product(c.b0, input, m0)
            &&& #[trigger] is_product(c.b1, h.x1, m1)
            &&& #[trigger] is_product(c.b2, h.x2, m2)
            &&& #[trigger] is_product(c.a1, h.y1, m3)
            &&& #[trigger] is_product(c.a2, h.y2, m4)
            &&& #[trigger] is_sum(m0, m1, s1)
            &&& #[trigger] is_sum(s1, m2, s2)
            &&& #[trigger] is_difference(s2, m3, d1)
            &&& is_difference(d1, m4, output)
        }
}

/// The history after `input` went in and `output` came out.
pub open spec fn shifted<S>(h: History<S>, input: S, output: S) -> History<S> {
    History { x1: input, x2: h.x1, y1: output, y2: h.y1 }
}

/// All four scalars of `h` are one and the same zero of the sample type.
pub open spec fn is_silent<S: Sample>(h: History<S>) -> bool {
    &&& is_number(0, h.x1)
    &&& h.x2 == h.x1
    &&& h.y1 == h.x1
    &&& h.y2 == h.x1
}

impl<S: Sample> BiquadFilter<S> {
    /// Creates a new biquad filter using the provided coefficients. Its
    /// history is silent.
    pub fn new(coefficients: BiquadCoefficients<S>) -> (filter: Self)
        requires
            total::<S>(),
        ensures
            filter.coefficients == coefficients,
            is_silent(filter.history),
    {
        let zero = S::from(0u8);
        Self { coefficients, history: History { x1: zero, x2: zero, y1: zero, y2: zero } }
    }

    /// Sets the coefficients to the provided ones. The history stays as it is.
    pub fn set_coefficients(&mut self, coefficients: BiquadCoefficients<S>)
        ensures
            final(self).coefficients == coefficients,
            final(self).history == old(self).history,
    {
        self.coefficients = coefficients;
    }

    /// Processes one sample of input audio and produces the filter output
    /// sample.
    pub fn process(&mut self, input: S) -> (output: S)
        requires
            total::<S>(),
        ensures
            is_response(old(self).coefficients, old(self).history, input, output),
            final(self).coefficients == old(self).coefficients,
            final(self).history == shifted(old(self).history, input, output),
    {
        let m0 = self.coefficients.b0 * input;
        let m1 = self.coefficients.b1 * self.history.x1;
        let s1 = m0 + m1;
        let m2 = self.coefficients.b2 * self.history.x2;
        let s2 = s1 + m2;
        let m3 = self.coefficients.a1 * self.history.y1;
        let d1 = s2 - m3;
        let m4 = self.coefficients.a2 * self.history.y2;
        let output = d1 - m4;
        assert(is_product(self.coefficients.b0, input, m0) && is_product(
            self.coefficients.b1,
            self.history.x1,
            m1,
        ) && is_product(self.coefficients.b2, self.history.x2, m2) && is_product(
            self.coefficients.a1,
            self.history.y1,
            m3,
        ) && is_product(self.coefficients.a2, self.history.y2, m4) && is_sum(m0, m1, s1) && is_sum(
            s1,
            m2,
            s2,
        ) && is_difference(s2, m3, d1));
        self.history.x2 = self.history.x1;
        self.history.x1 = input;
        self.history.y2 = self.history.y1;
        self.history.y1 = output;
        output
    }
}

/// Where the arithmetic is deterministic, the coefficients, the history and
/// the input determine the output.
pub proof fn lemma_response_unique<S: Sample>(
    c: BiquadCoefficients<S>,
    h: History<S>,
    input: S,
    y: S,
    z: S,
)
    requires
        deterministic::<S>(),
        is_response(c, h, input, y),
        is_response(c, h, input, z),
    ensures
        y == z,
{
}

} // verus!
