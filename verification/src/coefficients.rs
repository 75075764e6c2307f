//! Coefficient derivation: from the cosine and sine of a filter's angular
//! frequency to the five normalized coefficients of one biquad section.
use crate::sample::{
    deterministic, is_difference, is_number, is_opposite, is_product, is_quotient, is_sum, total, Sample,
};
use core::ops::Neg;
use vstd::prelude::*;

verus! {

/// The normalized coefficients of one biquad section: feed-forward `b0`,
/// `b1`, `b2` and feedback `a1`, `a2`. The leading feedback coefficient is
/// one and is not stored.
#[derive(Clone, Copy, Debug)]
pub struct BiquadCoefficients<S> {
    pub a1: S,
    pub a2: S,
    pub b0: S,
    pub b1: S,
    pub b2: S,
}

/// The cosine and sine of the angular frequency `w0 = 2π · f / sample_rate`.
#[derive(Clone, Copy, Debug)]
pub struct Phasor<S> {
    pub cos: S,
    pub sin: S,
}

/// A biquad section before normalization: the numerator `b0`, `b1`, `b2` and
/// the denominator `a0`, `a1`, `a2` of its transfer function.
#[derive(Clone, Copy, Debug)]
pub struct Section<S> {
    pub b0: S,
    pub b1: S,
    pub b2: S,
    pub a0: S,
    pub a1: S,
    pub a2: S,
}

/// `c` holds each coefficient of `s` divided by `s.a0`.
pub open spec fn is_normalized<S: Sample>(s: Section<S>, c: BiquadCoefficients<S>) -> bool {
    &&& is_quotient(s.b0, s.a0, c.b0)
    &&& is_quotient(s.b1, s.a0, c.b1)
    &&& is_quotient(s.b2, s.a0, c.b2)
    &&& is_quotient(s.a1, s.a0, c.a1)
    &&& is_quotient(s.a2, s.a0, c.a2)
}

/// The denominator shared by all three responses, for a damping term `alpha`
/// and the sample type's `one` and `two`: `a0 = 1 + alpha`, `a1 = -2 · cos`,
/// `a2 = 1 - alpha`.
pub open spec fn is_denominator<S: Sample>(one: S, two: S, cos: S, alpha: S, s: Section<S>) -> bool {
    exists|minus_two: S|
        {
            &&& #[trigger] is_opposite(two, minus_two)
            &&& is_product(minus_two, cos, s.a1)
            &&& is_sum(one, alpha, s.a0)
            &&& is_difference(one, alpha, s.a2)
        }
}

/// `s` is the low-pass section for `p`, with damping `alpha = sin`:
/// `b0 = b2 = (1 - cos) / 2` and `b1 = 1 - cos`.
pub open spec fn is_low_pass_section<S: Sample>(p: Phasor<S>, s: Section<S>) -> bool {
    exists|one: S, two: S|
        {
            &&& #[trigger] is_number(1, one)
            &&& #[trigger] is_number(2, two)
            &&& is_difference(one, p.cos, s.b1)
            &&& is_quotient(s.b1, two, s.b0)
            &&& s.b2 == s.b0
            &&& is_denominator(one, two, p.cos, p.sin, s)
        }
}

/// `s` is the high-pass section for `p`, with damping `alpha = sin`:
/// `b0 = b2 = (1 + cos) / 2` and `b1 = -(1 + cos)`.
pub open spec fn is_high_pass_section<S: Sample>(p: Phasor<S>, s: Section<S>) -> bool {
    exists|one: S, two: S, t: S|
        {
            &&& #[trigger] is_number(1, one)
            &&& #[trigger] is_number(2, two)
            &&& #[trigger] is_sum(one, p.cos, t)
            &&& is_quotient(t, two, s.b0)
            &&& is_opposite(t, s.b1)
            &&& s.b2 == s.b0
            &&& is_denominator(one, two, p.cos, p.sin, s)
        }
}

/// `alpha` is the constant-bandwidth damping term of a band-pass section:
/// `sin · root_two / 2 · bandwidth / center_frequency`, the operations taken
/// from left to right.
pub open spec fn is_band_pass_damping<S: Sample>(
    sin: S,
    two: S,
    root_two: S,
    center_frequency: S,
    bandwidth: S,
    alpha: S,
) -> bool {
    exists|u: S, v: S, w: S|
        {
            &&& #[trigger] is_product(sin, root_two, u)
            &&& #[trigger] is_quotient(u, two, v)
            &&& #[trigger] is_product(v, bandwidth, w)
            &&& is_quotient(w, center_frequency, alpha)
        }
}

/// `s` is the band-pass section for `p`: `b0 = sin / 2`, `b1 = 0` and
/// `b2 = -sin / 2`, with the constant-bandwidth damping term.
pub open spec fn is_band_pass_section<S: Sample>(
    p: Phasor<S>,
    root_two: S,
    center_frequency: S,
    bandwidth: S,
    s: Section<S>,
) -> bool {
    exists|one: S, two: S, alpha: S, n: S|
        {
            &&& #[trigger] is_number(1, one)
            &&& #[trigger] is_number(2, two)
            &&& #[trigger] is_band_pass_damping(
                p.sin,
                two,
                root_two,
                center_frequency,
                bandwidth,
                alpha,
            )
            &&& #[trigger] is_opposite(p.sin, n)
            &&& is_quotient(p.sin, two, s.b0)
            &&& is_number(0, s.b1)
            &&& is_quotient(n, two, s.b2)
            &&& is_denominator(one, two, p.cos, alpha, s)
        }
}

/// `c` holds the normalized coefficients of the low-pass section for `p`.
pub open spec fn is_low_pass<S: Sample>(p: Phasor<S>, c: BiquadCoefficients<S>) -> bool {
    exists|s: Section<S>| #[trigger] is_low_pass_section(p, s) && is_normalized(s, c)
}

/// `c` holds the normalized coefficients of the high-pass section for `p`.
pub open spec fn is_high_pass<S: Sample>(p: Phasor<S>, c: BiquadCoefficients<S>) -> bool {
    exists|s: Section<S>| #[trigger] is_high_pass_section(p, s) && is_normalized(s, c)
}

/// `c` holds the normalized coefficients of the band-pass section for `p`.
pub open spec fn is_band_pass<S: Sample>(
    p: Phasor<S>,
    root_two: S,
    center_frequency: S,
    bandwidth: S,
    c: BiquadCoefficients<S>,
) -> bool {
    exists|s: Section<S>| #[trigger]
        is_band_pass_section(p, root_two, center_frequency, bandwidth, s) && is_normalized(s, c)
}

/// Divides each coefficient of `s` by `s.a0`.
pub fn normalize<S: Sample>(s: Section<S>) -> (c: BiquadCoefficients<S>)
    requires
        total::<S>(),
    ensures
        is_normalized(s, c),
{
    BiquadCoefficients {
        b0: s.b0 / s.a0,
        b1: s.b1 / s.a0,
        b2: s.b2 / s.a0,
        a1: s.a1 / s.a0,
        a2: s.a2 / s.a0,
    }
}

/// The coefficients of a low-pass filter whose cutoff frequency has the
/// phasor `phasor`.
pub fn low_pass_coefficients<S: Sample>(phasor: Phasor<S>) -> (c: BiquadCoefficients<S>)
    requires
        total::<S>(),
    ensures
        is_low_pass(phasor, c),
{
    let one = S::from(1u8);
    let two = S::from(2u8);
    let alpha = phasor.sin;

    let b1 = one - phasor.cos;
    let b0 = b1 / two;
    let minus_two = two.neg();
    let section = Section {
        b0,
        b1,
        b2: b0,
        a0: one + alpha,
        a1: minus_two * phasor.cos,
        a2: one - alpha,
    };
    assert(is_opposite(two, minus_two));
    assert(is_number(1, one) && is_number(2, two));
    assert(is_low_pass_section(phasor, section));
    normalize(section)
}

/// The coefficients of a high-pass filter whose cutoff frequency has the
/// phasor `phasor`.
pub fn high_pass_coefficients<S: Sample>(phasor: Phasor<S>) -> (c: BiquadCoefficients<S>)
    requires
        total::<S>(),
    ensures
        is_high_pass(phasor, c),
{
    let one = S::from(1u8);
    let two = S::from(2u8);
    let alpha = phasor.sin;

    let t = one + phasor.cos;
    let b0 = t / two;
    let minus_two = two.neg();
    let section = Section {
        b0,
        b1: t.neg(),
        b2: b0,
        a0: one + alpha,
        a1: minus_two * phasor.cos,
        a2: one - alpha,
    };
    assert(is_opposite(two, minus_two));
    assert(is_number(1, one) && is_number(2, two) && is_sum(one, phasor.cos, t));
    assert(is_high_pass_section(phasor, section));
    normalize(section)
}

/// The coefficients of a band-pass filter whose center frequency
/// `center_frequency` has the phasor `phasor`, for the bandwidth `bandwidth`;
/// both are in the same unit. `root_two` is the sample type's square root of
/// two.
pub fn band_pass_coefficients<S: Sample>(
    phasor: Phasor<S>,
    root_two: S,
    center_frequency: S,
    bandwidth: S,
) -> (c: BiquadCoefficients<S>)
    requires
        total::<S>(),
    ensures
        is_band_pass(phasor, root_two, center_frequency, bandwidth, c),
{
    let one = S::from(1u8);
    let two = S::from(2u8);
    let u = phasor.sin * root_two;
    let v = u / two;
    let w = v * bandwidth;
    let alpha = w / center_frequency;
    assert(is_product(phasor.sin, root_two, u) && is_quotient(u, two, v) && is_product(
        v,
        bandwidth,
        w,
    ));
    assert(is_band_pass_damping(phasor.sin, two, root_two, center_frequency, bandwidth, alpha));

    let n = phasor.sin.neg();
    let minus_two = two.neg();
    let section = Section {
        b0: phasor.sin / two,
        b1: S::from(0u8),
        b2: n / two,
        a0: one + alpha,
        a1: minus_two * phasor.cos,
        a2: one - alpha,
    };
    assert(is_opposite(two, minus_two));
    assert(is_number(1, one) && is_number(2, two) && is_opposite(phasor.sin, n));
    assert(is_band_pass_section(phasor, root_two, center_frequency, bandwidth, section));
    normalize(section)
}

/// The leading denominator coefficient of `s` is `a0 = 1 + alpha`.
pub open spec fn has_leading<S: Sample>(alpha: S, s: Section<S>) -> bool {
    exists|one: S| #[trigger] is_number(1, one) && is_sum(one, alpha, s.a0)
}

/// Low-pass coefficients are those of a section with `a0 = 1 + sin`, each
/// divided by that `a0`.
pub proof fn lemma_low_pass_normalized<S: Sample>(p: Phasor<S>, c: BiquadCoefficients<S>)
    requires
        is_low_pass(p, c),
    ensures
        exists|s: Section<S>| #[trigger] has_leading(p.sin, s) && is_normalized(s, c),
{
    let s = choose|s: Section<S>| #[trigger] is_low_pass_section(p, s) && is_normalized(s, c);
    assert(has_leading(p.sin, s));
}

/// High-pass coefficients are those of a section with `a0 = 1 + sin`, each
/// divided by that `a0`.
pub proof fn lemma_high_pass_normalized<S: Sample>(p: Phasor<S>, c: BiquadCoefficients<S>)
    requires
        is_high_pass(p, c),
    ensures
        exists|s: Section<S>| #[trigger] has_leading(p.sin, s) && is_normalized(s, c),
{
    let s = choose|s: Section<S>| #[trigger] is_high_pass_section(p, s) && is_normalized(s, c);
    assert(has_leading(p.sin, s));
}

/// Band-pass coefficients are those of a section with `a0 = 1 + alpha`, for
/// the constant-bandwidth damping term `alpha`, each divided by that `a0`.
pub proof fn lemma_band_pass_normalized<S: Sample>(
    p: Phasor<S>,
    root_two: S,
    center_frequency: S,
    bandwidth: S,
    c: BiquadCoefficients<S>,
)
    requires
        is_band_pass(p, root_two, center_frequency, bandwidth, c),
    ensures
        exists|s: Section<S>, two: S, alpha: S|
            {
                &&& #[trigger] is_number(2, two)
                &&& #[trigger] is_band_pass_damping(
                    p.sin,
                    two,
                    root_two,
                    center_frequency,
                    bandwidth,
                    alpha,
                )
                &&& #[trigger] has_leading(alpha, s)
                &&& is_normalized(s, c)
            },
{
    let s = choose|s: Section<S>| #[trigger]
        is_band_pass_section(p, root_two, center_frequency, bandwidth, s) && is_normalized(s, c);
    let (one, two, alpha, n) = choose|one: S, two: S, alpha: S, n: S|
        {
            &&& #[trigger] is_number(1, one)
            &&& #[trigger] is_number(2, two)
            &&& #[trigger] is_band_pass_damping(
                p.sin,
                two,
                root_two,
                center_frequency,
                bandwidth,
                alpha,
            )
            &&& #[trigger] is_opposite(p.sin, n)
            &&& is_quotient(p.sin, two, s.b0)
            &&& is_number(0, s.b1)
            &&& is_quotient(n, two, s.b2)
            &&& is_denominator(one, two, p.cos, alpha, s)
        };
    assert(has_leading(alpha, s));
}

/// Where the arithmetic is deterministic, a phasor has one set of low-pass
/// coefficients.
pub proof fn lemma_low_pass_unique<S: Sample>(
    p: Phasor<S>,
    c: BiquadCoefficients<S>,
    d: BiquadCoefficients<S>,
)
    requires
        deterministic::<S>(),
        is_low_pass(p, c),
        is_low_pass(p, d),
    ensures
        c == d,
{
}

/// Where the arithmetic is deterministic, a phasor has one set of high-pass
/// coefficients.
pub proof fn lemma_high_pass_unique<S: Sample>(
    p: Phasor<S>,
    c: BiquadCoefficients<S>,
    d: BiquadCoefficients<S>,
)
    requires
        deterministic::<S>(),
        is_high_pass(p, c),
        is_high_pass(p, d),
    ensures
        c == d,
{
}

/// Where the arithmetic is deterministic, a phasor, a center frequency and a
/// bandwidth have one set of band-pass coefficients.
pub proof fn lemma_band_pass_unique<S: Sample>(
    p: Phasor<S>,
    root_two: S,
    center_frequency: S,
    bandwidth: S,
    c: BiquadCoefficients<S>,
    d: BiquadCoefficients<S>,
)
    requires
        deterministic::<S>(),
        is_band_pass(p, root_two, center_frequency, bandwidth, c),
        is_band_pass(p, root_two, center_frequency, bandwidth, d),
    ensures
        c == d,
{
}

} // verus!
