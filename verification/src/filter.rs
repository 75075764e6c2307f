//! The mode-aware filter: an engine together with the response that its
//! coefficients were derived for, so that a change of cutoff or of mode
//! re-derives them at once.
use crate::coefficients::{
    high_pass_coefficients, is_high_pass, is_low_pass, lemma_high_pass_unique,
    lemma_low_pass_unique, low_pass_coefficients, BiquadCoefficients, Phasor,
};
use crate::engine::{is_response, is_silent, lemma_response_unique, shifted, BiquadFilter};
use crate::sample::{deterministic, total, Sample};
use vstd::prelude::*;

verus! {

/// The response that a filter's coefficients are derived for.
#[derive(Clone, Copy, Debug, PartialEq, Eq, Structural)]
pub enum FilterMode {
    LowPass,
    HighPass,
}

/// What a filter holds besides its source of phasors.
#[derive(Clone, Copy, Debug)]
pub struct FilterState<S> {
    pub biquad: BiquadFilter<S>,
    pub sample_rate: S,
    pub cutoff: S,
    pub mode: FilterMode,
}

/// A low-pass or high-pass filter of a fixed sample rate.
///
/// `W` computes the phasor of a frequency: from a sample rate and a
/// frequency, in that order and in the same unit, the cosine and the sine of
/// `2π · frequency / sample_rate`.
pub struct Filter<S, W> {
    state: FilterState<S>,
    phasor: W,
}

/// `phasor` accepts every sample rate and frequency.
pub open spec fn accepts_all<S, W: Fn(S, S) -> Phasor<S>>(phasor: W) -> bool {
    forall|sample_rate: S, frequency: S| call_requires(phasor, (sample_rate, frequency))
}

/// `phasor` gives one phasor for each sample rate and frequency.
pub open spec fn gives_one<S, W: Fn(S, S) -> Phasor<S>>(phasor: W) -> bool {
    forall|sample_rate: S, frequency: S, p: Phasor<S>, q: Phasor<S>|
        call_ensures(phasor, (sample_rate, frequency), p) && call_ensures(
            phasor,
            (sample_rate, frequency),
            q,
        ) ==> p == q
}

/// `c` is an outcome of deriving the coefficients of the response `mode` for
/// `cutoff` at `sample_rate`, with phasors from `phasor`.
pub open spec fn is_design<S: Sample, W: Fn(S, S) -> Phasor<S>>(
    phasor: W,
    mode: FilterMode,
    sample_rate: S,
    cutoff: S,
    c: BiquadCoefficients<S>,
) -> bool {
    exists|p: Phasor<S>| #[trigger]
        call_ensures(phasor, (sample_rate, cutoff), p) && match mode {
            FilterMode::LowPass => is_low_pass(p, c),
            FilterMode::HighPass => is_high_pass(p, c),
        }
}

/// The coefficients of `s` are derived for its mode, sample rate and cutoff.
pub open spec fn is_consistent<S: Sample, W: Fn(S, S) -> Phasor<S>>(
    phasor: W,
    s: FilterState<S>,
) -> bool {
    is_design(phasor, s.mode, s.sample_rate, s.cutoff, s.biquad.coefficients)
}

/// `post` is an outcome of setting the cutoff of `pre` to `cutoff`: the
/// coefficients are derived anew for the mode of `pre`, which stays, as do
/// the sample rate and the history.
pub open spec fn is_cutoff_set<S: Sample, W: Fn(S, S) -> Phasor<S>>(
    phasor: W,
    pre: FilterState<S>,
    cutoff: S,
    post: FilterState<S>,
) -> bool {
    &&& post.cutoff == cutoff
    &&& post.mode == pre.mode
    &&& post.sample_rate == pre.sample_rate
    &&& post.biquad.history == pre.biquad.history
    &&& is_consistent(phasor, post)
}

/// `post` is an outcome of changing `pre` to the response `mode`: `pre`
/// itself where it has that mode already; else the coefficients are derived
/// anew for `mode` and the cutoff of `pre`, which stays, as do the sample rate
/// and the history.
pub open spec fn is_mode_changed<S: Sample, W: Fn(S, S) -> Phasor<S>>(
    phasor: W,
    pre: FilterState<S>,
    mode: FilterMode,
    post: FilterState<S>,
) -> bool {
    if pre.mode == mode {
        post == pre
    } else {
        &&& post.mode == mode
        &&& post.cutoff == pre.cutoff
        &&& post.sample_rate == pre.sample_rate
        &&& post.biquad.history == pre.biquad.history
        &&& is_consistent(phasor, post)
    }
}

/// The state after `pre` took `input` and gave `output`: only the history
/// moves on.
pub open spec fn advanced<S>(pre: FilterState<S>, input: S, output: S) -> FilterState<S> {
    FilterState {
        biquad: BiquadFilter {
            coefficients: pre.biquad.coefficients,
            history: shifted(pre.biquad.history, input, output),
        },
        ..pre
    }
}

/// `output` is an outcome of running `input` through `pre`, and `post` is the
/// state after it.
pub open spec fn is_processed<S: Sample>(
    pre: FilterState<S>,
    input: S,
    output: S,
    post: FilterState<S>,
) -> bool {
    &&& is_response(pre.biquad.coefficients, pre.biquad.history, input, output)
    &&& post == advanced(pre, input, output)
}

/// `outputs` is an outcome of running the stream `inputs` through `start`,
/// sample by sample and in order, and `end` is the state after it.
pub open spec fn is_run<S: Sample>(
    start: FilterState<S>,
    inputs: Seq<S>,
    outputs: Seq<S>,
    end: FilterState<S>,
) -> bool
    decreases inputs.len(),
{
    if inputs.len() == 0 {
        outputs.len() == 0 && end == start
    } else {
        &&& outputs.len() == inputs.len()
        &&& is_response(start.biquad.coefficients, start.biquad.history, inputs[0], outputs[0])
        &&& is_run(advanced(start, inputs[0], outputs[0]), inputs.skip(1), outputs.skip(1), end)
    }
}

/// `s` is an outcome of making a low-pass filter for `cutoff` at
/// `sample_rate`.
pub open spec fn is_new_lowpass<S: Sample, W: Fn(S, S) -> Phasor<S>>(
    phasor: W,
    sample_rate: S,
    cutoff: S,
    s: FilterState<S>,
) -> bool {
    &&& s.mode == FilterMode::LowPass
    &&& s.sample_rate == sample_rate
    &&& s.cutoff == cutoff
    &&& is_silent(s.biquad.history)
    &&& is_consistent(phasor, s)
}

impl<S, W> View for Filter<S, W> {
    type V = FilterState<S>;

    closed spec fn view(&self) -> FilterState<S> {
        self.state
    }
}

impl<S: Sample, W: Fn(S, S) -> Phasor<S>> Filter<S, W> {
    /// The filter's source of phasors.
    pub closed spec fn phasor(&self) -> W {
        self.phasor
    }

    /// The arithmetic and the phasors accept every operand, and the
    /// coefficients are derived for the mode, the sample rate and the cutoff.
    pub open spec fn wf(&self) -> bool {
        &&& total::<S>()
        &&& accepts_all(self.phasor())
        &&& is_consistent(self.phasor(), self@)
    }

    /// A low-pass filter for `cutoff` at `sample_rate`, both in hertz, with a
    /// silent history.
    pub fn new_lowpass(sample_rate: S, cutoff: S, phasor: W) -> (filter: Self)
        requires
            total::<S>(),
            accepts_all(phasor),
        ensures
            filter.wf(),
            filter.phasor() == phasor,
            is_new_lowpass(phasor, sample_rate, cutoff, filter@),
    {
        assert(call_requires(phasor, (sample_rate, cutoff)));
        let p = phasor(sample_rate, cutoff);
        let biquad = BiquadFilter::new(low_pass_coefficients(p));
        Self {
            state: FilterState { biquad, sample_rate, cutoff, mode: FilterMode::LowPass },
            phasor,
        }
    }

    /// The mode, the sample rate, the cutoff, the coefficients and the
    /// history, as they are now.
    pub fn state(&self) -> (state: FilterState<S>)
        ensures
            state == self@,
    {
        self.state
    }

    /// Runs one sample through the filter.
    pub fn process(&mut self, input: S) -> (output: S)
        requires
            old(self).wf(),
        ensures
            final(self).wf(),
            final(self).phasor() == old(self).phasor(),
            is_processed(old(self)@, input, output, final(self)@),
    {
        self.state.biquad.process(input)
    }

    /// Derives the coefficients of the response `mode` for `cutoff` at the
    /// filter's sample rate.
    fn derive(&self, mode: FilterMode, cutoff: S) -> (c: BiquadCoefficients<S>)
        requires
            total::<S>(),
            accepts_all(self.phasor()),
        ensures
            is_design(self.phasor(), mode, self@.sample_rate, cutoff, c),
    {
        assert(call_requires(self.phasor, (self.state.sample_rate, cutoff)));
        let p = (self.phasor)(self.state.sample_rate, cutoff);
        match mode {
            FilterMode::LowPass => low_pass_coefficients(p),
            FilterMode::HighPass => high_pass_coefficients(p),
        }
    }

    /// Sets the cutoff frequency, in hertz, and derives the coefficients of
    /// the current mode for it.
    pub fn set_cutoff(&mut self, cutoff: S)
        requires
            old(self).wf(),
        ensures
            final(self).wf(),
            final(self).phasor() == old(self).phasor(),
            is_cutoff_set(old(self).phasor(), old(self)@, cutoff, final(self)@),
    {
        let coefficients = self.derive(self.state.mode, cutoff);
        self.state.biquad.set_coefficients(coefficients);
        self.state.cutoff = cutoff;
    }

    /// Makes the filter a low-pass filter, at its current cutoff. Does
    /// nothing to one that is a low-pass filter already.
    pub fn change_to_lowpass(&mut self)
        requires
            old(self).wf(),
        ensures
            final(self).wf(),
            final(self).phasor() == old(self).phasor(),
            is_mode_changed(old(self).phasor(), old(self)@, FilterMode::LowPass, final(self)@),
    {
        match self.state.mode {
            FilterMode::LowPass => {},
            FilterMode::HighPass => {
                let coefficients = self.derive(FilterMode::LowPass, self.state.cutoff);
                self.state.biquad.set_coefficients(coefficients);
                self.state.mode = FilterMode::LowPass;
            },
        }
    }

    /// Makes the filter a high-pass filter, at its current cutoff. Does
    /// nothing to one that is a high-pass filter already.
    pub fn change_to_highpass(&mut self)
        requires
            old(self).wf(),
        ensures
            final(self).wf(),
            final(self).phasor() == old(self).phasor(),
            is_mode_changed(old(self).phasor(), old(self)@, FilterMode::HighPass, final(self)@),
    {
        match self.state.mode {
            FilterMode::HighPass => {},
            FilterMode::LowPass => {
                let coefficients = self.derive(FilterMode::HighPass, self.state.cutoff);
                self.state.biquad.set_coefficients(coefficients);
                self.state.mode = FilterMode::HighPass;
            },
        }
    }
}

/// Where the arithmetic and the phasors are deterministic, a mode, a sample
/// rate and a cutoff have one set of coefficients.
pub proof fn lemma_design_unique<S: Sample, W: Fn(S, S) -> Phasor<S>>(
    phasor: W,
    mode: FilterMode,
    sample_rate: S,
    cutoff: S,
    c: BiquadCoefficients<S>,
    d: BiquadCoefficients<S>,
)
    requires
        deterministic::<S>(),
        gives_one(phasor),
        is_design(phasor, mode, sample_rate, cutoff, c),
        is_design(phasor, mode, sample_rate, cutoff, d),
    ensures
        c == d,
{
    let p = choose|p: Phasor<S>| #[trigger]
        call_ensures(phasor, (sample_rate, cutoff), p) && match mode {
            FilterMode::LowPass => is_low_pass(p, c),
            FilterMode::HighPass => is_high_pass(p, c),
        };
    let q = choose|q: Phasor<S>| #[trigger]
        call_ensures(phasor, (sample_rate, cutoff), q) && match mode {
            FilterMode::LowPass => is_low_pass(q, d),
            FilterMode::HighPass => is_high_pass(q, d),
        };
    assert(p == q);
    match mode {
        FilterMode::LowPass => lemma_low_pass_unique(p, c, d),
        FilterMode::HighPass => lemma_high_pass_unique(p, c, d),
    }
}

/// Changing to the mode that a filter has already changes nothing: of two
/// changes to one mode in a row, the second leaves the filter as the first
/// left it, history included.
pub proof fn lemma_mode_change_idempotent<S: Sample, W: Fn(S, S) -> Phasor<S>>(
    phasor: W,
    s0: FilterState<S>,
    mode: FilterMode,
    s1: FilterState<S>,
    s2: FilterState<S>,
)
    requires
        is_mode_changed(phasor, s0, mode, s1),
        is_mode_changed(phasor, s1, mode, s2),
    ensures
        s2 == s1,
{
}

/// A change to low-pass, then to high-pass, then back to low-pass ends in a
/// low-pass filter with the cutoff, the sample rate and the history it began
/// with, and with coefficients derived for low-pass at that cutoff. Where the
/// arithmetic and the phasors are deterministic, it ends in the very state
/// that the first change to low-pass gave.
pub proof fn lemma_mode_round_trip<S: Sample, W: Fn(S, S) -> Phasor<S>>(
    phasor: W,
    s0: FilterState<S>,
    s1: FilterState<S>,
    s2: FilterState<S>,
    s3: FilterState<S>,
)
    requires
        is_consistent(phasor, s0),
        is_mode_changed(phasor, s0, FilterMode::LowPass, s1),
        is_mode_changed(phasor, s1, FilterMode::HighPass, s2),
        is_mode_changed(phasor, s2, FilterMode::LowPass, s3),
    ensures
        s3.mode == FilterMode::LowPass,
        s3.cutoff == s0.cutoff,
        s3.sample_rate == s0.sample_rate,
        s3.biquad.history == s0.biquad.history,
        is_design(phasor, FilterMode::LowPass, s0.sample_rate, s0.cutoff, s3.biquad.coefficients),
        deterministic::<S>() && gives_one(phasor) ==> s3 == s1,
{
    if deterministic::<S>() && gives_one(phasor) {
        lemma_design_unique(
            phasor,
            FilterMode::LowPass,
            s0.sample_rate,
            s0.cutoff,
            s1.biquad.coefficients,
            s3.biquad.coefficients,
        );
    }
}

/// Where the arithmetic is deterministic, a state and a stream of inputs
/// determine the outputs and the state at the end.
pub proof fn lemma_run_unique<S: Sample>(
    start: FilterState<S>,
    inputs: Seq<S>,
    ys: Seq<S>,
    zs: Seq<S>,
    end_y: FilterState<S>,
    end_z: FilterState<S>,
)
    requires
        deterministic::<S>(),
        is_run(start, inputs, ys, end_y),
        is_run(start, inputs, zs, end_z),
    ensures
        ys == zs,
        end_y == end_z,
    decreases inputs.len(),
{
    if inputs.len() == 0 {
        assert(ys =~= zs);
    } else {
        lemma_response_unique(
            start.biquad.coefficients,
            start.biquad.history,
            inputs[0],
            ys[0],
            zs[0],
        );
        lemma_run_unique(
            advanced(start, inputs[0], ys[0]),
            inputs.skip(1),
            ys.skip(1),
            zs.skip(1),
            end_y,
            end_z,
        );
        assert forall|i: int| 0 <= i < ys.len() implies ys[i] == zs[i] by {
            if i > 0 {
                assert(ys[i] == ys.skip(1)[i - 1]);
                assert(zs[i] == zs.skip(1)[i - 1]);
            }
        }
        assert(ys =~= zs);
    }
}

/// Two new low-pass filters for one sample rate and one cutoff, fed one
/// stream of inputs, give the same outputs and end in the same state, where
/// the arithmetic and the phasors are deterministic.
pub proof fn lemma_equal_filters_agree<S: Sample, W: Fn(S, S) -> Phasor<S>>(
    phasor: W,
    sample_rate: S,
    cutoff: S,
    s: FilterState<S>,
    t: FilterState<S>,
    inputs: Seq<S>,
    ys: Seq<S>,
    zs: Seq<S>,
    end_y: FilterState<S>,
    end_z: FilterState<S>,
)
    requires
        deterministic::<S>(),
        gives_one(phasor),
        is_new_lowpass(phasor, sample_rate, cutoff, s),
        is_new_lowpass(phasor, sample_rate, cutoff, t),
        is_run(s, inputs, ys, end_y),
        is_run(t, inputs, zs, end_z),
    ensures
        s == t,
        ys == zs,
        end_y == end_z,
{
    lemma_design_unique(
        phasor,
        FilterMode::LowPass,
        sample_rate,
        cutoff,
        s.biquad.coefficients,
        t.biquad.coefficients,
    );
    lemma_run_unique(s, inputs, ys, zs, end_y, end_z);
}

} // verus!
