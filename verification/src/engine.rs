//! The two filter engines: the cascade of filter units, the histories of the
//! units, and the lanes of the vectorized engine.
//!
//! An engine, scalar or vectorized, first applies the gain before the units
//! to a sample and then runs it through its filter units in order; each unit
//! takes the output of the unit before it. A unit keeps its coefficients and
//! the last two inputs and outputs that it saw.
//!
//! The arithmetic stands outside this library and is handed in as two
//! functions: `scale` applies the gain to one sample, and the kernel computes
//! one output of the difference equation
//! `y[n] = b0·x[n] + b1·x[n−1] + b2·x[n−2] − a1·y[n−1] − a2·y[n−2]` from the
//! coefficients, the input and the history. The engines are written for any
//! type `C` of coefficients and any type `S` of samples.

use crate::cascade::{compile_plan, compiled_bands, lemma_compiled_among, Engine};
use crate::eq::{EqProfile, Filter};
use vstd::prelude::*;

verus! {

/// The last two inputs and the last two outputs of a filter unit.
#[derive(Debug, Clone, Copy, PartialEq)]
pub struct History<S> {
    /// The input one step ago.
    pub x1: S,
    /// The input two steps ago.
    pub x2: S,
    /// The output one step ago.
    pub y1: S,
    /// The output two steps ago.
    pub y2: S,
}

/// One filter unit of the scalar engine.
#[derive(Debug, Clone, Copy, PartialEq)]
pub struct Biquad<C, S> {
    pub coeffs: C,
    pub history: History<S>,
}

impl<S> History<S> {
    /// The history of a unit that has seen nothing but `silence`.
    pub open spec fn silent(silence: S) -> History<S> {
        History { x1: silence, x2: silence, y1: silence, y2: silence }
    }
}

/// Whether the kernel may be called with any values.
pub open spec fn takes_any<C, S, K: Fn(&C, S, S, S, S, S) -> S>(kernel: K) -> bool {
    forall|c: &C, x: S, x1: S, x2: S, y1: S, y2: S| call_requires(kernel, (c, x, x1, x2, y1, y2))
}

/// Whether the kernel computes a function: the same values give the same
/// output.
pub open spec fn is_function<C, S, K: Fn(&C, S, S, S, S, S) -> S>(kernel: K) -> bool {
    forall|c: &C, x: S, x1: S, x2: S, y1: S, y2: S, a: S, b: S|
        call_ensures(kernel, (c, x, x1, x2, y1, y2), a) && call_ensures(
            kernel,
            (c, x, x1, x2, y1, y2),
            b,
        ) ==> a == b
}

/// One step of a filter unit: `y` is an output of the kernel for the
/// coefficients, the input `x` and the history `before`, and `after` is the
/// history shifted by one step, with `x` and `y` as the newest entries.
pub open spec fn steps<C, S, K: Fn(&C, S, S, S, S, S) -> S>(
    kernel: K,
    coeffs: C,
    before: History<S>,
    x: S,
    after: History<S>,
    y: S,
) -> bool {
    &&& call_ensures(kernel, (&coeffs, x, before.x1, before.x2, before.y1, before.y2), y)
    &&& after == History { x1: x, x2: before.x1, y1: y, y2: before.y1 }
}

/// What the unit `i` of a cascade took in, read from the units after the
/// step: the sample `x` for the first unit, and for any other the newest
/// output of the unit before it. For `i` past the last unit, it is what the
/// cascade gave out.
pub open spec fn input_at<C, S>(after: Seq<Biquad<C, S>>, x: S, i: int) -> S {
    if i <= 0 {
        x
    } else {
        after[i - 1].history.y1
    }
}

/// What went into the first unit of a cascade, read from the units after the
/// step and from what the cascade gave out: the newest input of the first
/// unit, or, where there is no unit, what the cascade gave out.
pub open spec fn entered<C, S>(after: Seq<Biquad<C, S>>, y: S) -> S {
    if after.len() == 0 {
        y
    } else {
        after[0].history.x1
    }
}

/// One step of a cascade: every unit keeps its coefficients and makes one step
/// on what the unit before it gave out, the first on `x`; `y` is what the last
/// unit gave out, or `x` where there is no unit.
pub open spec fn cascade_runs<C, S, K: Fn(&C, S, S, S, S, S) -> S>(
    kernel: K,
    before: Seq<Biquad<C, S>>,
    x: S,
    after: Seq<Biquad<C, S>>,
    y: S,
) -> bool {
    &&& after.len() == before.len()
    &&& forall|i: int|
        0 <= i < before.len() ==> {
            &&& (#[trigger] after[i]).coeffs == before[i].coeffs
            &&& steps(
                kernel,
                before[i].coeffs,
                before[i].history,
                input_at(after, x, i),
                after[i].history,
                after[i].history.y1,
            )
        }
    &&& y == input_at(after, x, after.len() as int)
}

/// Whether the function that applies the gain may be called with any values.
pub open spec fn scales_any<S, G: Fn(S, S) -> S>(scale: G) -> bool {
    forall|gain: S, sample: S| call_requires(scale, (gain, sample))
}

/// Whether the function that applies the gain computes a function: the same
/// gain and sample give the same output.
pub open spec fn scale_is_function<S, G: Fn(S, S) -> S>(scale: G) -> bool {
    forall|gain: S, sample: S, a: S, b: S|
        call_ensures(scale, (gain, sample), a) && call_ensures(scale, (gain, sample), b) ==> a == b
}

/// One step of an engine on the sample `x`: what enters the first unit is an
/// output of `scale` for the gain and `x`, the units make one step of the
/// cascade on it, and `y` is what the cascade gives out.
pub open spec fn engine_runs<C, S, G: Fn(S, S) -> S, K: Fn(&C, S, S, S, S, S) -> S>(
    scale: G,
    kernel: K,
    gain: S,
    before: Seq<Biquad<C, S>>,
    x: S,
    after: Seq<Biquad<C, S>>,
    y: S,
) -> bool {
    &&& call_ensures(scale, (gain, x), entered(after, y))
    &&& cascade_runs(kernel, before, entered(after, y), after, y)
}

impl<C, S: Copy> Biquad<C, S> {
    /// A unit with the coefficients `coeffs` that has seen nothing but
    /// `silence`.
    pub fn new(coeffs: C, silence: S) -> (r: Self)
        ensures
            r.coeffs == coeffs,
            r.history == History::silent(silence),
    {
        Biquad { coeffs, history: History { x1: silence, x2: silence, y1: silence, y2: silence } }
    }

    /// Makes one step on the input `x`: computes the output with the kernel
    /// and shifts the history.
    pub fn process<K: Fn(&C, S, S, S, S, S) -> S>(&mut self, x: S, kernel: &K) -> (y: S)
        requires
            takes_any::<C, S, K>(*kernel),
        ensures
            final(self).coeffs == old(self).coeffs,
            steps(*kernel, old(self).coeffs, old(self).history, x, final(self).history, y),
    {
        let h = self.history;
        let y = kernel(&self.coeffs, x, h.x1, h.x2, h.y1, h.y2);
        self.history = History { x1: x, x2: h.x1, y1: y, y2: h.y1 };
        y
    }
}

/// The scalar engine: a gain before the units, and the units in order.
pub struct Equalizer<C, S> {
    gain: S,
    bands: Vec<Biquad<C, S>>,
}

impl<C, S: Copy> Equalizer<C, S> {
    /// The gain before the units.
    pub closed spec fn gain(&self) -> S {
        self.gain
    }

    /// The units, in the order in which a sample runs through them.
    pub closed spec fn units(&self) -> Seq<Biquad<C, S>> {
        self.bands@
    }

    /// The engine for a profile: one unit for each band that the scalar
    /// engine compiles, in the order of the profile, with the coefficients
    /// that `coefficients` gives for the band, and with a history of silence.
    /// `gain` is the gain before the units.
    pub fn from_profile<F: Fn(&Filter) -> C>(
        profile: &EqProfile,
        gain: S,
        silence: S,
        coefficients: &F,
    ) -> (r: Self)
        requires
            forall|band: &Filter| call_requires(*coefficients, (band,)),
        ensures
            r.gain() == gain,
            r.units().len() == compiled_bands(profile@.filters, Engine::Scalar).len(),
            forall|k: int|
                0 <= k < r.units().len() ==> {
                    &&& call_ensures(
                        *coefficients,
                        (&profile.filters@[compiled_bands(profile@.filters, Engine::Scalar)[k]],),
                        (#[trigger] r.units()[k]).coeffs,
                    )
                    &&& r.units()[k].history == History::silent(silence)
                },
    {
        let bands = compile_units(profile, Engine::Scalar, silence, coefficients);
        Equalizer { gain, bands }
    }

    /// The number of units.
    pub fn len(&self) -> (r: usize)
        ensures
            r == self.units().len(),
    {
        self.bands.len()
    }

    /// Runs one sample through the engine: `scale` applies the gain before the
    /// units, and then each unit in order makes one step on what the unit
    /// before it gave out.
    pub fn process_sample<G: Fn(S, S) -> S, K: Fn(&C, S, S, S, S, S) -> S>(
        &mut self,
        x: S,
        scale: &G,
        kernel: &K,
    ) -> (y: S)
        requires
            scales_any::<S, G>(*scale),
            takes_any::<C, S, K>(*kernel),
        ensures
            final(self).gain() == old(self).gain(),
            engine_runs(
                *scale,
                *kernel,
                old(self).gain(),
                old(self).units(),
                x,
                final(self).units(),
                y,
            ),
    {
        let scaled = scale(self.gain, x);
        let y = run_cascade(&mut self.bands, scaled, kernel);
        proof {
            if self.bands@.len() > 0 {
                assert(self.bands@[0].history.x1 == input_at(self.bands@, scaled, 0));
            }
            assert(entered(self.units(), y) == scaled);
        }
        y
    }
}

/// Runs one sample through the units `bands`, in order.
pub fn run_cascade<C, S: Copy, K: Fn(&C, S, S, S, S, S) -> S>(
    bands: &mut Vec<Biquad<C, S>>,
    x: S,
    kernel: &K,
) -> (y: S)
    requires
        takes_any::<C, S, K>(*kernel),
    ensures
        cascade_runs(*kernel, old(bands)@, x, final(bands)@, y),
{
    let mut v = x;
    let mut i: usize = 0;
    while i < bands.len()
        invariant
            i <= bands.len(),
            takes_any::<C, S, K>(*kernel),
            bands@.len() == old(bands)@.len(),
            v == input_at(bands@, x, i as int),
            forall|j: int| i <= j < bands@.len() ==> bands@[j] == old(bands)@[j],
            forall|j: int|
                0 <= j < i ==> {
                    &&& (#[trigger] bands@[j]).coeffs == old(bands)@[j].coeffs
                    &&& steps(
                        *kernel,
                        old(bands)@[j].coeffs,
                        old(bands)@[j].history,
                        input_at(bands@, x, j),
                        bands@[j].history,
                        bands@[j].history.y1,
                    )
                },
        decreases bands.len() - i,
    {
        let ghost before = bands@;
        v = bands[i].process(v, kernel);
        assert(forall|j: int| 0 <= j < bands@.len() && j != i ==> bands@[j] == before[j]);
        assert(forall|j: int| 0 <= j <= i ==> input_at(bands@, x, j) == input_at(before, x, j));
        i += 1;
    }
    v
}

/// The units for the bands of `profile` that `engine` compiles, in the order of
/// the profile, each with the coefficients that `coefficients` gives for its
/// band and with a history of silence.
fn compile_units<C, S: Copy, F: Fn(&Filter) -> C>(
    profile: &EqProfile,
    engine: Engine,
    silence: S,
    coefficients: &F,
) -> (units: Vec<Biquad<C, S>>)
    requires
        forall|band: &Filter| call_requires(*coefficients, (band,)),
    ensures
        units@.len() == compiled_bands(profile@.filters, engine).len(),
        forall|k: int|
            0 <= k < units@.len() ==> {
                &&& call_ensures(
                    *coefficients,
                    (&profile.filters@[compiled_bands(profile@.filters, engine)[k]],),
                    (#[trigger] units@[k]).coeffs,
                )
                &&& units@[k].history == History::silent(silence)
            },
{
    let plan = compile_plan(profile, engine);
    proof {
        lemma_compiled_among(profile@.filters, engine, profile@.filters.len() as int);
    }
    let mut units: Vec<Biquad<C, S>> = Vec::new();
    let mut k: usize = 0;
    while k < plan.len()
        invariant
            k <= plan.len(),
            units@.len() == k,
            profile@.filters.len() == profile.filters@.len(),
            plan@.len() == compiled_bands(profile@.filters, engine).len(),
            forall|j: int| 0 <= j < plan@.len() ==> plan@[j] == compiled_bands(profile@.filters, engine)[j],
            forall|j: int|
                0 <= j < plan@.len() ==> 0 <= #[trigger] compiled_bands(profile@.filters, engine)[j]
                    < profile@.filters.len(),
            forall|band: &Filter| call_requires(*coefficients, (band,)),
            forall|j: int|
                0 <= j < k ==> {
                    &&& call_ensures(
                        *coefficients,
                        (&profile.filters@[compiled_bands(profile@.filters, engine)[j]],),
                        (#[trigger] units@[j]).coeffs,
                    )
                    &&& units@[j].history == History::silent(silence)
                },
        decreases plan.len() - k,
    {
        let index = plan[k];
        assert(index == compiled_bands(profile@.filters, engine)[k as int]);
        let band = &profile.filters[index];
        let coeffs = coefficients(band);
        units.push(Biquad::new(coeffs, silence));
        k += 1;
    }
    units
}

/// One filter unit of the vectorized engine: the coefficients, which all four
/// lanes share, and one history for each lane.
#[derive(Debug, Clone, Copy, PartialEq)]
pub struct QuadBiquad<C, S> {
    pub coeffs: C,
    pub lanes: [History<S>; 4],
}

/// The unit that the lane `lane` of a unit of the vectorized engine is.
pub open spec fn lane_unit<C, S>(unit: QuadBiquad<C, S>, lane: int) -> Biquad<C, S> {
    Biquad { coeffs: unit.coeffs, history: unit.lanes[lane] }
}

/// The cascade that the lane `lane` of the units of the vectorized engine is.
pub open spec fn lane_of<C, S>(units: Seq<QuadBiquad<C, S>>, lane: int) -> Seq<Biquad<C, S>> {
    Seq::new(units.len(), |i: int| lane_unit(units[i], lane))
}

impl<C, S: Copy> QuadBiquad<C, S> {
    /// A unit with the coefficients `coeffs` whose lanes have seen nothing but
    /// `silence`.
    pub fn new(coeffs: C, silence: S) -> (r: Self)
        ensures
            r.coeffs == coeffs,
            forall|lane: int| 0 <= lane < 4 ==> r.lanes[lane] == History::silent(silence),
    {
        let h = History { x1: silence, x2: silence, y1: silence, y2: silence };
        QuadBiquad { coeffs, lanes: [h, h, h, h] }
    }

    /// Replaces the coefficients and keeps the histories.
    pub fn update_coeffs(&mut self, coeffs: C)
        ensures
            final(self).coeffs == coeffs,
            final(self).lanes == old(self).lanes,
    {
        self.coeffs = coeffs;
    }

    /// Makes one step of the lane `lane` on the input `x`. The other lanes
    /// stay as they are.
    pub fn process_lane<K: Fn(&C, S, S, S, S, S) -> S>(
        &mut self,
        lane: usize,
        x: S,
        kernel: &K,
    ) -> (y: S)
        requires
            lane < 4,
            takes_any::<C, S, K>(*kernel),
        ensures
            final(self).coeffs == old(self).coeffs,
            steps(
                *kernel,
                old(self).coeffs,
                old(self).lanes[lane as int],
                x,
                final(self).lanes[lane as int],
                y,
            ),
            forall|other: int|
                0 <= other < 4 && other != lane ==> final(self).lanes[other] == old(self).lanes[other],
    {
        let h = self.lanes[lane];
        let y = kernel(&self.coeffs, x, h.x1, h.x2, h.y1, h.y2);
        self.lanes[lane] = History { x1: x, x2: h.x1, y1: y, y2: h.y1 };
        y
    }
}

/// A run of an engine over the samples `xs`, one step for each in order:
/// `ys` holds what the engine gave out, and `after` the units after the last
/// step.
pub open spec fn sequence_runs<C, S, G: Fn(S, S) -> S, K: Fn(&C, S, S, S, S, S) -> S>(
    scale: G,
    kernel: K,
    gain: S,
    before: Seq<Biquad<C, S>>,
    xs: Seq<S>,
    after: Seq<Biquad<C, S>>,
    ys: Seq<S>,
) -> bool
    decreases xs.len(),
{
    &&& ys.len() == xs.len()
    &&& if xs.len() == 0 {
        after =~= before
    } else {
        exists|mid: Seq<Biquad<C, S>>|
            sequence_runs(scale, kernel, gain, before, xs.drop_last(), mid, ys.drop_last())
                && #[trigger] engine_runs(scale, kernel, gain, mid, xs.last(), after, ys.last())
    }
}

/// The number of samples of a buffer of `len` samples that belong to the lane
/// `lane`: those at the indices `lane`, `lane + 4`, `lane + 8` and so on.
pub open spec fn lane_len(len: int, lane: int) -> int {
    (len + 3 - lane) / 4
}

/// The samples of the buffer `data` that belong to the lane `lane`, in order.
pub open spec fn lane_samples<S>(data: Seq<S>, lane: int) -> Seq<S> {
    Seq::new(lane_len(data.len() as int, lane) as nat, |n: int| data[4 * n + lane])
}

/// A run of the vectorized engine over a buffer: each of the four lanes runs
/// its own samples through the gain and its own cascade, in order, and the
/// outputs stand where the inputs stood.
pub open spec fn buffer_runs<C, S, G: Fn(S, S) -> S, K: Fn(&C, S, S, S, S, S) -> S>(
    scale: G,
    kernel: K,
    gain: S,
    before: Seq<QuadBiquad<C, S>>,
    data_in: Seq<S>,
    after: Seq<QuadBiquad<C, S>>,
    data_out: Seq<S>,
) -> bool {
    &&& data_out.len() == data_in.len()
    &&& forall|lane: int|
        0 <= lane < 4 ==> sequence_runs(
            scale,
            kernel,
            gain,
            #[trigger] lane_of(before, lane),
            lane_samples(data_in, lane),
            lane_of(after, lane),
            lane_samples(data_out, lane),
        )
}

/// The vectorized engine: a gain before the units, and the units in order,
/// each with four lanes.
pub struct ParametricEq<C, S> {
    gain: S,
    bands: Vec<QuadBiquad<C, S>>,
}

impl<C, S: Copy> ParametricEq<C, S> {
    /// The gain before the units.
    pub closed spec fn gain(&self) -> S {
        self.gain
    }

    /// The units, in the order in which a sample runs through them.
    pub closed spec fn units(&self) -> Seq<QuadBiquad<C, S>> {
        self.bands@
    }

    /// An engine with the gain `gain` before the units, and without units.
    pub fn new(gain: S) -> (r: Self)
        ensures
            r.gain() == gain,
            r.units().len() == 0,
    {
        ParametricEq { gain, bands: Vec::new() }
    }

    /// The number of units.
    pub fn len(&self) -> (r: usize)
        ensures
            r == self.units().len(),
    {
        self.bands.len()
    }

    /// Appends a unit with the coefficients `coeffs` whose lanes have seen
    /// nothing but `silence`.
    pub fn add_band(&mut self, coeffs: C, silence: S)
        ensures
            final(self).gain() == old(self).gain(),
            final(self).units().len() == old(self).units().len() + 1,
            forall|i: int| 0 <= i < old(self).units().len() ==> final(self).units()[i] == old(self).units()[i],
            final(self).units()[old(self).units().len() as int].coeffs == coeffs,
            forall|lane: int|
                0 <= lane < 4 ==> final(self).units()[old(self).units().len() as int].lanes[lane]
                    == History::silent(silence),
    {
        self.bands.push(QuadBiquad::new(coeffs, silence));
    }

    /// Replaces the coefficients of the unit `index` and keeps its histories
    /// and every other unit. Does nothing where there is no such unit.
    pub fn update_band(&mut self, index: usize, coeffs: C)
        ensures
            final(self).gain() == old(self).gain(),
            final(self).units().len() == old(self).units().len(),
            forall|i: int|
                0 <= i < old(self).units().len() && i != index ==> final(self).units()[i] == old(
                    self,
                ).units()[i],
            index < old(self).units().len() ==> final(self).units()[index as int].coeffs == coeffs
                && final(self).units()[index as int].lanes == old(self).units()[index as int].lanes,
    {
        if index < self.bands.len() {
            self.bands[index].update_coeffs(coeffs);
        }
    }

    /// The engine for a profile: one unit for each band that the vectorized
    /// engine compiles, in the order of the profile, with the coefficients
    /// that `coefficients` gives for the band, and with histories of silence.
    /// `gain` is the gain before the units.
    pub fn from_profile<F: Fn(&Filter) -> C>(
        profile: &EqProfile,
        gain: S,
        silence: S,
        coefficients: &F,
    ) -> (r: Self)
        requires
            forall|band: &Filter| call_requires(*coefficients, (band,)),
        ensures
            r.gain() == gain,
            r.units().len() == compiled_bands(profile@.filters, Engine::Vectorized).len(),
            forall|k: int|
                0 <= k < r.units().len() ==> {
                    &&& call_ensures(
                        *coefficients,
                        (&profile.filters@[compiled_bands(profile@.filters, Engine::Vectorized)[k]],),
                        (#[trigger] r.units()[k]).coeffs,
                    )
                    &&& forall|lane: int|
                        0 <= lane < 4 ==> r.units()[k].lanes[lane] == History::silent(silence)
                },
    {
        let plan = compile_plan(profile, Engine::Vectorized);
        proof {
            lemma_compiled_among(profile@.filters, Engine::Vectorized, profile@.filters.len() as int);
        }
        let mut eq = Self::new(gain);
        let mut k: usize = 0;
        while k < plan.len()
            invariant
                k <= plan.len(),
                eq.gain() == gain,
                eq.units().len() == k,
                profile@.filters.len() == profile.filters@.len(),
                plan@.len() == compiled_bands(profile@.filters, Engine::Vectorized).len(),
                forall|j: int|
                    0 <= j < plan@.len() ==> plan@[j] == compiled_bands(
                        profile@.filters,
                        Engine::Vectorized,
                    )[j],
                forall|j: int|
                    0 <= j < plan@.len() ==> 0 <= #[trigger] compiled_bands(
                        profile@.filters,
                        Engine::Vectorized,
                    )[j] < profile@.filters.len(),
                forall|band: &Filter| call_requires(*coefficients, (band,)),
                forall|j: int|
                    0 <= j < k ==> {
                        &&& call_ensures(
                            *coefficients,
                            (&profile.filters@[compiled_bands(profile@.filters, Engine::Vectorized)[j]],),
                            (#[trigger] eq.units()[j]).coeffs,
                        )
                        &&& forall|lane: int|
                            0 <= lane < 4 ==> eq.units()[j].lanes[lane] == History::silent(silence)
                    },
            decreases plan.len() - k,
        {
            let index = plan[k];
            assert(index == compiled_bands(profile@.filters, Engine::Vectorized)[k as int]);
            let band = &profile.filters[index];
            let coeffs = coefficients(band);
            eq.add_band(coeffs, silence);
            k += 1;
        }
        eq
    }

    /// Runs one sample of the lane `lane` through the gain and then through
    /// the units, in order. The other lanes stay as they are, and so do the
    /// gain, the number of the units and their coefficients.
    pub fn process_lane<G: Fn(S, S) -> S, K: Fn(&C, S, S, S, S, S) -> S>(
        &mut self,
        lane: usize,
        x: S,
        scale: &G,
        kernel: &K,
    ) -> (y: S)
        requires
            lane < 4,
            scales_any::<S, G>(*scale),
            takes_any::<C, S, K>(*kernel),
        ensures
            final(self).gain() == old(self).gain(),
            final(self).units().len() == old(self).units().len(),
            forall|i: int|
                0 <= i < old(self).units().len() ==> (#[trigger] final(self).units()[i]).coeffs == old(
                    self,
                ).units()[i].coeffs,
            engine_runs(
                *scale,
                *kernel,
                old(self).gain(),
                lane_of(old(self).units(), lane as int),
                x,
                lane_of(final(self).units(), lane as int),
                y,
            ),
            forall|other: int|
                0 <= other < 4 && other != lane ==> lane_of(final(self).units(), other) == lane_of(
                    old(self).units(),
                    other,
                ),
    {
        let scaled = scale(self.gain, x);
        let y = self.cascade_lane(lane, scaled, kernel);
        proof {
            let after = lane_of(self.units(), lane as int);
            if after.len() > 0 {
                assert(after[0].history.x1 == input_at(after, scaled, 0));
            }
            assert(entered(after, y) == scaled);
        }
        y
    }

    /// Runs one value of the lane `lane` through the units, in order.
    fn cascade_lane<K: Fn(&C, S, S, S, S, S) -> S>(
        &mut self,
        lane: usize,
        x: S,
        kernel: &K,
    ) -> (y: S)
        requires
            lane < 4,
            takes_any::<C, S, K>(*kernel),
        ensures
            final(self).gain() == old(self).gain(),
            final(self).units().len() == old(self).units().len(),
            forall|i: int|
                0 <= i < old(self).units().len() ==> (#[trigger] final(self).units()[i]).coeffs == old(
                    self,
                ).units()[i].coeffs,
            cascade_runs(
                *kernel,
                lane_of(old(self).units(), lane as int),
                x,
                lane_of(final(self).units(), lane as int),
                y,
            ),
            forall|other: int|
                0 <= other < 4 && other != lane ==> lane_of(final(self).units(), other) == lane_of(
                    old(self).units(),
                    other,
                ),
    {
        let ghost l = lane as int;
        let mut v = x;
        let mut i: usize = 0;
        while i < self.bands.len()
            invariant
                i <= self.bands.len(),
                lane < 4,
                l == lane,
                takes_any::<C, S, K>(*kernel),
                self.gain == old(self).gain,
                self.bands@.len() == old(self).bands@.len(),
                v == input_at(lane_of(self.bands@, l), x, i as int),
                forall|j: int| i <= j < self.bands@.len() ==> self.bands@[j] == old(self).bands@[j],
                forall|j: int, other: int|
                    0 <= j < self.bands@.len() && 0 <= other < 4 && other != l ==> (
                    #[trigger] self.bands@[j].lanes[other]) == old(self).bands@[j].lanes[other],
                forall|j: int|
                    0 <= j < self.bands@.len() ==> (#[trigger] self.bands@[j]).coeffs == old(
                        self,
                    ).bands@[j].coeffs,
                forall|j: int|
                    0 <= j < i ==> steps(
                        *kernel,
                        old(self).bands@[j].coeffs,
                        old(self).bands@[j].lanes[l],
                        input_at(lane_of(self.bands@, l), x, j),
                        (#[trigger] self.bands@[j]).lanes[l],
                        self.bands@[j].lanes[l].y1,
                    ),
            decreases self.bands.len() - i,
        {
            let ghost before = self.bands@;
            v = self.bands[i].process_lane(lane, v, kernel);
            assert(forall|j: int| 0 <= j < self.bands@.len() && j != i ==> self.bands@[j] == before[j]);
            assert(forall|j: int|
                0 <= j <= i ==> input_at(lane_of(self.bands@, l), x, j) == input_at(
                    lane_of(before, l),
                    x,
                    j,
                ));
            i += 1;
        }
        proof {
            let after = lane_of(self.bands@, l);
            let start = lane_of(old(self).bands@, l);
            assert forall|j: int| 0 <= j < start.len() implies (#[trigger] after[j]).coeffs
                == start[j].coeffs && steps(
                *kernel,
                start[j].coeffs,
                start[j].history,
                input_at(after, x, j),
                after[j].history,
                after[j].history.y1,
            ) by {
                assert(self.bands@[j].coeffs == old(self).bands@[j].coeffs);
            }
            assert forall|other: int| 0 <= other < 4 && other != lane implies lane_of(
                self.bands@,
                other,
            ) == lane_of(old(self).bands@, other) by {
                assert forall|j: int| 0 <= j < self.bands@.len() implies lane_unit(
                    self.bands@[j],
                    other,
                ) == lane_unit(old(self).bands@[j], other) by {
                    assert(self.bands@[j].lanes[other] == old(self).bands@[j].lanes[other]);
                    assert(self.bands@[j].coeffs == old(self).bands@[j].coeffs);
                }
                assert(lane_of(self.bands@, other) =~= lane_of(old(self).bands@, other));
            }
        }
        v
    }
}

/// The samples of a lane among the first `j + 1` samples of a buffer are
/// those among the first `j`, where the sample `j` belongs to another lane.
proof fn lemma_other_lane<S>(a: Seq<S>, b: Seq<S>, j: int, lane: int)
    requires
        0 <= lane < 4,
        0 <= j < b.len(),
        j <= a.len(),
        j % 4 != lane,
        forall|i: int| 0 <= i < j ==> b[i] == a[i],
    ensures
        lane_samples(b.take(j + 1), lane) == lane_samples(a.take(j), lane),
{
    assert(lane_samples(b.take(j + 1), lane) =~= lane_samples(a.take(j), lane));
}

/// The samples of a lane among the first `j + 1` samples of a buffer are
/// those among the first `j` and then the sample `j`, where the sample `j`
/// belongs to the lane.
proof fn lemma_this_lane<S>(a: Seq<S>, b: Seq<S>, j: int, lane: int)
    requires
        0 <= lane < 4,
        0 <= j < b.len(),
        j <= a.len(),
        j % 4 == lane,
        forall|i: int| 0 <= i < j ==> b[i] == a[i],
    ensures
        lane_samples(b.take(j + 1), lane).len() > 0,
        lane_samples(b.take(j + 1), lane).drop_last() == lane_samples(a.take(j), lane),
        lane_samples(b.take(j + 1), lane).last() == b[j],
{
    let now = lane_samples(b.take(j + 1), lane);
    assert(now.len() == lane_len(j, lane) + 1);
    assert(4 * lane_len(j, lane) + lane == j);
    assert(now.drop_last() =~= lane_samples(a.take(j), lane));
}

impl<C, S: Copy> ParametricEq<C, S> {
    /// Runs a buffer through the engine, in place. The sample at the index
    /// `j` belongs to the lane `j mod 4`: four samples that stand together are
    /// one sample of each lane. Each sample runs through the gain and then
    /// through the units of its lane. The length of the buffer need not be a
    /// multiple of four; the samples behind the last full four are run through
    /// the lanes that they belong to. The gain, the number of the units and
    /// their coefficients stay as they are.
    pub fn process_buffer<G: Fn(S, S) -> S, K: Fn(&C, S, S, S, S, S) -> S>(
        &mut self,
        data: &mut [S],
        scale: &G,
        kernel: &K,
    )
        requires
            scales_any::<S, G>(*scale),
            takes_any::<C, S, K>(*kernel),
        ensures
            final(self).gain() == old(self).gain(),
            final(self).units().len() == old(self).units().len(),
            forall|i: int|
                0 <= i < old(self).units().len() ==> (#[trigger] final(self).units()[i]).coeffs == old(
                    self,
                ).units()[i].coeffs,
            buffer_runs(
                *scale,
                *kernel,
                old(self).gain(),
                old(self).units(),
                old(data)@,
                final(self).units(),
                final(data)@,
            ),
    {
        let len = data.len();
        let mut j: usize = 0;
        proof {
            assert forall|lane: int| 0 <= lane < 4 implies sequence_runs(
                *scale,
                *kernel,
                self.gain(),
                #[trigger] lane_of(self.units(), lane),
                lane_samples(data@.take(0), lane),
                lane_of(self.units(), lane),
                lane_samples(data@.take(0), lane),
            ) by {}
        }
        while j < len
            invariant
                j <= len,
                len == data@.len(),
                len == old(data)@.len(),
                scales_any::<S, G>(*scale),
                takes_any::<C, S, K>(*kernel),
                self.gain() == old(self).gain(),
                self.units().len() == old(self).units().len(),
                forall|i: int|
                    0 <= i < old(self).units().len() ==> (#[trigger] self.units()[i]).coeffs == old(
                        self,
                    ).units()[i].coeffs,
                forall|i: int| j <= i < len ==> data@[i] == old(data)@[i],
                forall|lane: int|
                    0 <= lane < 4 ==> sequence_runs(
                        *scale,
                        *kernel,
                        old(self).gain(),
                        #[trigger] lane_of(old(self).units(), lane),
                        lane_samples(old(data)@.take(j as int), lane),
                        lane_of(self.units(), lane),
                        lane_samples(data@.take(j as int), lane),
                    ),
            decreases len - j,
        {
            let ghost units_before = self.units();
            let ghost data_before = data@;
            let lane = j % 4;
            let x = data[j];
            let y = self.process_lane(lane, x, scale, kernel);
            data[j] = y;
            proof {
                let start = old(data)@;
                let gain = old(self).gain();
                assert forall|l: int| 0 <= l < 4 implies sequence_runs(
                    *scale,
                    *kernel,
                    gain,
                    #[trigger] lane_of(old(self).units(), l),
                    lane_samples(start.take(j + 1), l),
                    lane_of(self.units(), l),
                    lane_samples(data@.take(j + 1), l),
                ) by {
                    let before = lane_of(old(self).units(), l);
                    assert(sequence_runs(
                        *scale,
                        *kernel,
                        gain,
                        before,
                        lane_samples(start.take(j as int), l),
                        lane_of(units_before, l),
                        lane_samples(data_before.take(j as int), l),
                    ));
                    if l == lane {
                        lemma_this_lane(start, start, j as int, l);
                        lemma_this_lane(data_before, data@, j as int, l);
                        let xs = lane_samples(start.take(j + 1), l);
                        let ys = lane_samples(data@.take(j + 1), l);
                        assert(xs.last() == x);
                        assert(ys.last() == y);
                        assert(engine_runs(
                            *scale,
                            *kernel,
                            gain,
                            lane_of(units_before, l),
                            xs.last(),
                            lane_of(self.units(), l),
                            ys.last(),
                        ));
                    } else {
                        lemma_other_lane(start, start, j as int, l);
                        lemma_other_lane(data_before, data@, j as int, l);
                    }
                }
            }
            j += 1;
        }
        proof {
            assert(old(data)@.take(len as int) =~= old(data)@);
            assert(data@.take(len as int) =~= data@);
        }
    }
}

/// A cascade with a kernel that computes a function makes one step in one
/// way only: the units after the step and the output are determined by the
/// units before it and the input.
pub proof fn lemma_cascade_is_determined<C, S, K: Fn(&C, S, S, S, S, S) -> S>(
    kernel: K,
    before: Seq<Biquad<C, S>>,
    x: S,
    first: Seq<Biquad<C, S>>,
    y1: S,
    second: Seq<Biquad<C, S>>,
    y2: S,
)
    requires
        is_function::<C, S, K>(kernel),
        cascade_runs(kernel, before, x, first, y1),
        cascade_runs(kernel, before, x, second, y2),
    ensures
        first == second,
        y1 == y2,
{
    lemma_units_are_determined(kernel, before, x, first, y1, second, y2, before.len() as int);
    assert(first =~= second);
}

proof fn lemma_units_are_determined<C, S, K: Fn(&C, S, S, S, S, S) -> S>(
    kernel: K,
    before: Seq<Biquad<C, S>>,
    x: S,
    first: Seq<Biquad<C, S>>,
    y1: S,
    second: Seq<Biquad<C, S>>,
    y2: S,
    n: int,
)
    requires
        is_function::<C, S, K>(kernel),
        cascade_runs(kernel, before, x, first, y1),
        cascade_runs(kernel, before, x, second, y2),
        0 <= n <= before.len(),
    ensures
        forall|i: int| 0 <= i < n ==> first[i] == second[i],
    decreases n,
{
    if n > 0 {
        lemma_units_are_determined(kernel, before, x, first, y1, second, y2, n - 1);
        let i = n - 1;
        assert(first[i].coeffs == before[i].coeffs);
        assert(second[i].coeffs == before[i].coeffs);
        assert(input_at(first, x, i) == input_at(second, x, i));
        let h = before[i].history;
        assert(call_ensures(
            kernel,
            (&before[i].coeffs, input_at(first, x, i), h.x1, h.x2, h.y1, h.y2),
            first[i].history.y1,
        ));
        assert(call_ensures(
            kernel,
            (&before[i].coeffs, input_at(first, x, i), h.x1, h.x2, h.y1, h.y2),
            second[i].history.y1,
        ));
        assert(first[i].history == second[i].history);
    }
}

/// An engine whose gain and kernel compute functions makes one step in one
/// way only: the units after the step and the output are determined by the
/// gain, the units before the step and the sample.
pub proof fn lemma_engine_is_determined<C, S, G: Fn(S, S) -> S, K: Fn(&C, S, S, S, S, S) -> S>(
    scale: G,
    kernel: K,
    gain: S,
    before: Seq<Biquad<C, S>>,
    x: S,
    first: Seq<Biquad<C, S>>,
    y1: S,
    second: Seq<Biquad<C, S>>,
    y2: S,
)
    requires
        scale_is_function::<S, G>(scale),
        is_function::<C, S, K>(kernel),
        engine_runs(scale, kernel, gain, before, x, first, y1),
        engine_runs(scale, kernel, gain, before, x, second, y2),
    ensures
        first == second,
        y1 == y2,
{
    assert(entered(first, y1) == entered(second, y2));
    lemma_cascade_is_determined(kernel, before, entered(first, y1), first, y1, second, y2);
}

/// An engine whose gain and kernel compute functions runs a sequence of
/// samples in one way only.
pub proof fn lemma_sequence_is_determined<C, S, G: Fn(S, S) -> S, K: Fn(&C, S, S, S, S, S) -> S>(
    scale: G,
    kernel: K,
    gain: S,
    before: Seq<Biquad<C, S>>,
    xs: Seq<S>,
    first: Seq<Biquad<C, S>>,
    ys1: Seq<S>,
    second: Seq<Biquad<C, S>>,
    ys2: Seq<S>,
)
    requires
        scale_is_function::<S, G>(scale),
        is_function::<C, S, K>(kernel),
        sequence_runs(scale, kernel, gain, before, xs, first, ys1),
        sequence_runs(scale, kernel, gain, before, xs, second, ys2),
    ensures
        first == second,
        ys1 == ys2,
    decreases xs.len(),
{
    if xs.len() == 0 {
        assert(first =~= second);
        assert(ys1 =~= ys2);
    } else {
        let mid1 = choose|mid: Seq<Biquad<C, S>>|
            sequence_runs(scale, kernel, gain, before, xs.drop_last(), mid, ys1.drop_last())
                && #[trigger] engine_runs(scale, kernel, gain, mid, xs.last(), first, ys1.last());
        let mid2 = choose|mid: Seq<Biquad<C, S>>|
            sequence_runs(scale, kernel, gain, before, xs.drop_last(), mid, ys2.drop_last())
                && #[trigger] engine_runs(scale, kernel, gain, mid, xs.last(), second, ys2.last());
        lemma_sequence_is_determined(
            scale,
            kernel,
            gain,
            before,
            xs.drop_last(),
            mid1,
            ys1.drop_last(),
            mid2,
            ys2.drop_last(),
        );
        lemma_engine_is_determined(
            scale,
            kernel,
            gain,
            mid1,
            xs.last(),
            first,
            ys1.last(),
            second,
            ys2.last(),
        );
        assert(ys1 =~= ys1.drop_last().push(ys1.last()));
        assert(ys2 =~= ys2.drop_last().push(ys2.last()));
    }
}

/// The vectorized engine does in each lane what the scalar engine does.
///
/// Let the gain and the kernel compute functions. Let the scalar engine run
/// the samples `xs`, one call of `process_sample` for each, and give out `ys`.
/// Let the vectorized engine, with the same gain, run a buffer in which every
/// lane holds the samples `xs`, from units whose every lane is as the units of
/// the scalar engine were. Then every lane of the buffer holds `ys`
/// afterwards, and every lane of the units is as the units of the scalar
/// engine are afterwards.
pub proof fn lemma_lanes_match_scalar<C, S, G: Fn(S, S) -> S, K: Fn(&C, S, S, S, S, S) -> S>(
    scale: G,
    kernel: K,
    gain: S,
    scalar_before: Seq<Biquad<C, S>>,
    xs: Seq<S>,
    scalar_after: Seq<Biquad<C, S>>,
    ys: Seq<S>,
    vector_before: Seq<QuadBiquad<C, S>>,
    data_in: Seq<S>,
    vector_after: Seq<QuadBiquad<C, S>>,
    data_out: Seq<S>,
)
    requires
        scale_is_function::<S, G>(scale),
        is_function::<C, S, K>(kernel),
        sequence_runs(scale, kernel, gain, scalar_before, xs, scalar_after, ys),
        buffer_runs(scale, kernel, gain, vector_before, data_in, vector_after, data_out),
        forall|lane: int| 0 <= lane < 4 ==> #[trigger] lane_of(vector_before, lane) == scalar_before,
        forall|lane: int| 0 <= lane < 4 ==> #[trigger] lane_samples(data_in, lane) == xs,
    ensures
        forall|lane: int| 0 <= lane < 4 ==> #[trigger] lane_samples(data_out, lane) == ys,
        forall|lane: int| 0 <= lane < 4 ==> #[trigger] lane_of(vector_after, lane) == scalar_after,
{
    assert forall|lane: int| 0 <= lane < 4 implies #[trigger] lane_samples(data_out, lane) == ys
        && lane_of(vector_after, lane) == scalar_after by {
        assert(lane_of(vector_before, lane) == scalar_before);
        assert(lane_samples(data_in, lane) == xs);
        lemma_sequence_is_determined(
            scale,
            kernel,
            gain,
            scalar_before,
            xs,
            scalar_after,
            ys,
            lane_of(vector_after, lane),
            lane_samples(data_out, lane),
        );
    }
    assert forall|lane: int| 0 <= lane < 4 implies #[trigger] lane_of(vector_after, lane)
        == scalar_after by {
        assert(lane_samples(data_out, lane) == ys);
    }
}

/// One call of `process_sample` after another is a run of the scalar engine:
/// a run over `xs` followed by one step on `x` is a run over `xs` and then `x`.
pub proof fn lemma_sequence_grows<C, S, G: Fn(S, S) -> S, K: Fn(&C, S, S, S, S, S) -> S>(
    scale: G,
    kernel: K,
    gain: S,
    before: Seq<Biquad<C, S>>,
    xs: Seq<S>,
    mid: Seq<Biquad<C, S>>,
    ys: Seq<S>,
    x: S,
    after: Seq<Biquad<C, S>>,
    y: S,
)
    requires
        sequence_runs(scale, kernel, gain, before, xs, mid, ys),
        engine_runs(scale, kernel, gain, mid, x, after, y),
    ensures
        sequence_runs(scale, kernel, gain, before, xs.push(x), after, ys.push(y)),
{
    let xs1 = xs.push(x);
    let ys1 = ys.push(y);
    assert(xs1.drop_last() =~= xs);
    assert(ys1.drop_last() =~= ys);
    assert(xs1.last() == x && ys1.last() == y);
    assert(sequence_runs(scale, kernel, gain, before, xs1.drop_last(), mid, ys1.drop_last()));
    assert(engine_runs(scale, kernel, gain, mid, xs1.last(), after, ys1.last()));
}

} // verus!
