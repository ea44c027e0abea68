//! Which bands of a profile an engine compiles, and in which order.
//!
//! An engine makes one filter unit of each band that is enabled and whose kind
//! it has coefficients for, and runs the units in the order of the bands. The
//! coefficients and the filtering are floating-point work and stand outside
//! this library; the choice of the bands is made here.

use crate::eq::{EqProfile, FilterKind, FilterType, FilterView};
use vstd::prelude::*;

verus! {

/// The two engines.
#[derive(Debug, Clone, Copy, PartialEq, Eq)]
pub enum Engine {
    /// One sample at a time.
    Scalar,
    /// Four lanes at a time.
    Vectorized,
}

impl FilterKind {
    /// Whether `engine` has coefficients for the kind: both engines for
    /// peaking, the two shelves and the two passes, the scalar engine for
    /// all-pass too.
    pub open spec fn compiled_by(self, engine: Engine) -> bool {
        match self {
            FilterKind::Peaking => true,
            FilterKind::LowShelf => true,
            FilterKind::HighShelf => true,
            FilterKind::LowPass => true,
            FilterKind::HighPass => true,
            FilterKind::AllPass => engine is Scalar,
            _ => false,
        }
    }
}

impl FilterView {
    /// Whether `engine` makes a filter unit of the band.
    pub open spec fn compiled_by(self, engine: Engine) -> bool {
        self.enabled && self.filter_type.compiled_by(engine)
    }
}

/// The indices of the bands among the first `n` of `bands` that `engine`
/// compiles, in rising order.
pub open spec fn compiled_among(bands: Seq<FilterView>, engine: Engine, n: int) -> Seq<int>
    decreases n,
{
    if n <= 0 {
        Seq::empty()
    } else if bands[n - 1].compiled_by(engine) {
        compiled_among(bands, engine, n - 1).push(n - 1)
    } else {
        compiled_among(bands, engine, n - 1)
    }
}

/// The indices of the bands of `bands` that `engine` compiles, in rising order.
pub open spec fn compiled_bands(bands: Seq<FilterView>, engine: Engine) -> Seq<int> {
    compiled_among(bands, engine, bands.len() as int)
}

/// The number of bands among the first `n` of `bands` that are enabled.
pub open spec fn enabled_among(bands: Seq<FilterView>, n: int) -> nat
    decreases n,
{
    if n <= 0 {
        0
    } else if bands[n - 1].enabled {
        enabled_among(bands, n - 1) + 1
    } else {
        enabled_among(bands, n - 1)
    }
}

/// The number of bands of `bands` that are enabled.
pub open spec fn enabled_count(bands: Seq<FilterView>) -> nat {
    enabled_among(bands, bands.len() as int)
}

/// Whether `engine` has coefficients for the kind of every enabled band.
pub open spec fn all_kinds_compiled(bands: Seq<FilterView>, engine: Engine) -> bool {
    forall|i: int|
        0 <= i < bands.len() && (#[trigger] bands[i]).enabled ==> bands[i].filter_type.compiled_by(
            engine,
        )
}

/// Whether `engine` has coefficients for `kind`.
pub fn supports(engine: Engine, kind: &FilterType) -> (r: bool)
    ensures
        r == kind@.compiled_by(engine),
{
    match kind {
        FilterType::Peaking => true,
        FilterType::LowShelf => true,
        FilterType::HighShelf => true,
        FilterType::LowPass => true,
        FilterType::HighPass => true,
        FilterType::AllPass => match engine {
            Engine::Scalar => true,
            Engine::Vectorized => false,
        },
        _ => false,
    }
}

/// The bands that `engine` compiles: the index of each band that is enabled
/// and whose kind the engine has coefficients for, in the order of the profile.
pub fn compile_plan(profile: &EqProfile, engine: Engine) -> (plan: Vec<usize>)
    ensures
        plan@.len() == compiled_bands(profile@.filters, engine).len(),
        forall|k: int| 0 <= k < plan@.len() ==> plan@[k] == compiled_bands(profile@.filters, engine)[k],
{
    let mut plan: Vec<usize> = Vec::new();
    let mut i: usize = 0;
    while i < profile.filters.len()
        invariant
            i <= profile.filters.len(),
            profile@.filters.len() == profile.filters.len(),
            plan@.len() == compiled_among(profile@.filters, engine, i as int).len(),
            forall|k: int|
                0 <= k < plan@.len() ==> plan@[k] == compiled_among(profile@.filters, engine, i as int)[k],
        decreases profile.filters.len() - i,
    {
        let band = &profile.filters[i];
        assert(profile@.filters[i as int] == band@);
        if band.enabled && supports(engine, &band.filter_type) {
            plan.push(i);
        }
        i += 1;
    }
    plan
}

/// The plan names bands of the profile that the engine compiles, each once and
/// in rising order, and leaves none of them out.
pub proof fn lemma_compiled_among(bands: Seq<FilterView>, engine: Engine, n: int)
    requires
        0 <= n <= bands.len(),
    ensures
        forall|k: int|
            0 <= k < compiled_among(bands, engine, n).len() ==> {
                &&& 0 <= #[trigger] compiled_among(bands, engine, n)[k] < n
                &&& bands[compiled_among(bands, engine, n)[k]].compiled_by(engine)
            },
        forall|j: int, k: int|
            0 <= j < k < compiled_among(bands, engine, n).len() ==> compiled_among(bands, engine, n)[j]
                < compiled_among(bands, engine, n)[k],
        forall|i: int|
            0 <= i < n && (#[trigger] bands[i]).compiled_by(engine) ==> compiled_among(
                bands,
                engine,
                n,
            ).contains(i),
        compiled_among(bands, engine, n).len() <= enabled_among(bands, n) <= n,
        all_kinds_compiled(bands, engine) ==> compiled_among(bands, engine, n).len()
            == enabled_among(bands, n),
    decreases n,
{
    if n > 0 {
        lemma_compiled_among(bands, engine, n - 1);
        let before = compiled_among(bands, engine, n - 1);
        let now = compiled_among(bands, engine, n);
        if bands[n - 1].compiled_by(engine) {
            assert(now[now.len() - 1] == n - 1);
            assert forall|i: int| 0 <= i < n && (#[trigger] bands[i]).compiled_by(engine) implies now.contains(
                i,
            ) by {
                if i < n - 1 {
                    let k = choose|k: int| 0 <= k < before.len() && before[k] == i;
                    assert(now[k] == i);
                }
            }
        } else {
            assert forall|i: int| 0 <= i < n && (#[trigger] bands[i]).compiled_by(engine) implies now.contains(
                i,
            ) by {
                let k = choose|k: int| 0 <= k < before.len() && before[k] == i;
                assert(now[k] == i);
            }
        }
    }
}

/// An engine compiles the enabled bands and passes over the disabled ones:
/// of a profile whose enabled bands are all of kinds that the engine has
/// coefficients for, it makes as many filter units as bands are enabled, in
/// the order of the profile, each of an enabled band, and every enabled band
/// has its unit.
pub proof fn lemma_enabled_bands_are_compiled(bands: Seq<FilterView>, engine: Engine)
    requires
        all_kinds_compiled(bands, engine),
    ensures
        compiled_bands(bands, engine).len() == enabled_count(bands),
        forall|k: int|
            0 <= k < compiled_bands(bands, engine).len() ==> {
                &&& 0 <= #[trigger] compiled_bands(bands, engine)[k] < bands.len()
                &&& bands[compiled_bands(bands, engine)[k]].enabled
            },
        forall|j: int, k: int|
            0 <= j < k < compiled_bands(bands, engine).len() ==> compiled_bands(bands, engine)[j]
                < compiled_bands(bands, engine)[k],
        forall|i: int|
            0 <= i < bands.len() && (#[trigger] bands[i]).enabled ==> compiled_bands(
                bands,
                engine,
            ).contains(i),
{
    lemma_compiled_among(bands, engine, bands.len() as int);
}

} // verus!
