//! What every band-selection policy shares: its errors, and the choice of a policy by name.
use vstd::prelude::*;
use serde_json::Value;
use crate::catalog::BandCatalog;
use crate::params::Params;
use crate::rotate::RotateChooserPlugin;
use crate::single::{fixed_choice, SingleChooserPlugin};
use crate::target::TargetChooserPlugin;
use crate::text::same_text;

verus! {

/// Why a policy could not pick a band.
#[derive(Debug, Clone, Copy, PartialEq, Eq, Structural)]
pub enum ChooseError {
    /// A parameter that the policy needs is missing or malformed.
    InvalidParameter,
    /// The policy picked this band, and the catalog does not have it.
    UnknownBand(u32),
}

/// What a call of `choose` gave back, with the frequencies seen as a sequence.
pub open spec fn outcome(r: Result<&Vec<u32>, ChooseError>) -> Result<Seq<u32>, ChooseError> {
    match r {
        Ok(f) => Ok(f@),
        Err(e) => Err(e),
    }
}

/// What picking `band` from `catalog` gives: its frequencies, or `UnknownBand`.
pub open spec fn lookup(catalog: Map<u32, Seq<u32>>, band: u32) -> Result<Seq<u32>, ChooseError> {
    if catalog.contains_key(band) {
        Ok(catalog[band])
    } else {
        Err(ChooseError::UnknownBand(band))
    }
}

/// One of the band-selection policies, each with its own state.
pub enum ChooserPlugin {
    /// Walks the bands in order (`rotate`).
    Rotate(RotateChooserPlugin),
    /// Stays on one band (`single`).
    Single(SingleChooserPlugin),
    /// Avoids the bands visited lately (`target`).
    Target(TargetChooserPlugin),
}

impl ChooserPlugin {
    pub open spec fn wf(&self) -> bool {
        match self {
            ChooserPlugin::Target(t) => t.wf(),
            _ => true,
        }
    }

    /// Whether the policy leaves its band when the idle timer fires.
    pub open spec fn leaves_on_timeout(&self) -> bool {
        !(self is Single)
    }

    /// What a call of `choose_band` does, from `before` to `after`, with outcome `r`.
    pub open spec fn chose(
        before: &ChooserPlugin,
        after: &ChooserPlugin,
        catalog: &BandCatalog,
        p: Map<Seq<char>, Seq<char>>,
        r: Result<Seq<u32>, ChooseError>,
    ) -> bool {
        match (before, after) {
            (ChooserPlugin::Rotate(b), ChooserPlugin::Rotate(a)) => RotateChooserPlugin::chose(
                b.position(),
                a.position(),
                catalog,
                p,
                r,
            ),
            (ChooserPlugin::Single(_), ChooserPlugin::Single(_)) => r == fixed_choice(catalog@, p),
            (ChooserPlugin::Target(b), ChooserPlugin::Target(a)) => TargetChooserPlugin::chose(
                b,
                a,
                catalog,
                p,
                r,
            ),
            _ => false,
        }
    }

    /// Picks the next band as the policy says.
    pub fn choose_band<'a>(&mut self, catalog: &'a BandCatalog, params: &Params) -> (r: Result<
        &'a Vec<u32>,
        ChooseError,
    >)
        requires
            old(self).wf(),
            catalog.wf(),
            params.wf(),
        ensures
            final(self).wf(),
            Self::chose(old(self), final(self), catalog, params@, outcome(r)),
    {
        match self {
            ChooserPlugin::Rotate(p) => p.choose_band(catalog, params),
            ChooserPlugin::Single(p) => p.choose_band(catalog, params),
            ChooserPlugin::Target(p) => p.choose_band(catalog, params),
        }
    }

    /// Whether a decoded frame forces a switch at once; no policy here does that.
    pub fn on_update(&self, frame: &Value) -> (r: bool)
        ensures
            !r,
    {
        match self {
            ChooserPlugin::Rotate(p) => p.on_update(frame),
            ChooserPlugin::Single(p) => p.on_update(frame),
            ChooserPlugin::Target(p) => p.on_update(frame),
        }
    }

    /// Whether to leave the band when the idle timer fires.
    pub fn on_timeout(&self) -> (r: bool)
        ensures
            r == self.leaves_on_timeout(),
    {
        match self {
            ChooserPlugin::Rotate(p) => p.on_timeout(),
            ChooserPlugin::Single(p) => p.on_timeout(),
            ChooserPlugin::Target(p) => p.on_timeout(),
        }
    }
}

/// Whether two values of a policy hold the same selection state: the position of a
/// rotation; the latest picks, the target and the staged band of a target policy.
pub open spec fn same_state(a: &ChooserPlugin, b: &ChooserPlugin) -> bool {
    match (a, b) {
        (ChooserPlugin::Rotate(x), ChooserPlugin::Rotate(y)) => x.position() == y.position(),
        (ChooserPlugin::Single(_), ChooserPlugin::Single(_)) => true,
        (ChooserPlugin::Target(x), ChooserPlugin::Target(y)) => {
            &&& x.visited() == y.visited()
            &&& x.target() == y.target()
            &&& x.staged() == y.staged()
        },
        _ => false,
    }
}

/// A pick that fails with `InvalidParameter` leaves the policy's state as it was.
pub proof fn lemma_invalid_parameter_keeps_state(
    before: &ChooserPlugin,
    after: &ChooserPlugin,
    catalog: &BandCatalog,
    p: Map<Seq<char>, Seq<char>>,
)
    requires
        catalog.wf(),
        ChooserPlugin::chose(before, after, catalog, p, Err(ChooseError::InvalidParameter)),
    ensures
        same_state(before, after),
{
    catalog.lemma_band_ids();
}

/// The fixed policy is idempotent: two picks with the same catalog and parameters give the
/// same outcome, whatever happened between them.
pub proof fn lemma_fixed_is_idempotent(
    first: &ChooserPlugin,
    after_first: &ChooserPlugin,
    later: &ChooserPlugin,
    after_later: &ChooserPlugin,
    catalog: &BandCatalog,
    p: Map<Seq<char>, Seq<char>>,
    r1: Result<Seq<u32>, ChooseError>,
    r2: Result<Seq<u32>, ChooseError>,
)
    requires
        first is Single,
        later is Single,
        ChooserPlugin::chose(first, after_first, catalog, p, r1),
        ChooserPlugin::chose(later, after_later, catalog, p, r2),
    ensures
        r1 == r2,
        after_first is Single,
        after_later is Single,
{
}

/// The policy called `name`, fresh: `rotate`, `single` or `target`; `None` for any other name.
pub fn get(name: &str) -> (r: Option<ChooserPlugin>)
    ensures
        r is Some <==> (name@ == "rotate"@ || name@ == "single"@ || name@ == "target"@),
        name@ == "rotate"@ ==> (r matches Some(ChooserPlugin::Rotate(p)) && p.position() is None),
        name@ == "single"@ ==> r matches Some(ChooserPlugin::Single(_)),
        name@ == "target"@ ==> (r matches Some(ChooserPlugin::Target(p)) && p.wf()
            && p.visited().len() == 0 && p.target() is None && p.staged() is None),
{
    proof {
        reveal_strlit("rotate");
        reveal_strlit("single");
        reveal_strlit("target");
        assert("rotate"@[0] != "single"@[0]);
        assert("rotate"@[0] != "target"@[0]);
        assert("single"@[0] != "target"@[0]);
    }
    if same_text(name, "rotate") {
        Some(ChooserPlugin::Rotate(RotateChooserPlugin::new()))
    } else if same_text(name, "single") {
        Some(ChooserPlugin::Single(SingleChooserPlugin::new()))
    } else if same_text(name, "target") {
        Some(ChooserPlugin::Target(TargetChooserPlugin::new()))
    } else {
        None
    }
}

} // verus!
