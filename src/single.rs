//! The fixed policy: always the band that the `band` parameter names.
use vstd::prelude::*;
use crate::catalog::BandCatalog;
use crate::chooser::{lookup, outcome, ChooseError};
use crate::params::Params;
use crate::text::{decimal_u32, parse_u32};
use serde_json::Value;

verus! {

/// The band that the `band` parameter names; `None` when it is missing or not a number.
pub open spec fn band_param(p: Map<Seq<char>, Seq<char>>) -> Option<u32> {
    if p.contains_key("band"@) {
        decimal_u32(p["band"@])
    } else {
        None
    }
}

/// What the fixed policy gives for `params` over `catalog`.
pub open spec fn fixed_choice(catalog: Map<u32, Seq<u32>>, p: Map<Seq<char>, Seq<char>>) -> Result<
    Seq<u32>,
    ChooseError,
> {
    match band_param(p) {
        Some(b) => lookup(catalog, b),
        None => Err(ChooseError::InvalidParameter),
    }
}

/// Stays on one band: it has no state, and never leaves the band on its own.
pub struct SingleChooserPlugin {}

impl SingleChooserPlugin {
    /// The fixed policy.
    pub fn new() -> (r: SingleChooserPlugin) {
        SingleChooserPlugin {  }
    }

    /// The frequencies of the band that `band` names. The result depends on the
    /// catalog and the parameters alone, so every call with the same ones gives the same.
    pub fn choose_band<'a>(&self, catalog: &'a BandCatalog, params: &Params) -> (r: Result<
        &'a Vec<u32>,
        ChooseError,
    >)
        requires
            params.wf(),
        ensures
            outcome(r) == fixed_choice(catalog@, params@),
    {
        let text = match params.get("band") {
            Some(t) => t,
            None => return Err(ChooseError::InvalidParameter),
        };
        let band = match parse_u32(text) {
            Some(b) => b,
            None => return Err(ChooseError::InvalidParameter),
        };
        match catalog.get(band) {
            Some(f) => Ok(f),
            None => Err(ChooseError::UnknownBand(band)),
        }
    }

    /// A decoded frame never moves this policy.
    pub fn on_update(&self, frame: &Value) -> (r: bool)
        ensures
            !r,
    {
        false
    }

    /// Idle time never moves this policy.
    pub fn on_timeout(&self) -> (r: bool)
        ensures
            !r,
    {
        false
    }
}

} // verus!
