//! The rotating policy: walks the catalog's bands in ascending order, backwards, or at random.
use vstd::prelude::*;
use vstd::arithmetic::div_mod::{lemma_fundamental_div_mod, lemma_fundamental_div_mod_converse, lemma_mod_bound, lemma_mod_pos_bound};
use rand::rngs::StdRng;
use serde_json::Value;
use crate::catalog::BandCatalog;
use crate::chooser::{outcome, ChooseError};
use crate::params::Params;
use crate::random::{draw_below, entropy_rng, seeded_rng};
use crate::text::{decimal_u32, parse_u32, same_text};

verus! {

/// The band that a rotation starts on when `start` is not given.
pub const DEFAULT_START: u32 = 13;

/// How a rotation moves from one band to the next.
#[derive(Debug, Clone, Copy, PartialEq, Eq, Structural)]
pub enum RotateKind {
    /// The next band up, wrapping from the highest to the lowest.
    Inc,
    /// The next band down, wrapping from the lowest to the highest.
    Dec,
    /// Any other band, drawn at random.
    Random,
}

/// The kind that the `type` parameter names: `dec`, `random`, and else `inc`.
pub open spec fn rotate_kind(p: Map<Seq<char>, Seq<char>>) -> RotateKind {
    if p.contains_key("type"@) && p["type"@] == "dec"@ {
        RotateKind::Dec
    } else if p.contains_key("type"@) && p["type"@] == "random"@ {
        RotateKind::Random
    } else {
        RotateKind::Inc
    }
}

/// The band to start on: `start` when given (`None` when it is not a number), else the default.
pub open spec fn start_band(p: Map<Seq<char>, Seq<char>>) -> Option<u32> {
    if p.contains_key("start"@) {
        decimal_u32(p["start"@])
    } else {
        Some(DEFAULT_START)
    }
}

/// The position after `i` among `n` bands. `draw` serves `Random` alone: a value below
/// `n - 1` that picks one of the other positions. A position left past the end by a
/// smaller catalog wraps as well.
pub open spec fn advanced_index(kind: RotateKind, i: int, n: int, draw: int) -> int {
    match kind {
        RotateKind::Inc => if i + 1 >= n { 0 } else { i + 1 },
        RotateKind::Dec => if i == 0 || i > n { n - 1 } else { i - 1 },
        RotateKind::Random => if draw >= i { draw + 1 } else { draw },
    }
}

/// Where `k` moves of `kind` (`Inc` or `Dec`) lead from position `i` among `n` bands.
pub open spec fn advanced_times(kind: RotateKind, i: int, n: int, k: nat) -> int
    decreases k,
{
    if k == 0 {
        i
    } else {
        advanced_index(kind, advanced_times(kind, i, n, (k - 1) as nat), n, 0)
    }
}

/// Rotating upwards from position `i` of `n` bands stands after `k` moves at `(i + k) mod n`:
/// the bands come in ascending order, wrapping from the highest to the lowest.
pub proof fn lemma_inc_position(i: int, n: int, k: nat)
    requires
        0 <= i < n,
    ensures
        advanced_times(RotateKind::Inc, i, n, k) == (i + k) % n,
    decreases k,
{
    if k > 0 {
        lemma_inc_position(i, n, (k - 1) as nat);
        let m = (i + k - 1) % n;
        let q = (i + k - 1) / n;
        lemma_fundamental_div_mod(i + k - 1, n);
        lemma_mod_pos_bound(i + k - 1, n);
        if m + 1 < n {
            lemma_fundamental_div_mod_converse(i + k, n, q, m + 1);
        } else {
            assert(i + k == (q + 1) * n + 0) by (nonlinear_arith)
                requires
                    i + k - 1 == n * q + m,
                    m + 1 == n,
            ;
            lemma_fundamental_div_mod_converse(i + k, n, q + 1, 0);
        }
    } else {
        lemma_fundamental_div_mod_converse(i, n, 0, i);
    }
}

/// Rotating upwards from position `i` of `n` bands visits each band exactly once in `n`
/// moves (`n` distinct positions below `n`), and the `n`th move is back at the start.
pub proof fn lemma_inc_visits_each_once(i: int, n: int)
    requires
        0 <= i < n,
    ensures
        forall|k1: nat, k2: nat|
            k1 < k2 < n ==> advanced_times(RotateKind::Inc, i, n, k1) != advanced_times(
                RotateKind::Inc,
                i,
                n,
                k2,
            ),
        forall|k: nat|
            0 <= #[trigger] advanced_times(RotateKind::Inc, i, n, k) < n,
        advanced_times(RotateKind::Inc, i, n, n as nat) == i,
{
    assert forall|k1: nat, k2: nat| k1 < k2 < n implies advanced_times(RotateKind::Inc, i, n, k1)
        != advanced_times(RotateKind::Inc, i, n, k2) by {
        lemma_inc_position(i, n, k1);
        lemma_inc_position(i, n, k2);
        lemma_fundamental_div_mod(i + k1, n);
        lemma_fundamental_div_mod(i + k2, n);
        let q1 = (i + k1) / n;
        let q2 = (i + k2) / n;
        if (i + k1) % n == (i + k2) % n {
            assert(k2 - k1 == n * (q2 - q1)) by (nonlinear_arith)
                requires
                    i + k1 == n * q1 + (i + k1) % n,
                    i + k2 == n * q2 + (i + k2) % n,
                    (i + k1) % n == (i + k2) % n,
            ;
            assert(false) by (nonlinear_arith)
                requires
                    k2 - k1 == n * (q2 - q1),
                    0 < k2 - k1 < n,
            ;
        }
    }
    assert forall|k: nat| 0 <= #[trigger] advanced_times(RotateKind::Inc, i, n, k) < n by {
        lemma_inc_position(i, n, k);
        lemma_fundamental_div_mod(i + k, n);
    }
    lemma_inc_position(i, n, n as nat);
    lemma_fundamental_div_mod_converse(i + n, n, 1, i);
}

/// Rotating downwards from position `i` of `n` bands stands after `k` moves at `(i - k) mod n`.
pub proof fn lemma_dec_position(i: int, n: int, k: nat)
    requires
        0 <= i < n,
    ensures
        advanced_times(RotateKind::Dec, i, n, k) == (i - k) % n,
    decreases k,
{
    if k > 0 {
        lemma_dec_position(i, n, (k - 1) as nat);
        let m = (i - k + 1) % n;
        let q = (i - k + 1) / n;
        lemma_fundamental_div_mod(i - k + 1, n);
        lemma_mod_bound(i - k + 1, n);
        if m >= 1 {
            lemma_fundamental_div_mod_converse(i - k, n, q, m - 1);
        } else {
            assert(i - k == (q - 1) * n + (n - 1)) by (nonlinear_arith)
                requires
                    i - k + 1 == n * q + m,
                    m == 0,
            ;
            lemma_fundamental_div_mod_converse(i - k, n, q - 1, n - 1);
        }
    } else {
        lemma_fundamental_div_mod_converse(i, n, 0, i);
    }
}

/// Rotating downwards is rotating upwards read backwards: `k` moves down from position `i`
/// of `n` bands stand where `n - k` moves up from `i` stand.
pub proof fn lemma_dec_reverses_inc(i: int, n: int, k: nat)
    requires
        0 <= i < n,
        k <= n,
    ensures
        advanced_times(RotateKind::Dec, i, n, k) == advanced_times(
            RotateKind::Inc,
            i,
            n,
            (n - k) as nat,
        ),
{
    lemma_dec_position(i, n, k);
    lemma_inc_position(i, n, (n - k) as nat);
    lemma_fundamental_div_mod(i - k, n);
    let q = (i - k) / n;
    let r = (i - k) % n;
    assert(i + (n - k) == (q + 1) * n + r) by (nonlinear_arith)
        requires
            i - k == n * q + r,
    ;
    lemma_fundamental_div_mod_converse(i + (n - k), n, q + 1, r);
}

/// The draw that leads a random move from position `i` to position `j`.
pub open spec fn draw_for(i: int, j: int) -> int {
    if j > i {
        j - 1
    } else {
        j
    }
}

/// A random move never stays: each draw below `n - 1` leads from position `i` to another
/// position, and each other position comes from exactly one draw.
pub proof fn lemma_random_moves_elsewhere(i: int, n: int)
    requires
        0 <= i < n,
        n >= 2,
    ensures
        forall|d: int|
            0 <= d < n - 1 ==> {
                let j = #[trigger] advanced_index(RotateKind::Random, i, n, d);
                0 <= j < n && j != i
            },
        forall|d1: int, d2: int|
            0 <= d1 < d2 < n - 1 ==> advanced_index(RotateKind::Random, i, n, d1)
                != advanced_index(RotateKind::Random, i, n, d2),
        forall|j: int|
            0 <= j < n && j != i ==> {
                let d = #[trigger] draw_for(i, j);
                0 <= d < n - 1 && advanced_index(RotateKind::Random, i, n, d) == j
            },
{
}

/// Two picks in a row of a random rotation over a catalog of at least two bands are
/// different bands.
pub proof fn lemma_random_picks_differ(
    i: usize,
    after: Option<usize>,
    catalog: &BandCatalog,
    p: Map<Seq<char>, Seq<char>>,
    r: Result<Seq<u32>, ChooseError>,
)
    requires
        catalog.wf(),
        rotate_kind(p) == RotateKind::Random,
        i < catalog.band_ids().len(),
        catalog.band_ids().len() >= 2,
        RotateChooserPlugin::chose(Some(i), after, catalog, p, r),
    ensures
        after matches Some(j) && j != i && catalog.band_ids()[j as int] != catalog.band_ids()[i as int],
        r == Ok::<Seq<u32>, ChooseError>(catalog@[catalog.band_ids()[after->Some_0 as int]]),
{
    catalog.lemma_band_ids();
    let n = catalog.band_ids().len() as int;
    lemma_random_moves_elsewhere(i as int, n);
    let j = after->Some_0;
    let d = choose|d: int| 0 <= d < n - 1 && j == advanced_index(RotateKind::Random, i as int, n, d);
    assert(j != i);
}

/// Moves position `i` among `n` bands as `kind` says.
pub fn advance_index(kind: RotateKind, i: usize, n: usize, draw: usize) -> (r: usize)
    requires
        n > 0,
        kind == RotateKind::Random ==> draw < n - 1,
    ensures
        r == advanced_index(kind, i as int, n as int, draw as int),
        r < n,
        kind == RotateKind::Random ==> r != i,
{
    match kind {
        RotateKind::Inc => if i >= n - 1 { 0 } else { i + 1 },
        RotateKind::Dec => if i == 0 || i > n { n - 1 } else { i - 1 },
        RotateKind::Random => if draw >= i { draw + 1 } else { draw },
    }
}

/// Reads the `type` parameter.
fn read_kind(params: &Params) -> (k: RotateKind)
    requires
        params.wf(),
    ensures
        k == rotate_kind(params@),
{
    match params.get("type") {
        Some(t) => if same_text(t, "dec") {
            RotateKind::Dec
        } else if same_text(t, "random") {
            RotateKind::Random
        } else {
            RotateKind::Inc
        },
        None => RotateKind::Inc,
    }
}

/// Moves to another band on every call.
pub struct RotateChooserPlugin {
    band_idx: Option<usize>,
    rng: StdRng,
}

impl RotateChooserPlugin {
    /// The position in the catalog's ascending order of the band last picked; `None` before
    /// the first pick.
    pub closed spec fn position(&self) -> Option<usize> {
        self.band_idx
    }

    /// A rotation that has not picked yet, drawing at random from a generator that the
    /// operating system seeds.
    pub fn new() -> (r: RotateChooserPlugin)
        ensures
            r.position() is None,
    {
        RotateChooserPlugin { band_idx: None, rng: entropy_rng() }
    }

    /// A rotation that has not picked yet, whose random draws follow from `seed`.
    pub fn with_seed(seed: u64) -> (r: RotateChooserPlugin)
        ensures
            r.position() is None,
    {
        RotateChooserPlugin { band_idx: None, rng: seeded_rng(seed) }
    }

    /// What a call of `choose_band` does, from `before` to `after`, with outcome `r`.
    pub open spec fn chose(
        before: Option<usize>,
        after: Option<usize>,
        catalog: &BandCatalog,
        p: Map<Seq<char>, Seq<char>>,
        r: Result<Seq<u32>, ChooseError>,
    ) -> bool {
        let ids = catalog.band_ids();
        let n = ids.len() as int;
        match before {
            None => match start_band(p) {
                None => r == Err::<Seq<u32>, ChooseError>(ChooseError::InvalidParameter) && after
                    is None,
                Some(s) => if catalog@.contains_key(s) {
                    &&& after matches Some(j) && j < n && ids[j as int] == s
                    &&& r == Ok::<Seq<u32>, ChooseError>(catalog@[s])
                } else {
                    r == Err::<Seq<u32>, ChooseError>(ChooseError::UnknownBand(s)) && after is None
                },
            },
            Some(i) => if rotate_kind(p) == RotateKind::Random && n < 2 {
                r == Err::<Seq<u32>, ChooseError>(ChooseError::InvalidParameter) && after == before
            } else {
                &&& after matches Some(j) && j < n
                &&& r == Ok::<Seq<u32>, ChooseError>(catalog@[ids[after->Some_0 as int]])
                &&& rotate_kind(p) != RotateKind::Random ==> after->Some_0 == advanced_index(
                    rotate_kind(p),
                    i as int,
                    n,
                    0,
                )
                &&& rotate_kind(p) == RotateKind::Random ==> exists|d: int|
                    0 <= d < n - 1 && after->Some_0 == advanced_index(RotateKind::Random, i as int, n, d)
            },
        }
    }

    /// Picks the next band. The first call finds the `start` band (13 when not given) in the
    /// catalog's ascending order; each later call moves from there as `type` says.
    pub fn choose_band<'a>(&mut self, catalog: &'a BandCatalog, params: &Params) -> (r: Result<
        &'a Vec<u32>,
        ChooseError,
    >)
        requires
            catalog.wf(),
            params.wf(),
        ensures
            Self::chose(old(self).position(), final(self).position(), catalog, params@, outcome(r)),
    {
        proof {
            catalog.lemma_band_ids();
        }
        let n = catalog.len();
        let kind = read_kind(params);
        let idx = match self.band_idx {
            None => {
                let start = match params.get("start") {
                    Some(t) => match parse_u32(t) {
                        Some(s) => s,
                        None => return Err(ChooseError::InvalidParameter),
                    },
                    None => DEFAULT_START,
                };
                let mut j: usize = 0;
                while j < n && catalog.id_at(j) != start
                    invariant
                        j <= n,
                        n == catalog.band_ids().len(),
                        catalog.wf(),
                        forall|k: int| 0 <= k < j ==> catalog.band_ids()[k] != start,
                    decreases n - j,
                {
                    j = j + 1;
                }
                if j == n {
                    assert(!catalog.band_ids().contains(start));
                    return Err(ChooseError::UnknownBand(start));
                }
                j
            },
            Some(i) => {
                if kind == RotateKind::Random {
                    if n < 2 {
                        return Err(ChooseError::InvalidParameter);
                    }
                    let d = draw_below(&mut self.rng, n - 1);
                    advance_index(kind, i, n, d)
                } else {
                    advance_index(kind, i, n, 0)
                }
            },
        };
        self.band_idx = Some(idx);
        let band = catalog.id_at(idx);
        assert(catalog.band_ids().contains(band));
        match catalog.get(band) {
            Some(f) => Ok(f),
            None => Err(ChooseError::UnknownBand(band)),
        }
    }

    /// A decoded frame never moves this policy.
    pub fn on_update(&self, frame: &Value) -> (r: bool)
        ensures
            !r,
    {
        false
    }

    /// Idle time always moves this policy to another band.
    pub fn on_timeout(&self) -> (r: bool)
        ensures
            r,
    {
        true
    }
}

} // verus!
