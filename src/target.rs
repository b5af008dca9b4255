//! The target policy: a random band that was not visited lately.
use vstd::prelude::*;
use rand::rngs::StdRng;
use serde_json::Value;
use crate::catalog::BandCatalog;
use crate::chooser::{lookup, outcome, ChooseError};
use crate::params::Params;
use crate::random::{entropy_rng, seeded_rng, shuffle};

verus! {

/// How many of the latest picks the target policy remembers.
pub const MAX_VISITED_ENTRIES: usize = 6;

/// The memory of picks after `band` is picked: the oldest one leaves when it is full.
pub open spec fn push_recent(visited: Seq<u32>, band: u32) -> Seq<u32> {
    if visited.len() >= MAX_VISITED_ENTRIES {
        visited.drop_first().push(band)
    } else {
        visited.push(band)
    }
}

/// The first band of `order` that `visited` does not hold, if any.
pub open spec fn first_unvisited(order: Seq<u32>, visited: Seq<u32>) -> Option<u32>
    decreases order.len(),
{
    if order.len() == 0 {
        None
    } else if !visited.contains(order[0]) {
        Some(order[0])
    } else {
        first_unvisited(order.drop_first(), visited)
    }
}

/// The band picked from a shuffled `order`: the first one not visited lately, or the first
/// of all where every band was.
pub open spec fn pick_from(order: Seq<u32>, visited: Seq<u32>) -> u32 {
    match first_unvisited(order, visited) {
        Some(b) => b,
        None => order[0],
    }
}

proof fn lemma_first_unvisited(order: Seq<u32>, visited: Seq<u32>)
    ensures
        match first_unvisited(order, visited) {
            Some(b) => order.contains(b) && !visited.contains(b),
            None => forall|i: int| 0 <= i < order.len() ==> visited.contains(#[trigger] order[i]),
        },
    decreases order.len(),
{
    if order.len() > 0 {
        lemma_first_unvisited(order.drop_first(), visited);
        if visited.contains(order[0]) {
            match first_unvisited(order.drop_first(), visited) {
                Some(b) => {
                    let k = choose|k: int| 0 <= k < order.len() - 1 && order.drop_first()[k] == b;
                    assert(order[k + 1] == b);
                },
                None => {
                    assert forall|i: int| 0 <= i < order.len() implies visited.contains(
                        #[trigger] order[i],
                    ) by {
                        if i > 0 {
                            assert(order[i] == order.drop_first()[i - 1]);
                        }
                    }
                },
            }
        } else {
            assert(order.contains(order[0]));
        }
    }
}

/// The memory of picks after the picks `history`, oldest first, starting from none.
pub open spec fn recent_after(history: Seq<u32>) -> Seq<u32>
    decreases history.len(),
{
    if history.len() == 0 {
        Seq::empty()
    } else {
        push_recent(recent_after(history.drop_last()), history.last())
    }
}

/// The memory never holds more than six picks, and holds exactly the latest six picks (all
/// of them while there are fewer), oldest first.
pub proof fn lemma_recent_is_latest_six(history: Seq<u32>)
    ensures
        recent_after(history).len() <= MAX_VISITED_ENTRIES,
        recent_after(history) == history.skip(
            if history.len() > MAX_VISITED_ENTRIES {
                history.len() - MAX_VISITED_ENTRIES
            } else {
                0
            },
        ),
    decreases history.len(),
{
    if history.len() == 0 {
        assert(history.skip(0) =~= Seq::<u32>::empty());
    } else {
        let prev = history.drop_last();
        lemma_recent_is_latest_six(prev);
        let cut = if prev.len() > MAX_VISITED_ENTRIES {
            prev.len() - MAX_VISITED_ENTRIES
        } else {
            0
        };
        if prev.len() >= MAX_VISITED_ENTRIES {
            assert(prev.skip(cut).drop_first().push(history.last()) =~= history.skip(
                history.len() - MAX_VISITED_ENTRIES,
            ));
        } else {
            assert(prev.skip(cut).push(history.last()) =~= history.skip(0));
        }
    }
}

/// Whether `v` holds `x`.
fn holds(v: &Vec<u32>, x: u32) -> (r: bool)
    ensures
        r == v@.contains(x),
{
    let mut i: usize = 0;
    while i < v.len()
        invariant
            i <= v.len(),
            forall|j: int| 0 <= j < i ==> v@[j] != x,
        decreases v.len() - i,
    {
        if v[i] == x {
            assert(v@[i as int] == x);
            return true;
        }
        i = i + 1;
    }
    false
}

/// Picks from a shuffled `order` the first band that `visited` does not hold; where it holds
/// them all, the first band of `order`.
pub fn pick_unvisited(order: &Vec<u32>, visited: &Vec<u32>) -> (b: u32)
    requires
        order.len() > 0,
    ensures
        b == pick_from(order@, visited@),
{
    let mut i: usize = 0;
    assert(order@.skip(0) =~= order@);
    while i < order.len()
        invariant
            i <= order.len(),
            order.len() > 0,
            first_unvisited(order@, visited@) == first_unvisited(order@.skip(i as int), visited@),
        decreases order.len() - i,
    {
        assert(order@.skip(i as int).drop_first() =~= order@.skip(i + 1));
        if !holds(visited, order[i]) {
            return order[i];
        }
        i = i + 1;
    }
    assert(order@.skip(i as int).len() == 0);
    order[0]
}

/// Picks a band at random, avoiding the bands of its six latest picks while others remain.
pub struct TargetChooserPlugin {
    recently_visited: Vec<u32>,
    target: Option<String>,
    next_band: Option<u32>,
    rng: StdRng,
}

impl TargetChooserPlugin {
    /// The latest picks, oldest first.
    pub closed spec fn visited(&self) -> Seq<u32> {
        self.recently_visited@
    }

    /// The label of what the policy looks for, once it is set.
    pub closed spec fn target(&self) -> Option<Seq<char>> {
        match self.target {
            Some(t) => Some(t@),
            None => None,
        }
    }

    /// A band set aside for the next pick.
    pub closed spec fn staged(&self) -> Option<u32> {
        self.next_band
    }

    /// Well formed: at most six picks remembered.
    pub open spec fn wf(&self) -> bool {
        self.visited().len() <= MAX_VISITED_ENTRIES
    }

    /// A policy with nothing visited, no target and nothing staged, drawing from a generator
    /// that the operating system seeds.
    pub fn new() -> (r: TargetChooserPlugin)
        ensures
            r.wf(),
            r.visited() == Seq::<u32>::empty(),
            r.target() is None,
            r.staged() is None,
    {
        TargetChooserPlugin {
            recently_visited: Vec::new(),
            target: None,
            next_band: None,
            rng: entropy_rng(),
        }
    }

    /// As `new`, with random draws that follow from `seed`.
    pub fn with_seed(seed: u64) -> (r: TargetChooserPlugin)
        ensures
            r.wf(),
            r.visited() == Seq::<u32>::empty(),
            r.target() is None,
            r.staged() is None,
    {
        TargetChooserPlugin {
            recently_visited: Vec::new(),
            target: None,
            next_band: None,
            rng: seeded_rng(seed),
        }
    }

    /// What a call of `choose_band` does, from `before` to `after`, with outcome `r`.
    pub open spec fn chose(
        before: &TargetChooserPlugin,
        after: &TargetChooserPlugin,
        catalog: &BandCatalog,
        p: Map<Seq<char>, Seq<char>>,
        r: Result<Seq<u32>, ChooseError>,
    ) -> bool {
        if before.target() is None && !p.contains_key("target"@) {
            &&& r == Err::<Seq<u32>, ChooseError>(ChooseError::InvalidParameter)
            &&& after.visited() == before.visited()
            &&& after.target() is None
            &&& after.staged() == before.staged()
        } else {
            exists|b: u32|
                {
                    &&& r == lookup(catalog@, b)
                    &&& after.visited() == push_recent(before.visited(), b)
                    &&& after.target() == if before.target() is Some {
                        before.target()
                    } else {
                        Some(p["target"@])
                    }
                    &&& after.staged() is None
                    &&& match before.staged() {
                        Some(s) => b == s,
                        None => {
                            &&& catalog@.contains_key(b)
                            &&& (exists|c: u32| catalog@.contains_key(c) && !before.visited().contains(c))
                                ==> !before.visited().contains(b)
                        },
                    }
                }
        }
    }

    /// Picks the staged band if there is one; else shuffles the catalog's bands and takes
    /// the first that none of the six latest picks holds (the first of all where each one
    /// does). The pick joins the latest picks. The first call needs `target`.
    pub fn choose_band<'a>(&mut self, catalog: &'a BandCatalog, params: &Params) -> (r: Result<
        &'a Vec<u32>,
        ChooseError,
    >)
        requires
            old(self).wf(),
            catalog.wf(),
            params.wf(),
        ensures
            final(self).wf(),
            Self::chose(old(self), final(self), catalog, params@, outcome(r)),
    {
        proof {
            catalog.lemma_band_ids();
        }
        if self.target.is_none() {
            match params.get("target") {
                Some(t) => {
                    self.target = Some(t.to_owned());
                },
                None => return Err(ChooseError::InvalidParameter),
            }
        }
        let band = match self.next_band {
            Some(s) => {
                self.next_band = None;
                s
            },
            None => {
                let mut order = catalog.ids();
                shuffle(&mut self.rng, &mut order);
                proof {
                    broadcast use vstd::seq_lib::group_to_multiset_ensures;
                    assert(order@.len() > 0);
                    lemma_first_unvisited(order@, self.recently_visited@);
                    assert forall|c: u32| #[trigger] catalog@.contains_key(c) implies order@.contains(c) by {
                        assert(catalog.band_ids().contains(c));
                        assert(catalog.band_ids().to_multiset().count(c) > 0);
                        assert(order@.to_multiset().count(c) > 0);
                    }
                    assert(order@.to_multiset().count(order@[0]) > 0);
                    assert(catalog.band_ids().to_multiset().count(order@[0]) > 0);
                    assert(catalog.band_ids().contains(order@[0]));
                    match first_unvisited(order@, self.recently_visited@) {
                        Some(b) => {
                            assert(order@.to_multiset().count(b) > 0);
                            assert(catalog.band_ids().to_multiset().count(b) > 0);
                            assert(catalog.band_ids().contains(b));
                        },
                        None => {
                            assert forall|c: u32| catalog@.contains_key(c) implies self.recently_visited@.contains(c) by {
                                assert(order@.contains(c));
                            }
                        },
                    }
                }
                pick_unvisited(&order, &self.recently_visited)
            },
        };
        let ghost before = self.recently_visited@;
        if self.recently_visited.len() >= MAX_VISITED_ENTRIES {
            self.recently_visited.remove(0);
            assert(self.recently_visited@ =~= before.drop_first());
        }
        self.recently_visited.push(band);
        assert(self.visited() =~= push_recent(before, band));
        let r = match catalog.get(band) {
            Some(f) => Ok(f),
            None => Err(ChooseError::UnknownBand(band)),
        };
        assert(outcome(r) == lookup(catalog@, band));
        r
    }

    /// Reading a decoded frame never forces a switch by itself.
    pub fn on_update(&self, frame: &Value) -> (r: bool)
        ensures
            !r,
    {
        false
    }

    /// Idle time always moves this policy to another band.
    pub fn on_timeout(&self) -> (r: bool)
        ensures
            r,
    {
        true
    }
}

/// A pick repeats one of the latest six picks only where every band of the catalog is among
/// them; the pick is then the newest of the latest picks.
pub proof fn lemma_repeat_only_when_exhausted(
    before: &TargetChooserPlugin,
    after: &TargetChooserPlugin,
    catalog: &BandCatalog,
    p: Map<Seq<char>, Seq<char>>,
    r: Result<Seq<u32>, ChooseError>,
)
    requires
        before.staged() is None,
        before.target() is Some || p.contains_key("target"@),
        TargetChooserPlugin::chose(before, after, catalog, p, r),
    ensures
        after.visited().len() > 0,
        catalog@.contains_key(after.visited().last()),
        r == lookup(catalog@, after.visited().last()),
        before.visited().contains(after.visited().last()) ==> forall|c: u32|
            #[trigger] catalog@.contains_key(c) ==> before.visited().contains(c),
{
    let b = choose|b: u32|
        {
            &&& r == lookup(catalog@, b)
            &&& after.visited() == push_recent(before.visited(), b)
            &&& after.target() == if before.target() is Some {
                before.target()
            } else {
                Some(p["target"@])
            }
            &&& after.staged() is None
            &&& match before.staged() {
                Some(s) => b == s,
                None => {
                    &&& catalog@.contains_key(b)
                    &&& (exists|c: u32| catalog@.contains_key(c) && !before.visited().contains(c))
                        ==> !before.visited().contains(b)
                },
            }
        };
    assert(after.visited().last() == b);
}

} // verus!
