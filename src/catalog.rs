//! The band catalog: which frequencies make up each band.
use std::collections::HashMap;
use vstd::prelude::*;
use vstd::std_specs::hash::spec_keys_iter;
use vstd::std_specs::iter::IteratorSpec;

verus! {

broadcast use vstd::std_specs::hash::group_hash_axioms;

/// Whether a sequence of band identifiers is strictly ascending.
pub open spec fn ascending(s: Seq<u32>) -> bool {
    forall|i: int, j: int| 0 <= i < j < s.len() ==> s[i] < s[j]
}

/// An unchanging map from band identifier to the frequencies (Hz) of that band,
/// with at least one band.
pub struct BandCatalog {
    bands: HashMap<u32, Vec<u32>>,
    ids: Vec<u32>,
}

impl View for BandCatalog {
    type V = Map<u32, Seq<u32>>;

    closed spec fn view(&self) -> Map<u32, Seq<u32>> {
        Map::new(|k: u32| self.bands@.contains_key(k), |k: u32| self.bands@[k]@)
    }
}

/// What a `HashMap` of bands holds, with each list seen as a sequence.
pub open spec fn bands_view(m: Map<u32, Vec<u32>>) -> Map<u32, Seq<u32>> {
    Map::new(|k: u32| m.contains_key(k), |k: u32| m[k]@)
}

impl BandCatalog {
    /// Well formed: `ids` lists the keys of `bands` once each, in ascending order.
    pub closed spec fn wf(&self) -> bool {
        &&& ascending(self.ids@)
        &&& self.ids@.len() > 0
        &&& forall|k: u32| self.bands@.contains_key(k) <==> self.ids@.contains(k)
    }

    /// The catalog's band identifiers in ascending order.
    pub closed spec fn band_ids(&self) -> Seq<u32> {
        self.ids@
    }

    /// `band_ids` lists each band of the catalog once, in ascending order.
    pub proof fn lemma_band_ids(&self)
        requires
            self.wf(),
        ensures
            ascending(self.band_ids()),
            self.band_ids().len() > 0,
            forall|k: u32| self@.contains_key(k) <==> self.band_ids().contains(k),
    {
    }

    /// A catalog of `bands`; `None` when `bands` is empty.
    pub fn new(bands: HashMap<u32, Vec<u32>>) -> (r: Option<BandCatalog>)
        ensures
            r is Some <==> bands@.len() > 0,
            r matches Some(c) ==> c.wf() && c@ == bands_view(bands@),
    {
        let mut ids: Vec<u32> = Vec::new();
        let ghost keys = spec_keys_iter(&bands).remaining();
        let ghost mut count: int = 0;
        for k in it: bands.keys()
            invariant
                it.seq() == keys,
                count == it.index(),
                ascending(ids@),
                forall|x: u32|
                    ids@.contains(x) <==> exists|j: int| 0 <= j < it.index() && *it.seq()[j] == x,
        {
            let key = *k;
            assert(key == *it.seq()[it.index()]);
            let mut pos: usize = 0;
            while pos < ids.len() && ids[pos] < key
                invariant
                    pos <= ids.len(),
                    forall|j: int| 0 <= j < pos ==> ids@[j] < key,
                decreases ids.len() - pos,
            {
                pos = pos + 1;
            }
            let ghost before = ids@;
            let ghost seen = it.index();
            if pos < ids.len() && ids[pos] == key {
                assert(exists|j: int| 0 <= j < seen + 1 && *it.seq()[j] == key);
            } else {
                ids.insert(pos, key);
                proof {
                    assert(forall|j: int| pos <= j < before.len() ==> before[j] > key);
                    assert forall|x: u32| ids@.contains(x) implies before.contains(x) || x == key by {
                        let j = choose|j: int| 0 <= j < ids@.len() && ids@[j] == x;
                        if j < pos {
                            assert(before[j] == x);
                        } else if j > pos {
                            assert(before[j - 1] == x);
                        }
                    }
                    assert forall|x: u32| before.contains(x) implies ids@.contains(x) by {
                        let j = choose|j: int| 0 <= j < before.len() && before[j] == x;
                        if j < pos {
                            assert(ids@[j] == x);
                        } else {
                            assert(ids@[j + 1] == x);
                        }
                    }
                    assert(ids@[pos as int] == key);
                }
            }
            proof {
                assert forall|x: u32|
                    exists|j: int| 0 <= j < seen + 1 && *it.seq()[j] == x implies ids@.contains(x) by {
                    let j = choose|j: int| 0 <= j < seen + 1 && *it.seq()[j] == x;
                    if j < seen {
                        assert(before.contains(x));
                    } else {
                        assert(ids@[pos as int] == key);
                    }
                }
                assert forall|x: u32|
                    ids@.contains(x) implies exists|j: int| 0 <= j < seen + 1 && *it.seq()[j] == x by {
                    if x != key {
                        assert(before.contains(x));
                        let j = choose|j: int| 0 <= j < seen && *it.seq()[j] == x;
                        assert(0 <= j < seen + 1 && *it.seq()[j] == x);
                    } else {
                        assert(*it.seq()[seen] == x);
                    }
                }
                count = count + 1;
            }
        }
        proof {
            assert(count == keys.len());
            assert forall|x: u32| bands@.contains_key(x) implies ids@.contains(x) by {
                assert(keys.unref().to_set().contains(x));
                let j = choose|j: int| 0 <= j < keys.len() && keys.unref()[j] == x;
                assert(*keys[j] == x);
            }
            assert forall|x: u32| ids@.contains(x) implies bands@.contains_key(x) by {
                let j = choose|j: int| 0 <= j < count && *keys[j] == x;
                assert(keys.unref()[j] == x);
                assert(keys.unref().to_set().contains(x));
            }
        }
        proof {
            broadcast use vstd::set::axiom_set_empty_len;
            vstd::set_lib::lemma_set_empty_equivalency_len(bands@.dom());
        }
        if ids.len() == 0 {
            assert forall|x: u32| !bands@.dom().contains(x) by {
                if bands@.dom().contains(x) {
                    assert(ids@.contains(x));
                }
            }
            assert(bands@.dom() =~= Set::<u32>::empty());
            return None;
        }
        proof {
            assert(ids@.contains(ids@[0]));
            vstd::set::axiom_set_contains_len(bands@.dom(), ids@[0]);
        }
        let c = BandCatalog { bands, ids };
        Some(c)
    }

    /// The frequencies of `band`, if the catalog has it.
    pub fn get(&self, band: u32) -> (r: Option<&Vec<u32>>)
        ensures
            match r {
                Some(f) => self@.contains_key(band) && f@ == self@[band],
                None => !self@.contains_key(band),
            },
    {
        self.bands.get(&band)
    }

    /// How many bands the catalog has.
    pub fn len(&self) -> (n: usize)
        requires
            self.wf(),
        ensures
            n == self.band_ids().len(),
            n > 0,
    {
        self.ids.len()
    }

    /// The band identifier at position `i` of the ascending order.
    pub fn id_at(&self, i: usize) -> (b: u32)
        requires
            self.wf(),
            i < self.band_ids().len(),
        ensures
            b == self.band_ids()[i as int],
    {
        self.ids[i]
    }

    /// The band identifiers, in ascending order.
    pub fn ids(&self) -> (r: Vec<u32>)
        requires
            self.wf(),
        ensures
            r@ == self.band_ids(),
    {
        let mut r: Vec<u32> = Vec::new();
        let mut i: usize = 0;
        while i < self.ids.len()
            invariant
                i <= self.ids.len(),
                r@ == self.ids@.take(i as int),
            decreases self.ids.len() - i,
        {
            r.push(self.ids[i]);
            i = i + 1;
            assert(r@ =~= self.ids@.take(i as int));
        }
        assert(self.ids@.take(i as int) =~= self.ids@);
        r
    }
}

} // verus!
