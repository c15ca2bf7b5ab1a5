use vstd::prelude::*;

use crate::raster::Raster;

verus! {

/// Steps `offset` entries from `current_index` around a catalog of `len`
/// entries, wrapping at both ends, so the catalog behaves as a ring. Any
/// starting index and any offset are taken modulo the length first, so the
/// result is always in range; an empty catalog maps everything to index zero.
pub fn wrap_index(current_index: usize, offset: isize, len: usize) -> (r: usize)
    ensures
        len == 0 ==> r == 0,
        len > 0 ==> r < len && r as int == (current_index + offset) % (len as int),
{
    if len == 0 {
        return 0;
    }
    let ghost n = len as int;
    let c = current_index % len;
    if offset >= 0 {
        let o = ((offset as u128) % (len as u128)) as usize;
        proof {
            vstd::arithmetic::div_mod::lemma_add_mod_noop(
                current_index as int,
                offset as int,
                n,
            );
            if o < len - c {
                vstd::arithmetic::div_mod::lemma_fundamental_div_mod_converse_mod(
                    c + o,
                    n,
                    0,
                    c + o,
                );
            } else {
                vstd::arithmetic::div_mod::lemma_fundamental_div_mod_converse_mod(
                    c + o,
                    n,
                    1,
                    c + o - len,
                );
            }
            vstd::arithmetic::div_mod::lemma_mod_twice(current_index as int, n);
            vstd::arithmetic::div_mod::lemma_mod_twice(offset as int, n);
            vstd::arithmetic::div_mod::lemma_add_mod_noop(c as int, o as int, n);
        }
        if o < len - c {
            c + o
        } else {
            o - (len - c)
        }
    } else {
        let a = (-(offset as i128)) as u128;
        let o = (a % (len as u128)) as usize;
        proof {
            vstd::arithmetic::div_mod::lemma_sub_mod_noop(current_index as int, a as int, n);
            if o <= c {
                vstd::arithmetic::div_mod::lemma_fundamental_div_mod_converse_mod(
                    c - o,
                    n,
                    0,
                    c - o,
                );
            } else {
                vstd::arithmetic::div_mod::lemma_fundamental_div_mod_converse_mod(
                    c - o,
                    n,
                    -1,
                    c - o + len,
                );
            }
            vstd::arithmetic::div_mod::lemma_mod_twice(current_index as int, n);
            vstd::arithmetic::div_mod::lemma_mod_twice(a as int, n);
            vstd::arithmetic::div_mod::lemma_sub_mod_noop(c as int, o as int, n);
        }
        if o <= c {
            c - o
        } else {
            c + (len - o)
        }
    }
}

/// Stepping `k` entries forward and then `k` entries back (or the other way
/// around) returns to the same catalog entry, for any step size: the ring
/// navigation round trip is the identity.
pub proof fn lemma_wrap_round_trip(i: int, k: int, n: int)
    requires
        0 <= i < n,
    ensures
        ((i + k) % n - k) % n == i,
        ((i - k) % n + k) % n == i,
{
    vstd::arithmetic::div_mod::lemma_sub_mod_noop_right((i + k) % n, k, n);
    vstd::arithmetic::div_mod::lemma_sub_mod_noop(i + k, k, n);
    vstd::arithmetic::div_mod::lemma_mod_twice(i + k, n);
    vstd::arithmetic::div_mod::lemma_small_mod(i as nat, n as nat);
    vstd::arithmetic::div_mod::lemma_add_mod_noop_right((i - k) % n, k, n);
    vstd::arithmetic::div_mod::lemma_add_mod_noop(i - k, k, n);
    vstd::arithmetic::div_mod::lemma_mod_twice(i - k, n);
}

/// The circular distance between two indices over a catalog of length `n`:
/// the smaller of the forward and the backward step count.
pub open spec fn spec_circular_distance(a: int, b: int, n: int) -> int {
    let d = if a >= b {
        a - b
    } else {
        b - a
    };
    if d <= n - d {
        d
    } else {
        n - d
    }
}

/// An index is inside the active window iff its circular distance to the
/// window's center is at most the radius.
pub open spec fn in_window(center: int, i: int, n: int, radius: int) -> bool {
    spec_circular_distance(center, i, n) <= radius
}

/// The catalog entry `o` steps from `center`, wrapping around both ends.
pub open spec fn wrapped_neighbor(center: int, o: int, n: int) -> int {
    (center + o) % n
}

/// The window around a center is exactly its wraparound neighborhood: an
/// index of the catalog is within circular distance `radius` of the center
/// iff it is reached from the center by some step of at most `radius` in
/// either direction, modulo the catalog length.
pub proof fn lemma_window_is_wraparound_neighborhood(center: int, i: int, n: int, radius: int)
    requires
        0 <= center < n,
        0 <= i < n,
        0 <= radius,
    ensures
        in_window(center, i, n, radius) <==> exists|o: int|
            -radius <= o <= radius && i == wrapped_neighbor(center, o, n),
{
    if in_window(center, i, n, radius) {
        let diff = if center >= i {
            center - i
        } else {
            i - center
        };
        let d = spec_circular_distance(center, i, n);
        if d == diff {
            let o = i - center;
            vstd::arithmetic::div_mod::lemma_small_mod(i as nat, n as nat);
            assert(-radius <= o <= radius && i == wrapped_neighbor(center, o, n));
        } else {
            if center >= i {
                let o = i - center + n;
                vstd::arithmetic::div_mod::lemma_mod_add_multiples_vanish(i, n);
                vstd::arithmetic::div_mod::lemma_small_mod(i as nat, n as nat);
                assert(-radius <= o <= radius && i == wrapped_neighbor(center, o, n));
            } else {
                let o = i - center - n;
                vstd::arithmetic::div_mod::lemma_mod_sub_multiples_vanish(i, n);
                vstd::arithmetic::div_mod::lemma_small_mod(i as nat, n as nat);
                assert(-radius <= o <= radius && i == wrapped_neighbor(center, o, n));
            }
        }
    }
    if exists|o: int| -radius <= o <= radius && i == wrapped_neighbor(center, o, n) {
        let o = choose|o: int| -radius <= o <= radius && i == wrapped_neighbor(center, o, n);
        let d = spec_circular_distance(center, i, n);
        let abs_o = if o >= 0 {
            o
        } else {
            -o
        };
        if 2 * abs_o >= n {
            // The distance never exceeds half the ring.
            assert(2 * d <= n);
            assert(d <= abs_o <= radius);
        } else {
            vstd::arithmetic::div_mod::lemma_fundamental_div_mod(center + o, n);
            let q = (center + o) / n;
            assert(n * q == center + o - i);
            assert(-2 * n < n * q < 2 * n);
            assert(-1 <= q <= 1) by (nonlinear_arith)
                requires
                    n > 0,
                    -2 * n < n * q < 2 * n,
            ;
            if q == 0 {
                assert(n * q == 0) by (nonlinear_arith)
                    requires
                        q == 0,
                ;
                assert(d <= abs_o);
            } else if q == 1 {
                assert(n * q == n) by (nonlinear_arith)
                    requires
                        q == 1,
                ;
                assert(i == center + o - n);
                assert(d <= abs_o);
            } else {
                assert(n * q == -n) by (nonlinear_arith)
                    requires
                        q == -1,
                ;
                assert(i == center + o + n);
                assert(d <= abs_o);
            }
            assert(d <= radius);
        }
    }
}

/// Computes the circular distance between two catalog indices.
pub fn circular_distance(a: usize, b: usize, n: usize) -> (d: usize)
    requires
        a < n,
        b < n,
    ensures
        d == spec_circular_distance(a as int, b as int, n as int),
{
    let diff = if a >= b {
        a - b
    } else {
        b - a
    };
    if diff <= n - diff {
        diff
    } else {
        n - diff
    }
}

/// A fixed-radius ring cache for single-image navigation: full-resolution
/// rasters for the current catalog index and its `half_cache_size` neighbors
/// on either side, treating the catalog as a ring. Next/prev navigation moves
/// the index with wraparound; loading is done by the caller between a request
/// and the matching `insert`.
pub struct ImageRingCache {
    pub paths: Vec<String>,
    pub entries: Vec<Option<Raster>>,
    pub paths_index: usize,
    pub half_cache_size: usize,
}

impl ImageRingCache {
    /// One cache slot per catalog entry, cached rasters well formed, and the
    /// current index in range.
    pub open spec fn wf(&self) -> bool {
        &&& self.entries@.len() == self.paths@.len()
        &&& forall|i: int|
            0 <= i < self.paths@.len() ==> (#[trigger] self.entries@[i] matches Some(r) ==> r.wf())
        &&& (self.paths@.len() > 0 ==> self.paths_index < self.paths@.len())
    }

    pub open spec fn len(&self) -> int {
        self.paths@.len() as int
    }

    /// An index the ring cache keeps resident: within `half_cache_size` of
    /// the current index in circular distance.
    pub open spec fn resident(&self, i: int) -> bool {
        in_window(self.paths_index as int, i, self.len(), self.half_cache_size as int)
    }

    /// A fresh ring cache centered on `start_index`, with every slot empty,
    /// together with the ascending list of window indices to load first.
    pub fn new(paths: Vec<String>, half_cache_size: usize, start_index: usize) -> (out: (
        ImageRingCache,
        Vec<usize>,
    ))
        requires
            paths@.len() == 0 || start_index < paths@.len(),
        ensures
            out.0.wf(),
            out.0.paths@ == paths@,
            out.0.paths_index == start_index || (paths@.len() == 0 && out.0.paths_index == 0),
            out.0.half_cache_size == half_cache_size,
            forall|i: int| 0 <= i < out.0.len() ==> out.0.entries@[i] is None,
            forall|k: int|
                0 <= k < out.1@.len() ==> (#[trigger] out.1@[k]) < out.0.len() && out.0.resident(
                    out.1@[k] as int,
                ),
            forall|i: int|
                0 <= i < out.0.len() && out.0.resident(i) ==> exists|k: int|
                    0 <= k < out.1@.len() && (#[trigger] out.1@[k]) == i,
            forall|k1: int, k2: int| 0 <= k1 < k2 < out.1@.len() ==> out.1@[k1] < out.1@[k2],
    {
        let n = paths.len();
        let start = if n == 0 {
            0
        } else {
            start_index
        };
        let mut entries: Vec<Option<Raster>> = Vec::new();
        let mut i: usize = 0;
        while i < n
            invariant
                i <= n,
                entries@.len() == i,
                forall|j: int| 0 <= j < i ==> entries@[j] is None,
            decreases n - i,
        {
            entries.push(None);
            i = i + 1;
        }
        let cache = ImageRingCache { paths, entries, paths_index: start, half_cache_size };
        let jobs = cache.window_misses(usize::MAX);
        let out_pair = (cache, jobs);
        proof {
            assert forall|i: int|
                0 <= i < out_pair.0.len() && out_pair.0.resident(i) implies exists|k: int|
                0 <= k < out_pair.1@.len() && (#[trigger] out_pair.1@[k]) == i by {
                assert(out_pair.0.entries@[i] is None);
                assert(i < n <= usize::MAX);
                let k = choose|k: int|
                    0 <= k < out_pair.1@.len() && (#[trigger] out_pair.1@[k]) == i;
                assert(0 <= k < out_pair.1@.len() && out_pair.1@[k] == i);
            }
        }
        out_pair
    }

    /// The ascending list of in-window indices whose slot is empty, leaving
    /// out `skip` (pass an out-of-range value to leave nothing out).
    fn window_misses(&self, skip: usize) -> (jobs: Vec<usize>)
        requires
            self.wf(),
        ensures
            forall|k: int|
                0 <= k < jobs@.len() ==> (#[trigger] jobs@[k]) < self.len() && self.resident(
                    jobs@[k] as int,
                ) && self.entries@[jobs@[k] as int] is None && jobs@[k] != skip,
            forall|i: int|
                0 <= i < self.len() && self.resident(i) && self.entries@[i] is None && i != skip
                    ==> exists|k: int| 0 <= k < jobs@.len() && (#[trigger] jobs@[k]) == i,
            forall|k1: int, k2: int| 0 <= k1 < k2 < jobs@.len() ==> jobs@[k1] < jobs@[k2],
    {
        let mut jobs: Vec<usize> = Vec::new();
        let n = self.paths.len();
        if n == 0 {
            return jobs;
        }
        let mut i: usize = 0;
        while i < n
            invariant
                self.wf(),
                n == self.len(),
                n > 0,
                i <= n,
                forall|k: int|
                    0 <= k < jobs@.len() ==> (#[trigger] jobs@[k]) < i && self.resident(
                        jobs@[k] as int,
                    ) && self.entries@[jobs@[k] as int] is None && jobs@[k] != skip,
                forall|ii: int|
                    0 <= ii < i && self.resident(ii) && self.entries@[ii] is None && ii != skip
                        ==> exists|k: int| 0 <= k < jobs@.len() && (#[trigger] jobs@[k]) == ii,
                forall|k1: int, k2: int| 0 <= k1 < k2 < jobs@.len() ==> jobs@[k1] < jobs@[k2],
            decreases n - i,
        {
            let ghost jobs0 = jobs@;
            let d = circular_distance(self.paths_index, i, n);
            if d <= self.half_cache_size && i != skip {
                if self.entries[i].is_none() {
                    jobs.push(i);
                }
            }
            proof {
                assert forall|ii: int|
                    0 <= ii < i + 1 && self.resident(ii) && self.entries@[ii] is None && ii != skip implies exists|k: int|
                    0 <= k < jobs@.len() && (#[trigger] jobs@[k]) == ii by {
                    if ii == i {
                        assert(jobs@[jobs@.len() - 1] == ii);
                    } else {
                        let k = choose|k: int| 0 <= k < jobs0.len() && (#[trigger] jobs0[k]) == ii;
                        assert(jobs@[k] == ii);
                    }
                }
            }
            i = i + 1;
        }
        jobs
    }

    /// Commits a loaded raster under its index and prunes the cache to the
    /// window: every slot beyond `half_cache_size` of the current index is
    /// emptied, the new entry included if it is already out of the window.
    pub fn insert(&mut self, index: usize, raster: Raster)
        requires
            old(self).wf(),
            raster.wf(),
            index < old(self).len(),
        ensures
            final(self).wf(),
            final(self).paths@ == old(self).paths@,
            final(self).paths_index == old(self).paths_index,
            final(self).half_cache_size == old(self).half_cache_size,
            forall|i: int|
                0 <= i < final(self).len() ==> final(self).entries@[i] == (if !old(self).resident(i) {
                    None
                } else if i == index {
                    Some(raster)
                } else {
                    old(self).entries@[i]
                }),
    {
        let n = self.paths.len();
        self.entries[index] = Some(raster);
        let mut i: usize = 0;
        while i < n
            invariant
                n == self.len(),
                n > 0,
                self.wf(),
                self.paths@ == old(self).paths@,
                self.paths_index == old(self).paths_index,
                self.half_cache_size == old(self).half_cache_size,
                i <= n,
                index < n,
                forall|j: int|
                    0 <= j < i ==> self.entries@[j] == (if !old(self).resident(j) {
                        None
                    } else if j == index {
                        Some(raster)
                    } else {
                        old(self).entries@[j]
                    }),
                forall|j: int|
                    i <= j < n ==> self.entries@[j] == (if j == index {
                        Some(raster)
                    } else {
                        old(self).entries@[j]
                    }),
            decreases n - i,
        {
            let d = circular_distance(self.paths_index, i, n);
            if d > self.half_cache_size {
                self.entries[i] = None;
            }
            i = i + 1;
        }
    }

    /// Steps to the next catalog entry with wraparound. Returns the new
    /// index, the cached raster for it if the cache holds one (the caller
    /// must load it synchronously and `insert` it otherwise), and the
    /// ascending list of other window indices to preload in the background.
    pub fn get_next(&mut self) -> (r: (usize, Option<Raster>, Vec<usize>))
        requires
            old(self).wf(),
            old(self).len() > 0,
        ensures
            final(self).wf(),
            final(self).paths@ == old(self).paths@,
            final(self).entries@ == old(self).entries@,
            final(self).half_cache_size == old(self).half_cache_size,
            r.0 < old(self).len() && r.0 as int == (old(self).paths_index + 1) % old(self).len(),
            final(self).paths_index == r.0,
            final(self).entries@[r.0 as int] matches Some(c) ==> (r.1 matches Some(t)
                && crate::raster::raster_like(t, c)),
            final(self).entries@[r.0 as int] is None ==> r.1 is None,
            forall|k: int|
                0 <= k < r.2@.len() ==> (#[trigger] r.2@[k]) < final(self).len() && final(self).resident(r.2@[k] as int) && final(self).entries@[r.2@[k] as int] is None
                    && r.2@[k] != r.0,
            forall|i: int|
                0 <= i < final(self).len() && final(self).resident(i) && final(self).entries@[i]
                    is None && i != r.0 ==> exists|k: int|
                    0 <= k < r.2@.len() && (#[trigger] r.2@[k]) == i,
    {
        let n = self.paths.len();
        let idx = wrap_index(self.paths_index, 1, n);
        self.paths_index = idx;
        let shown: Option<Raster> = match self.entries[idx].as_ref() {
            Some(t) => Some(t.clone()),
            None => None,
        };
        let preloads = self.window_misses(idx);
        (idx, shown, preloads)
    }

    /// Steps to the previous catalog entry with wraparound; otherwise exactly
    /// like `get_next`.
    pub fn get_prev(&mut self) -> (r: (usize, Option<Raster>, Vec<usize>))
        requires
            old(self).wf(),
            old(self).len() > 0,
        ensures
            final(self).wf(),
            final(self).paths@ == old(self).paths@,
            final(self).entries@ == old(self).entries@,
            final(self).half_cache_size == old(self).half_cache_size,
            r.0 < old(self).len() && r.0 as int == (old(self).paths_index - 1) % old(self).len(),
            final(self).paths_index == r.0,
            final(self).entries@[r.0 as int] matches Some(c) ==> (r.1 matches Some(t)
                && crate::raster::raster_like(t, c)),
            final(self).entries@[r.0 as int] is None ==> r.1 is None,
            forall|k: int|
                0 <= k < r.2@.len() ==> (#[trigger] r.2@[k]) < final(self).len() && final(self).resident(r.2@[k] as int) && final(self).entries@[r.2@[k] as int] is None
                    && r.2@[k] != r.0,
            forall|i: int|
                0 <= i < final(self).len() && final(self).resident(i) && final(self).entries@[i]
                    is None && i != r.0 ==> exists|k: int|
                    0 <= k < r.2@.len() && (#[trigger] r.2@[k]) == i,
    {
        let n = self.paths.len();
        let idx = wrap_index(self.paths_index, -1isize, n);
        self.paths_index = idx;
        let shown: Option<Raster> = match self.entries[idx].as_ref() {
            Some(t) => Some(t.clone()),
            None => None,
        };
        let preloads = self.window_misses(idx);
        (idx, shown, preloads)
    }
}

} // verus!
