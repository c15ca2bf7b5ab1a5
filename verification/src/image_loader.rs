use vstd::prelude::*;

use crate::image_ring_cache::in_window;
use crate::image_ring_cache::circular_distance;
use crate::imgcodec::decode_rgba;
use crate::imgcodec::decoded_rgba_of;
use crate::imgcodec::downsample;
use crate::imgcodec::downsampled_of;
use crate::imgcodec::encode_png;
use crate::imgcodec::png_encoding_of;
use crate::imgcodec::spec_thumbnail_sum_fits;
use crate::imgcodec::thumbnail_sum_fits;
use crate::raster::Raster;
use crate::raster::Rotation;
use crate::raster::fit_within;
use crate::raster::raster_like;
use crate::raster::spec_fit_within;

verus! {

/// How many entries on either side of the visible grid range the thumbnail
/// cache keeps alive when it is pruned.
pub const THUMB_MARGIN: usize = 30;

/// A queued request to produce the thumbnail of one catalog entry: decode the
/// file at `path`, downsample it to fit within a `resolution` square box, and
/// commit it under `index`.
pub struct ThumbJob {
    pub index: usize,
    pub path: String,
    pub resolution: u32,
}

/// A queued request to decode the full-resolution raster of one catalog
/// entry. `generation` is the value of the loader's request counter when the
/// job was submitted; a stale job (one overtaken by a newer request) is
/// discarded at commit time.
pub struct FullJob {
    pub index: usize,
    pub path: String,
    pub generation: u64,
}

/// A queued request to decode a window neighbor in the background. It carries
/// no generation: a preload re-checks window membership instead.
pub struct PreloadJob {
    pub index: usize,
    pub path: String,
}

/// The image loading and caching engine: an index-keyed thumbnail cache and
/// an index-keyed full-resolution cache over an immutable path catalog,
/// with a monotonically increasing generation counter for discarding stale
/// full-view loads and a sliding window that bounds full-resolution
/// residency. All lookups and commits are immediate; decoding is done by the
/// caller between a request and the matching commit.
pub struct ImageLoader {
    pub paths: Vec<String>,
    pub thumb_cache: Vec<Option<Raster>>,
    pub full_cache: Vec<Option<Raster>>,
    pub generation: u64,
    pub bucket_resolution: u32,
    pub current_index: usize,
    pub window_radius: usize,
}

impl ImageLoader {
    /// Both caches cover exactly the catalog, cached rasters are well formed,
    /// the displayed index is in range, and the bucket resolution is a usable
    /// box size.
    pub open spec fn wf(&self) -> bool {
        &&& self.thumb_cache@.len() == self.paths@.len()
        &&& self.full_cache@.len() == self.paths@.len()
        &&& forall|i: int|
            0 <= i < self.paths@.len() ==> (#[trigger] self.thumb_cache@[i] matches Some(r)
                ==> r.wf())
        &&& forall|i: int|
            0 <= i < self.paths@.len() ==> (#[trigger] self.full_cache@[i] matches Some(r)
                ==> r.wf())
        &&& (self.paths@.len() > 0 ==> self.current_index < self.paths@.len())
        &&& self.bucket_resolution >= 1
        &&& 4 * (self.bucket_resolution as int) * (self.bucket_resolution as int) <= usize::MAX
    }

    pub open spec fn len(&self) -> int {
        self.paths@.len() as int
    }

    /// A fresh engine over the given catalog: both caches empty, generation
    /// zero, centered on the first entry.
    pub fn new(paths: Vec<String>, window_radius: usize, bucket_resolution: u32) -> (out:
        ImageLoader)
        requires
            bucket_resolution >= 1,
            4 * (bucket_resolution as int) * (bucket_resolution as int) <= usize::MAX,
        ensures
            out.wf(),
            out.paths@ == paths@,
            out.len() == paths@.len(),
            forall|i: int| 0 <= i < out.len() ==> out.thumb_cache@[i] is None,
            forall|i: int| 0 <= i < out.len() ==> out.full_cache@[i] is None,
            out.generation == 0,
            out.bucket_resolution == bucket_resolution,
            out.current_index == 0,
            out.window_radius == window_radius,
    {
        let n = paths.len();
        let thumb_cache = none_rasters(n);
        let full_cache = none_rasters(n);
        ImageLoader {
            paths,
            thumb_cache,
            full_cache,
            generation: 0,
            bucket_resolution,
            current_index: 0,
            window_radius,
        }
    }

    /// The cached thumbnail of `index`, if it is in the memory cache.
    pub fn thumb(&self, index: usize) -> (r: Option<&Raster>)
        requires
            self.wf(),
        ensures
            match r {
                Some(t) => index < self.len() && self.thumb_cache@[index as int] == Some(*t),
                None => index >= self.len() || self.thumb_cache@[index as int] is None,
            },
    {
        if index < self.thumb_cache.len() {
            self.thumb_cache[index].as_ref()
        } else {
            None
        }
    }

    /// The cached full-resolution raster of `index`, if it is in the memory
    /// cache.
    pub fn full(&self, index: usize) -> (r: Option<&Raster>)
        requires
            self.wf(),
        ensures
            match r {
                Some(t) => index < self.len() && self.full_cache@[index as int] == Some(*t),
                None => index >= self.len() || self.full_cache@[index as int] is None,
            },
    {
        if index < self.full_cache.len() {
            self.full_cache[index].as_ref()
        } else {
            None
        }
    }

    /// What a grid request for `index` answers and whether it schedules a
    /// decode, as a function of the loader state alone: a cache hit answers
    /// the cached raster and schedules nothing, a miss inside the catalog
    /// answers nothing and schedules one job, an index outside the catalog
    /// does neither.
    pub open spec fn spec_grid_request(&self, index: int) -> (Option<Raster>, bool) {
        if 0 <= index < self.len() {
            match self.thumb_cache@[index] {
                Some(r) => (Some(r), false),
                None => (None, true),
            }
        } else {
            (None, false)
        }
    }

    /// Serves a grid request for one entry: on a memory-cache hit the cached
    /// raster is returned at once and nothing is scheduled; on a miss nothing
    /// is returned and a thumbnail job for the current bucket resolution is
    /// handed back to be run in the background. An index outside the catalog
    /// yields neither. The answer is `spec_grid_request` of the unchanged
    /// loader state.
    pub fn load_grid_thumb(&self, index: usize) -> (r: (Option<&Raster>, Option<ThumbJob>))
        requires
            self.wf(),
        ensures
            (match r.0 {
                Some(t) => Some(*t),
                None => None::<Raster>,
            }) == self.spec_grid_request(index as int).0,
            (r.1 is Some) == self.spec_grid_request(index as int).1,
            index < self.len() && self.thumb_cache@[index as int] is Some ==> r.0 == Some(
                &self.thumb_cache@[index as int]->Some_0,
            ) && r.1 is None,
            index < self.len() && self.thumb_cache@[index as int] is None ==> r.0 is None && (
            r.1 matches Some(job) && job.index == index && job.path@
                == self.paths@[index as int]@ && job.resolution == self.bucket_resolution),
            index >= self.len() ==> r.0 is None && r.1 is None,
    {
        if index >= self.paths.len() {
            return (None, None);
        }
        match self.thumb_cache[index].as_ref() {
            Some(t) => (Some(t), None),
            None => {
                let job = ThumbJob {
                    index,
                    path: self.paths[index].clone(),
                    resolution: self.bucket_resolution,
                };
                (None, Some(job))
            },
        }
    }

    /// Changes the thumbnail target size. The whole thumbnail memory cache
    /// is invalidated unconditionally; the full-resolution cache and the
    /// catalog are untouched (on-disk thumbnails are keyed by resolution and
    /// need no invalidation).
    pub fn set_bucket_resolution(&mut self, resolution: u32)
        requires
            old(self).wf(),
            resolution >= 1,
            4 * (resolution as int) * (resolution as int) <= usize::MAX,
        ensures
            final(self).wf(),
            final(self).bucket_resolution == resolution,
            forall|i: int| 0 <= i < final(self).len() ==> final(self).thumb_cache@[i] is None,
            final(self).paths@ == old(self).paths@,
            final(self).full_cache@ == old(self).full_cache@,
            final(self).generation == old(self).generation,
            final(self).current_index == old(self).current_index,
            final(self).window_radius == old(self).window_radius,
    {
        self.thumb_cache = none_rasters(self.paths.len());
        self.bucket_resolution = resolution;
    }

    /// Evicts every thumbnail outside the visible grid range `[start, end]`
    /// widened by the fixed margin; entries inside it are kept as they are.
    pub fn prune_thumbs(&mut self, start: usize, end: usize)
        requires
            old(self).wf(),
        ensures
            final(self).wf(),
            forall|i: int|
                0 <= i < final(self).len() ==> final(self).thumb_cache@[i] == (if start
                    - THUMB_MARGIN <= i <= end + THUMB_MARGIN {
                    old(self).thumb_cache@[i]
                } else {
                    None
                }),
            final(self).paths@ == old(self).paths@,
            final(self).full_cache@ == old(self).full_cache@,
            final(self).generation == old(self).generation,
            final(self).bucket_resolution == old(self).bucket_resolution,
            final(self).current_index == old(self).current_index,
            final(self).window_radius == old(self).window_radius,
    {
        let lo: usize = if start >= THUMB_MARGIN {
            start - THUMB_MARGIN
        } else {
            0
        };
        let hi_capped: bool = end > usize::MAX - THUMB_MARGIN;
        let hi: usize = if hi_capped {
            usize::MAX
        } else {
            end + THUMB_MARGIN
        };
        let n = self.thumb_cache.len();
        let mut i: usize = 0;
        while i < n
            invariant
                self.wf(),
                n == self.len(),
                i <= n,
                lo == (if start >= THUMB_MARGIN {
                    start - THUMB_MARGIN
                } else {
                    0
                }),
                (hi as int) == (if end + THUMB_MARGIN <= usize::MAX {
                    end + THUMB_MARGIN
                } else {
                    usize::MAX as int
                }),
                end + THUMB_MARGIN > usize::MAX ==> hi == usize::MAX,
                forall|j: int|
                    0 <= j < i ==> self.thumb_cache@[j] == (if start - THUMB_MARGIN <= j <= end
                        + THUMB_MARGIN {
                        old(self).thumb_cache@[j]
                    } else {
                        None
                    }),
                forall|j: int| i <= j < n ==> self.thumb_cache@[j] == old(self).thumb_cache@[j],
                self.paths@ == old(self).paths@,
                self.full_cache@ == old(self).full_cache@,
                self.generation == old(self).generation,
                self.bucket_resolution == old(self).bucket_resolution,
                self.current_index == old(self).current_index,
                self.window_radius == old(self).window_radius,
            decreases n - i,
        {
            if i < lo || i > hi {
                self.thumb_cache[i] = None;
            }
            i = i + 1;
        }
    }

    /// Serves a grid request for the half-open index range `[start, end)`:
    /// returns one thumbnail job, at the current bucket resolution, for every
    /// entry of the range that is in the catalog and not in the memory cache,
    /// in index order.
    pub fn request_grid_range(&self, start: usize, end: usize) -> (jobs: Vec<ThumbJob>)
        requires
            self.wf(),
        ensures
            forall|k: int|
                0 <= k < jobs@.len() ==> ({
                    let j = #[trigger] jobs@[k];
                    &&& start <= j.index < end
                    &&& j.index < self.len()
                    &&& self.thumb_cache@[j.index as int] is None
                    &&& j.path@ == self.paths@[j.index as int]@
                    &&& j.resolution == self.bucket_resolution
                }),
            forall|i: int|
                start <= i < end && i < self.len() && self.thumb_cache@[i] is None ==> exists|k: int|
                    0 <= k < jobs@.len() && (#[trigger] jobs@[k]).index == i,
            forall|k1: int, k2: int|
                0 <= k1 < k2 < jobs@.len() ==> (#[trigger] jobs@[k1]).index < (
                #[trigger] jobs@[k2]).index,
    {
        let mut jobs: Vec<ThumbJob> = Vec::new();
        let n = self.paths.len();
        let stop: usize = if end <= n {
            end
        } else {
            n
        };
        if start >= stop {
            return jobs;
        }
        let mut i: usize = start;
        while i < stop
            invariant
                self.wf(),
                n == self.len(),
                stop <= n,
                stop <= end,
                start <= i <= stop,
                forall|k: int|
                    0 <= k < jobs@.len() ==> ({
                        let j = #[trigger] jobs@[k];
                        &&& start <= j.index < i
                        &&& j.index < self.len()
                        &&& self.thumb_cache@[j.index as int] is None
                        &&& j.path@ == self.paths@[j.index as int]@
                        &&& j.resolution == self.bucket_resolution
                    }),
                forall|ii: int|
                    start <= ii < i && self.thumb_cache@[ii] is None ==> exists|k: int|
                        0 <= k < jobs@.len() && (#[trigger] jobs@[k]).index == ii,
                forall|k1: int, k2: int|
                    0 <= k1 < k2 < jobs@.len() ==> (#[trigger] jobs@[k1]).index < (
                    #[trigger] jobs@[k2]).index,
            decreases stop - i,
        {
            let ghost jobs0 = jobs@;
            if self.thumb_cache[i].is_none() {
                let job = ThumbJob {
                    index: i,
                    path: self.paths[i].clone(),
                    resolution: self.bucket_resolution,
                };
                jobs.push(job);
            }
            proof {
                assert forall|ii: int|
                    start <= ii < i + 1 && self.thumb_cache@[ii] is None implies exists|k: int|
                    0 <= k < jobs@.len() && (#[trigger] jobs@[k]).index == ii by {
                    if ii == i {
                        assert(jobs@[jobs@.len() - 1].index == ii);
                    } else {
                        let k = choose|k: int|
                            0 <= k < jobs0.len() && (#[trigger] jobs0[k]).index == ii;
                        assert(jobs@[k].index == ii);
                    }
                }
            }
            i = i + 1;
        }
        jobs
    }

    /// Commits a finished thumbnail under its index; the last write wins.
    /// An index outside the catalog is ignored.
    pub fn commit_thumb(&mut self, index: usize, raster: Raster)
        requires
            old(self).wf(),
            raster.wf(),
        ensures
            final(self).wf(),
            index < old(self).len() ==> final(self).thumb_cache@ == old(self).thumb_cache@.update(
                index as int,
                Some(raster),
            ),
            index >= old(self).len() ==> final(self).thumb_cache@ == old(self).thumb_cache@,
            final(self).paths@ == old(self).paths@,
            final(self).full_cache@ == old(self).full_cache@,
            final(self).generation == old(self).generation,
            final(self).bucket_resolution == old(self).bucket_resolution,
            final(self).current_index == old(self).current_index,
            final(self).window_radius == old(self).window_radius,
    {
        if index < self.thumb_cache.len() {
            self.thumb_cache[index] = Some(raster);
        }
    }
    /// Serves a full-view request: returns at once the best raster at hand —
    /// the cached full raster, else the cached thumbnail, else a 1-by-1
    /// placeholder — while recording a new generation, recording the index as
    /// the one on display, and handing back a background decode job stamped
    /// with the new generation. An index outside the catalog yields the
    /// placeholder and no job.
    pub fn load_full_progressive(&mut self, index: usize) -> (r: (Raster, Option<FullJob>))
        requires
            old(self).wf(),
            old(self).generation < u64::MAX,
        ensures
            final(self).wf(),
            final(self).generation == old(self).generation + 1,
            final(self).current_index == (if index < old(self).len() {
                index as int
            } else {
                old(self).current_index as int
            }),
            final(self).paths@ == old(self).paths@,
            final(self).thumb_cache@ == old(self).thumb_cache@,
            final(self).full_cache@ == old(self).full_cache@,
            final(self).bucket_resolution == old(self).bucket_resolution,
            final(self).window_radius == old(self).window_radius,
            r.0.wf(),
            index < old(self).len() && old(self).full_cache@[index as int] is Some ==> raster_like(
                r.0,
                old(self).full_cache@[index as int]->Some_0,
            ),
            index < old(self).len() && old(self).full_cache@[index as int] is None && old(self).thumb_cache@[index as int] is Some ==> raster_like(
                r.0,
                old(self).thumb_cache@[index as int]->Some_0,
            ),
            (index >= old(self).len() || (old(self).full_cache@[index as int] is None && old(self).thumb_cache@[index as int] is None)) ==> r.0.width == 1 && r.0.height == 1,
            index < old(self).len() ==> (r.1 matches Some(job) && job.index == index && job.path@
                == old(self).paths@[index as int]@ && job.generation == old(self).generation + 1),
            index >= old(self).len() ==> r.1 is None,
    {
        self.generation = self.generation + 1;
        if index >= self.paths.len() {
            return (Raster::placeholder(), None);
        }
        self.current_index = index;
        let job = FullJob {
            index,
            path: self.paths[index].clone(),
            generation: self.generation,
        };
        let shown: Raster = match self.full_cache[index].as_ref() {
            Some(f) => f.clone(),
            None => match self.thumb_cache[index].as_ref() {
                Some(t) => t.clone(),
                None => Raster::placeholder(),
            },
        };
        (shown, Some(job))
    }

    /// Commits a finished full-resolution decode. A job overtaken by a newer
    /// generation is discarded without touching the cache or notifying
    /// anyone; a current one is cached, and is reported for display only if
    /// its index is still the one on display.
    pub fn commit_full(&mut self, job_generation: u64, index: usize, raster: Raster) -> (outcome:
        CommitOutcome)
        requires
            old(self).wf(),
            raster.wf(),
        ensures
            final(self).wf(),
            final(self).paths@ == old(self).paths@,
            final(self).thumb_cache@ == old(self).thumb_cache@,
            final(self).generation == old(self).generation,
            final(self).bucket_resolution == old(self).bucket_resolution,
            final(self).current_index == old(self).current_index,
            final(self).window_radius == old(self).window_radius,
            job_generation < old(self).generation || index >= old(self).len() ==> outcome
                is Stale && final(self).full_cache@ == old(self).full_cache@,
            job_generation >= old(self).generation && index < old(self).len() ==> final(self).full_cache@ == old(self).full_cache@.update(index as int, Some(raster)),
            job_generation >= old(self).generation && index < old(self).len() && index == old(self).current_index ==> outcome is Delivered,
            job_generation >= old(self).generation && index < old(self).len() && index != old(self).current_index ==> outcome is CachedOnly,
    {
        if job_generation < self.generation || index >= self.paths.len() {
            return CommitOutcome::Stale;
        }
        self.full_cache[index] = Some(raster);
        if index == self.current_index {
            CommitOutcome::Delivered
        } else {
            CommitOutcome::CachedOnly
        }
    }

    /// Recenters the sliding window after a navigation: records the new
    /// center as the index on display, evicts every full-resolution entry
    /// outside the window (circular distance to the center above the
    /// radius), and hands back one preload job for every in-window neighbor
    /// of the center that is not yet cached. An empty catalog is left as it
    /// is.
    pub fn update_sliding_window(&mut self, center: usize) -> (jobs: Vec<PreloadJob>)
        requires
            old(self).wf(),
            old(self).len() == 0 || center < old(self).len(),
        ensures
            final(self).wf(),
            final(self).paths@ == old(self).paths@,
            final(self).thumb_cache@ == old(self).thumb_cache@,
            final(self).generation == old(self).generation,
            final(self).bucket_resolution == old(self).bucket_resolution,
            final(self).window_radius == old(self).window_radius,
            final(self).current_index == (if old(self).len() > 0 {
                center as int
            } else {
                old(self).current_index as int
            }),
            forall|i: int|
                0 <= i < final(self).len() ==> final(self).full_cache@[i] == (if in_window(
                    center as int,
                    i,
                    old(self).len(),
                    old(self).window_radius as int,
                ) {
                    old(self).full_cache@[i]
                } else {
                    None
                }),
            forall|k: int|
                0 <= k < jobs@.len() ==> ({
                    let j = #[trigger] jobs@[k];
                    &&& j.index < old(self).len()
                    &&& in_window(
                        center as int,
                        j.index as int,
                        old(self).len(),
                        old(self).window_radius as int,
                    )
                    &&& j.index != center
                    &&& old(self).full_cache@[j.index as int] is None
                    &&& j.path@ == old(self).paths@[j.index as int]@
                }),
            forall|i: int|
                0 <= i < old(self).len() && in_window(
                    center as int,
                    i,
                    old(self).len(),
                    old(self).window_radius as int,
                ) && i != center && old(self).full_cache@[i] is None ==> exists|k: int|
                    0 <= k < jobs@.len() && (#[trigger] jobs@[k]).index == i,
            forall|k1: int, k2: int|
                0 <= k1 < k2 < jobs@.len() ==> (#[trigger] jobs@[k1]).index < (
                #[trigger] jobs@[k2]).index,
    {
        let mut jobs: Vec<PreloadJob> = Vec::new();
        let n = self.paths.len();
        if n == 0 {
            return jobs;
        }
        self.current_index = center;
        let radius = self.window_radius;
        let mut i: usize = 0;
        while i < n
            invariant
                self.wf(),
                n == self.len(),
                center < n,
                radius == self.window_radius,
                i <= n,
                self.paths@ == old(self).paths@,
                self.thumb_cache@ == old(self).thumb_cache@,
                self.generation == old(self).generation,
                self.bucket_resolution == old(self).bucket_resolution,
                self.window_radius == old(self).window_radius,
                self.current_index == center,
                forall|j: int|
                    0 <= j < i ==> self.full_cache@[j] == (if in_window(
                        center as int,
                        j,
                        n as int,
                        radius as int,
                    ) {
                        old(self).full_cache@[j]
                    } else {
                        None
                    }),
                forall|j: int| i <= j < n ==> self.full_cache@[j] == old(self).full_cache@[j],
                forall|k: int|
                    0 <= k < jobs@.len() ==> ({
                        let j = #[trigger] jobs@[k];
                        &&& j.index < i
                        &&& in_window(center as int, j.index as int, n as int, radius as int)
                        &&& j.index != center
                        &&& old(self).full_cache@[j.index as int] is None
                        &&& j.path@ == old(self).paths@[j.index as int]@
                    }),
                forall|ii: int|
                    0 <= ii < i && in_window(center as int, ii, n as int, radius as int) && ii
                        != center && old(self).full_cache@[ii] is None ==> exists|k: int|
                        0 <= k < jobs@.len() && (#[trigger] jobs@[k]).index == ii,
                forall|k1: int, k2: int|
                    0 <= k1 < k2 < jobs@.len() ==> (#[trigger] jobs@[k1]).index < (
                    #[trigger] jobs@[k2]).index,
            decreases n - i,
        {
            let ghost jobs0 = jobs@;
            let d = circular_distance(center, i, n);
            if d <= radius {
                if i != center && self.full_cache[i].is_none() {
                    let job = PreloadJob { index: i, path: self.paths[i].clone() };
                    jobs.push(job);
                }
            } else {
                self.full_cache[i] = None;
            }
            proof {
                assert forall|ii: int|
                    0 <= ii < i + 1 && in_window(center as int, ii, n as int, radius as int) && ii
                        != center && old(self).full_cache@[ii] is None implies exists|k: int|
                    0 <= k < jobs@.len() && (#[trigger] jobs@[k]).index == ii by {
                    if ii == i {
                        assert(jobs@[jobs@.len() - 1].index == ii);
                    } else {
                        let k = choose|k: int|
                            0 <= k < jobs0.len() && (#[trigger] jobs0[k]).index == ii;
                        assert(jobs@[k].index == ii);
                    }
                }
            }
            i = i + 1;
        }
        jobs
    }

    /// The execution-time re-check of a preload job: it should go on only if
    /// its index is still inside the active window and still uncached.
    pub fn preload_should_run(&self, index: usize) -> (run: bool)
        requires
            self.wf(),
        ensures
            run <==> (index < self.len() && in_window(
                self.current_index as int,
                index as int,
                self.len(),
                self.window_radius as int,
            ) && self.full_cache@[index as int] is None),
    {
        if index >= self.paths.len() {
            return false;
        }
        let d = circular_distance(self.current_index, index, self.paths.len());
        d <= self.window_radius && self.full_cache[index].is_none()
    }

    /// Commits a finished preload. The raster is cached only if its index is
    /// still inside the active window; a preload that has drifted out of the
    /// window is discarded without touching the cache.
    pub fn commit_preload(&mut self, index: usize, raster: Raster) -> (committed: bool)
        requires
            old(self).wf(),
            raster.wf(),
        ensures
            final(self).wf(),
            final(self).paths@ == old(self).paths@,
            final(self).thumb_cache@ == old(self).thumb_cache@,
            final(self).generation == old(self).generation,
            final(self).bucket_resolution == old(self).bucket_resolution,
            final(self).current_index == old(self).current_index,
            final(self).window_radius == old(self).window_radius,
            committed <==> (index < old(self).len() && in_window(
                old(self).current_index as int,
                index as int,
                old(self).len(),
                old(self).window_radius as int,
            )),
            committed ==> final(self).full_cache@ == old(self).full_cache@.update(
                index as int,
                Some(raster),
            ),
            !committed ==> final(self).full_cache@ == old(self).full_cache@,
    {
        if index >= self.paths.len() {
            return false;
        }
        let d = circular_distance(self.current_index, index, self.paths.len());
        if d <= self.window_radius {
            self.full_cache[index] = Some(raster);
            true
        } else {
            false
        }
    }
    /// Rotates the raster on display in memory: the full-resolution entry of
    /// the displayed index is read from the cache, remapped pixel by pixel,
    /// and written back into both caches under the same index — the only path
    /// that overwrites a cache entry in place. Without a cached full raster
    /// there is nothing to rotate and nothing changes.
    pub fn apply_rotation(&mut self, rot: Rotation) -> (out: Option<Raster>)
        requires
            old(self).wf(),
        ensures
            final(self).wf(),
            final(self).paths@ == old(self).paths@,
            final(self).generation == old(self).generation,
            final(self).bucket_resolution == old(self).bucket_resolution,
            final(self).current_index == old(self).current_index,
            final(self).window_radius == old(self).window_radius,
            ({
                let i = old(self).current_index as int;
                if old(self).len() > 0 && old(self).full_cache@[i] is Some {
                    let src = old(self).full_cache@[i]->Some_0;
                    let dims = Raster::rotated_dims(src.width as int, src.height as int, rot);
                    let data = Raster::rotated_data(src.data@, src.width as int, src.height as int, rot);
                    &&& out matches Some(t) && t.width == dims.0 && t.height == dims.1 && t.data@
                        == data
                    &&& final(self).full_cache@[i] matches Some(f) && f.width == dims.0
                        && f.height == dims.1 && f.data@ == data
                    &&& final(self).thumb_cache@[i] matches Some(tb) && tb.width == dims.0
                        && tb.height == dims.1 && tb.data@ == data
                    &&& forall|j: int|
                        0 <= j < old(self).len() && j != i ==> final(self).full_cache@[j] == old(
                            self,
                        ).full_cache@[j] && final(self).thumb_cache@[j] == old(self).thumb_cache@[j]
                } else {
                    &&& out is None
                    &&& final(self).full_cache@ == old(self).full_cache@
                    &&& final(self).thumb_cache@ == old(self).thumb_cache@
                }
            }),
    {
        if self.paths.len() == 0 {
            return None;
        }
        let i = self.current_index;
        let rotated: Raster = match self.full_cache[i].as_ref() {
            Some(src) => src.rotate(rot),
            None => {
                return None;
            },
        };
        self.full_cache[i] = Some(rotated.clone());
        self.thumb_cache[i] = Some(rotated.clone());
        Some(rotated)
    }
}

/// Where a finished thumbnail job found its pixels.
pub enum ThumbSource {
    /// The on-disk thumbnail cache file decoded; the full decode was skipped.
    DiskCache,
    /// The source image was decoded and downsampled.
    FullDecode,
    /// Neither decoded; the raster is the placeholder.
    Failed,
}

/// What a thumbnail job produced: the raster to commit, where it came from,
/// and — after a full decode — the encoded bytes to write to the disk cache
/// for next time (a best-effort write).
pub struct ThumbOutput {
    pub raster: Raster,
    pub source: ThumbSource,
    pub disk_write: Option<Vec<u8>>,
}

/// What the decoder yields for optional bytes: nothing for absent bytes,
/// otherwise whatever the decode of the bytes yields.
pub open spec fn decoded_opt(b: Option<Vec<u8>>) -> Option<(u32, u32, Seq<u8>)> {
    match b {
        Some(v) => decoded_rgba_of(v@),
        None => None,
    }
}

/// The compute part of a background thumbnail job, after the caller has read
/// the disk-cache file (if it exists) and the source file (if readable):
/// prefer the decoded disk-cache bytes as they are; otherwise decode the
/// source, downsample it to fit within the resolution box, and hand back PNG
/// bytes to store in the disk cache; if nothing decodes, fall back to the
/// placeholder. Never an error: a failed decode degrades to a 1-by-1 raster,
/// and so does an image so large against so small a box that the resampler
/// could not average it safely.
pub fn run_thumb_job(disk_bytes: Option<Vec<u8>>, source_bytes: Option<Vec<u8>>, resolution: u32) -> (out:
    ThumbOutput)
    requires
        resolution >= 1,
        4 * (resolution as int) * (resolution as int) <= usize::MAX,
    ensures
        out.raster.wf(),
        decoded_opt(disk_bytes) matches Some(d) ==> out.source is DiskCache && out.raster.width
            == d.0 && out.raster.height == d.1 && out.raster.data@ == d.2 && out.disk_write
            is None,
        decoded_opt(disk_bytes) is None && decoded_opt(source_bytes) is Some ==> ({
            let d = decoded_opt(source_bytes)->Some_0;
            let dims = spec_fit_within(d.0 as int, d.1 as int, resolution as int, resolution as int);
            d.0 > 0 && d.1 > 0 && spec_thumbnail_sum_fits(d.0 as int, d.1 as int, dims.0, dims.1)
                ==> {
                &&& out.source is FullDecode
                &&& out.raster.width == dims.0
                &&& out.raster.height == dims.1
                &&& out.raster.data@ == downsampled_of(d.2, d.0, d.1, dims.0 as u32, dims.1 as u32)
                &&& (out.disk_write is Some <==> png_encoding_of(
                    out.raster.data@,
                    out.raster.width,
                    out.raster.height,
                ) is Some)
                &&& (out.disk_write matches Some(v) ==> png_encoding_of(
                    out.raster.data@,
                    out.raster.width,
                    out.raster.height,
                ) matches Some(s) && v@ == s)
            }
        }),
        decoded_opt(disk_bytes) is None && (decoded_opt(source_bytes) is None || ({
            let d = decoded_opt(source_bytes)->Some_0;
            let dims = spec_fit_within(d.0 as int, d.1 as int, resolution as int, resolution as int);
            d.0 == 0 || d.1 == 0 || !spec_thumbnail_sum_fits(d.0 as int, d.1 as int, dims.0, dims.1)
        })) ==> out.source is Failed && out.raster.width == 1 && out.raster.height == 1
            && out.disk_write is None,
{
    if let Some(db) = disk_bytes.as_ref() {
        if let Some(r) = decode_rgba(db) {
            return ThumbOutput { raster: r, source: ThumbSource::DiskCache, disk_write: None };
        }
    }
    if let Some(sb) = source_bytes.as_ref() {
        if let Some(r) = decode_rgba(sb) {
            if r.width > 0 && r.height > 0 {
                let dl: usize = r.data.len();
                let (nw, nh) = fit_within(r.width, r.height, resolution, resolution);
                if thumbnail_sum_fits(r.width, r.height, nw, nh) {
                    proof {
                        if !(r.width <= resolution && r.height <= resolution) {
                            assert(4 * (nw as int) * (nh as int) <= 4 * (resolution as int) * (
                            resolution as int)) by (nonlinear_arith)
                                requires
                                    1 <= nw <= resolution,
                                    1 <= nh <= resolution,
                            ;
                        }
                    }
                    let thumb = downsample(&r, nw, nh);
                    let disk_write = encode_png(&thumb);
                    return ThumbOutput {
                        raster: thumb,
                        source: ThumbSource::FullDecode,
                        disk_write,
                    };
                }
            }
        }
    }
    ThumbOutput { raster: Raster::placeholder(), source: ThumbSource::Failed, disk_write: None }
}

/// The compute part of a background full-view job, after the caller has read
/// the source file: the decoded raster exactly as the decoder reported it —
/// the dimensions the caches then serve — or the 1-by-1 placeholder when the
/// bytes are absent or do not decode. Never an error: a decode failure
/// degrades to the placeholder.
pub fn run_full_job(source_bytes: Option<Vec<u8>>) -> (out: Raster)
    ensures
        out.wf(),
        decoded_opt(source_bytes) matches Some(d) ==> out.width == d.0 && out.height == d.1
            && out.data@ == d.2,
        decoded_opt(source_bytes) is None ==> out.width == 1 && out.height == 1,
{
    if let Some(sb) = source_bytes.as_ref() {
        if let Some(r) = decode_rgba(sb) {
            return r;
        }
    }
    Raster::placeholder()
}

/// The fate of a finished full-resolution decode at commit time.
pub enum CommitOutcome {
    /// Overtaken by a newer request or out of range: nothing was changed.
    Stale,
    /// Cached, but its index is no longer the one on display.
    CachedOnly,
    /// Cached and reported for display.
    Delivered,
}

/// A vector of `n` empty cache slots.
fn none_rasters(n: usize) -> (out: Vec<Option<Raster>>)
    ensures
        out@.len() == n,
        forall|i: int| 0 <= i < n ==> out@[i] is None,
{
    let mut v: Vec<Option<Raster>> = Vec::new();
    let mut i: usize = 0;
    while i < n
        invariant
            i <= n,
            v@.len() == i,
            forall|j: int| 0 <= j < i ==> v@[j] is None,
        decreases n - i,
    {
        v.push(None);
        i = i + 1;
    }
    v
}

} // verus!
