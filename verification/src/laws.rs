//! Properties that hold across the functions of the library.
use vstd::prelude::*;

use crate::enricher::{
    flag_char, is_enrichment_of, is_media_of_entry, is_sorted_media_of, listing_names, location_text, step_dir_text,
    weather_text, MediaListing,
};
use crate::model::{EnrichedStep, GpsPoint, Media, MediaKind, Step, Trip};
use crate::date::DATE_PATTERN;
use crate::text::decimal;
use vstd::utf8::{decode_utf8, valid_utf8};
use crate::order::{
    bytes_lt, is_index_permutation, key_before, lemma_bytes_lt_irreflexive,
    lemma_bytes_lt_transitive, name_before, stably_ordered_by_key, stably_ordered_by_name,
};
use crate::site::{
    first_coordinates, is_marker_of, is_page_of, located_steps, map_center_of, media_positions,
    is_job_of, is_nav_of, is_summary_of, next_step, osm_link_text, page_file_text, prev_step,
    step_coordinates, thumbnail_text, trip_key_text, MapMarker, MediaCopyJob, NavStep, StepPage,
    StepSummary,
    DEFAULT_CENTER_LAT_BITS, DEFAULT_CENTER_LON_BITS,
};
use crate::track::{is_time_ordering_of, timestamps};

verus! {

/// Two arrangements of the indices below `n`, both increasing for an
/// asymmetric relation, agree on their first `k + 1` positions.
proof fn lemma_arrangements_agree(
    p: Seq<int>,
    q: Seq<int>,
    n: int,
    before: spec_fn(int, int) -> bool,
    k: int,
)
    requires
        0 <= k < n,
        is_index_permutation(p, n),
        is_index_permutation(q, n),
        forall|a: int, b: int| 0 <= a < b < n ==> #[trigger] before(p[a], p[b]),
        forall|a: int, b: int| 0 <= a < b < n ==> #[trigger] before(q[a], q[b]),
        forall|x: int, y: int| #[trigger] before(x, y) ==> !before(y, x),
    ensures
        forall|j: int| 0 <= j <= k ==> p[j] == q[j],
    decreases k,
{
    if k > 0 {
        lemma_arrangements_agree(p, q, n, before, k - 1);
    }
    let a: int = p[k];
    let b: int = q[k];
    if a != b {
        assert(q.contains(a));
        let m = choose|m: int| 0 <= m < q.len() && q[m] == a;
        if m < k {
            assert(p[m] == q[m]);
        }
        assert(m > k);
        assert(before(q[k], q[m]));
        assert(p.contains(b));
        let l = choose|l: int| 0 <= l < p.len() && p[l] == b;
        if l < k {
            assert(p[l] == q[l]);
        }
        assert(l > k);
        assert(before(p[k], p[l]));
        assert(before(a, b) && before(b, a));
    }
}

/// Two arrangements of the indices below `n` that are both increasing for an
/// asymmetric relation are the same.
proof fn lemma_arrangement_unique(p: Seq<int>, q: Seq<int>, n: int, before: spec_fn(int, int) -> bool)
    requires
        is_index_permutation(p, n),
        is_index_permutation(q, n),
        forall|a: int, b: int| 0 <= a < b < n ==> #[trigger] before(p[a], p[b]),
        forall|a: int, b: int| 0 <= a < b < n ==> #[trigger] before(q[a], q[b]),
        forall|x: int, y: int| #[trigger] before(x, y) ==> !before(y, x),
    ensures
        p == q,
{
    if n > 0 {
        lemma_arrangements_agree(p, q, n, before, n - 1);
    }
    assert(p =~= q);
}

/// The media of a step are determined by its listing: two lists that both
/// hold the listing's files in file name order agree entry by entry.
pub proof fn law_media_order_is_unique(l: MediaListing, m1: Seq<Media>, m2: Seq<Media>)
    requires
        is_sorted_media_of(l, m1),
        is_sorted_media_of(l, m2),
    ensures
        m1.len() == m2.len(),
        forall|k: int|
            0 <= k < m1.len() ==> m1[k].kind == m2[k].kind && m1[k].relative_path@
                == m2[k].relative_path@,
{
    let names = listing_names(l);
    let n: int = names.len() as int;
    let p = choose|perm: Seq<int>|
        {
            &&& is_index_permutation(perm, n)
            &&& stably_ordered_by_name(names, perm)
            &&& m1.len() == n
            &&& forall|k: int| 0 <= k < n ==> is_media_of_entry(l, #[trigger] perm[k], m1[k])
        };
    let q = choose|perm: Seq<int>|
        {
            &&& is_index_permutation(perm, n)
            &&& stably_ordered_by_name(names, perm)
            &&& m2.len() == n
            &&& forall|k: int| 0 <= k < n ==> is_media_of_entry(l, #[trigger] perm[k], m2[k])
        };
    let before = |x: int, y: int| name_before(names, x, y);
    assert forall|x: int, y: int| #[trigger] before(x, y) implies !before(y, x) by {
        lemma_bytes_lt_irreflexive(names[x]);
        if bytes_lt(names[x], names[y]) && bytes_lt(names[y], names[x]) {
            lemma_bytes_lt_transitive(names[x], names[y], names[x]);
        }
    }
    assert forall|a: int, b: int| 0 <= a < b < n implies #[trigger] before(p[a], p[b]) by {}
    assert forall|a: int, b: int| 0 <= a < b < n implies #[trigger] before(q[a], q[b]) by {}
    lemma_arrangement_unique(p, q, n, before);
    assert forall|k: int| 0 <= k < m1.len() implies m1[k].kind == m2[k].kind
        && m1[k].relative_path@ == m2[k].relative_path@ by {
        assert(is_media_of_entry(l, p[k], m1[k]));
        assert(is_media_of_entry(l, q[k], m2[k]));
    }
}

/// A track has one time order: two lists that both hold its points in
/// stable time order are equal.
pub proof fn law_track_order_is_unique(points: Seq<GpsPoint>, s1: Seq<GpsPoint>, s2: Seq<GpsPoint>)
    requires
        is_time_ordering_of(points, s1),
        is_time_ordering_of(points, s2),
    ensures
        s1 == s2,
{
    let keys = timestamps(points);
    let n: int = points.len() as int;
    let p = choose|perm: Seq<int>|
        {
            &&& is_index_permutation(perm, n)
            &&& stably_ordered_by_key(keys, perm)
            &&& s1.len() == n
            &&& forall|k: int| 0 <= k < n ==> s1[k] == points[#[trigger] perm[k]]
        };
    let q = choose|perm: Seq<int>|
        {
            &&& is_index_permutation(perm, n)
            &&& stably_ordered_by_key(keys, perm)
            &&& s2.len() == n
            &&& forall|k: int| 0 <= k < n ==> s2[k] == points[#[trigger] perm[k]]
        };
    let before = |x: int, y: int| key_before(keys, x, y);
    assert forall|a: int, b: int| 0 <= a < b < n implies #[trigger] before(p[a], p[b]) by {}
    assert forall|a: int, b: int| 0 <= a < b < n implies #[trigger] before(q[a], q[b]) by {}
    lemma_arrangement_unique(p, q, n, before);
    assert forall|k: int| 0 <= k < n implies s1[k] == s2[k] by {
        assert(s1[k] == points[p[k]]);
        assert(s2[k] == points[q[k]]);
    }
    assert(s1 =~= s2);
}

/// The map has a marker for exactly the steps that have coordinates, in the
/// order of the steps.
pub proof fn law_markers_are_the_located_steps(steps: Seq<EnrichedStep>)
    ensures
        forall|j: int|
            0 <= j < located_steps(steps).len() ==> 0 <= #[trigger] located_steps(steps)[j]
                < steps.len() && step_coordinates(steps[located_steps(steps)[j]].step) is Some,
        forall|j: int, k: int|
            0 <= j < k < located_steps(steps).len() ==> #[trigger] located_steps(steps)[j]
                < #[trigger] located_steps(steps)[k],
        forall|i: int|
            0 <= i < steps.len() && step_coordinates(#[trigger] steps[i].step) is Some
                ==> located_steps(steps).contains(i),
    decreases steps.len(),
{
    if steps.len() > 0 {
        let init = steps.drop_last();
        law_markers_are_the_located_steps(init);
        let rest = located_steps(init);
        let ls = located_steps(steps);
        assert forall|i: int| 0 <= i < init.len() implies #[trigger] init[i] == steps[i] by {}
        assert forall|i: int|
            0 <= i < steps.len() && step_coordinates(#[trigger] steps[i].step) is Some implies ls.contains(i) by {
            if i < init.len() {
                assert(step_coordinates(init[i].step) is Some);
                assert(rest.contains(i));
                let k = choose|k: int| 0 <= k < rest.len() && rest[k] == i;
                assert(ls[k] == i);
            } else {
                assert(ls[rest.len() as int] == i);
            }
        }
        assert forall|j: int|
            0 <= j < ls.len() implies 0 <= #[trigger] ls[j] < steps.len() && step_coordinates(
            steps[ls[j]].step,
        ) is Some by {
            if j < rest.len() {
                assert(ls[j] == rest[j]);
                assert(init[rest[j]] == steps[rest[j]]);
            }
        }
    }
}

/// Where `first_coordinates` finds the coordinates of a list of steps.
proof fn lemma_first_coordinates(steps: Seq<EnrichedStep>)
    ensures
        first_coordinates(steps) is None ==> forall|i: int|
            0 <= i < steps.len() ==> step_coordinates(#[trigger] steps[i].step) is None,
        first_coordinates(steps) is Some ==> exists|i: int|
            0 <= i < steps.len() && first_coordinates(steps) == step_coordinates(steps[i].step)
                && forall|j: int| 0 <= j < i ==> step_coordinates(#[trigger] steps[j].step) is None,
    decreases steps.len(),
{
    if steps.len() > 0 {
        let tail = steps.drop_first();
        lemma_first_coordinates(tail);
        assert forall|i: int| 0 <= i < tail.len() implies #[trigger] tail[i] == steps[i + 1] by {}
        if step_coordinates(steps[0].step) is Some {
            assert(first_coordinates(steps) == step_coordinates(steps[0].step));
        } else if first_coordinates(tail) is Some {
            let i = choose|i: int|
                0 <= i < tail.len() && first_coordinates(tail) == step_coordinates(tail[i].step)
                    && forall|j: int| 0 <= j < i ==> step_coordinates(#[trigger] tail[j].step) is None;
            assert forall|j: int| 0 <= j < i + 1 implies step_coordinates(
                #[trigger] steps[j].step,
            ) is None by {
                if j > 0 {
                    assert(steps[j] == tail[j - 1]);
                }
            }
            assert(first_coordinates(steps) == step_coordinates(steps[i + 1].step));
        } else {
            assert forall|i: int| 0 <= i < steps.len() implies step_coordinates(
                #[trigger] steps[i].step,
            ) is None by {
                if i > 0 {
                    assert(steps[i] == tail[i - 1]);
                }
            }
        }
    }
}

/// The trip map is centred on its first marker, or on Paris when no step has
/// coordinates.
pub proof fn law_map_center_is_first_marker(steps: Seq<EnrichedStep>)
    ensures
        located_steps(steps).len() == 0 ==> map_center_of(steps) == (
            DEFAULT_CENTER_LAT_BITS,
            DEFAULT_CENTER_LON_BITS,
        ),
        located_steps(steps).len() > 0 ==> Some(map_center_of(steps)) == step_coordinates(
            steps[located_steps(steps)[0]].step,
        ),
{
    law_markers_are_the_located_steps(steps);
    lemma_first_coordinates(steps);
    let ls = located_steps(steps);
    if first_coordinates(steps) is Some {
        let i = choose|i: int|
            0 <= i < steps.len() && first_coordinates(steps) == step_coordinates(steps[i].step)
                && forall|j: int| 0 <= j < i ==> step_coordinates(#[trigger] steps[j].step) is None;
        assert(step_coordinates(steps[i].step) is Some);
        assert(ls.contains(i));
        let m = choose|m: int| 0 <= m < ls.len() && ls[m] == i;
        assert(ls.len() > 0);
        if m > 0 {
            assert(ls[0] < ls[m]);
            assert(step_coordinates(steps[ls[0]].step) is Some);
        }
        assert(ls[0] == i);
    } else {
        if ls.len() > 0 {
            assert(step_coordinates(steps[ls[0]].step) is Some);
        }
    }
}

/// The copy jobs cover every media of every step exactly once, step by step
/// and in the order of each step's media.
pub proof fn law_copy_jobs_cover_all_media(steps: Seq<EnrichedStep>)
    ensures
        forall|t: int|
            0 <= t < media_positions(steps).len() ==> {
                let (i, j) = #[trigger] media_positions(steps)[t];
                0 <= i < steps.len() && 0 <= j < steps[i].media@.len()
            },
        forall|t: int, u: int|
            0 <= t < u < media_positions(steps).len() ==> {
                let (i1, j1) = #[trigger] media_positions(steps)[t];
                let (i2, j2) = #[trigger] media_positions(steps)[u];
                i1 < i2 || (i1 == i2 && j1 < j2)
            },
        forall|i: int, j: int|
            0 <= i < steps.len() && 0 <= j < steps[i].media@.len() ==> #[trigger] media_positions(
                steps,
            ).contains((i, j)),
    decreases steps.len(),
{
    if steps.len() > 0 {
        let init = steps.drop_last();
        law_copy_jobs_cover_all_media(init);
        let rest = media_positions(init);
        let last: int = steps.len() - 1;
        let added = Seq::new(steps.last().media@.len(), |j: int| (last, j));
        let all = media_positions(steps);
        assert(all == rest + added);
        assert forall|i: int| 0 <= i < init.len() implies #[trigger] init[i] == steps[i] by {}
        assert forall|t: int| 0 <= t < all.len() implies {
            let (i, j) = #[trigger] all[t];
            0 <= i < steps.len() && 0 <= j < steps[i].media@.len()
        } by {
            if t < rest.len() {
                assert(all[t] == rest[t]);
                let (i, j) = rest[t];
                assert(init[i] == steps[i]);
            } else {
                assert(all[t] == added[t - rest.len()]);
            }
        }
        assert forall|t: int, u: int| 0 <= t < u < all.len() implies {
            let (i1, j1) = #[trigger] all[t];
            let (i2, j2) = #[trigger] all[u];
            i1 < i2 || (i1 == i2 && j1 < j2)
        } by {
            if u < rest.len() {
                assert(all[t] == rest[t] && all[u] == rest[u]);
            } else if t < rest.len() {
                assert(all[t] == rest[t]);
                assert(all[u] == added[u - rest.len()]);
                let (i1, j1) = rest[t];
                assert(0 <= i1 < init.len());
            } else {
                assert(all[t] == added[t - rest.len()]);
                assert(all[u] == added[u - rest.len()]);
            }
        }
        assert forall|i: int, j: int|
            0 <= i < steps.len() && 0 <= j < steps[i].media@.len() implies #[trigger] all.contains(
            (i, j),
        ) by {
            if i < init.len() {
                assert(init[i] == steps[i]);
                assert(rest.contains((i, j)));
                let t = choose|t: int| 0 <= t < rest.len() && rest[t] == (i, j);
                assert(all[t] == (i, j));
            } else {
                assert(all[rest.len() + j] == (i, j));
            }
        }
    }
}

/// A list of media has a thumbnail exactly when it holds a photo, and the
/// thumbnail is that of its first photo.
pub proof fn law_thumbnail_is_first_photo(media: Seq<Media>)
    ensures
        thumbnail_text(media).len() == 0 <==> forall|k: int|
            0 <= k < media.len() ==> (#[trigger] media[k]).kind != MediaKind::Photo,
        thumbnail_text(media).len() > 0 ==> exists|k: int|
            0 <= k < media.len() && (#[trigger] media[k]).kind == MediaKind::Photo && (forall|
                j: int,
            | 0 <= j < k ==> (#[trigger] media[j]).kind != MediaKind::Photo) && thumbnail_text(
                media,
            ) == "thumbnails/"@ + media[k].relative_path@,
    decreases media.len(),
{
    if media.len() > 0 {
        let tail = media.drop_first();
        law_thumbnail_is_first_photo(tail);
        assert forall|k: int| 0 <= k < tail.len() implies #[trigger] tail[k] == media[k + 1] by {}
        if media[0].kind == MediaKind::Photo {
            reveal_strlit("thumbnails/");
            assert(thumbnail_text(media).len() > 0);
        } else {
            assert(thumbnail_text(media) == thumbnail_text(tail));
            if thumbnail_text(tail).len() > 0 {
                let k = choose|k: int|
                    0 <= k < tail.len() && (#[trigger] tail[k]).kind == MediaKind::Photo && (forall|
                        j: int,
                    | 0 <= j < k ==> (#[trigger] tail[j]).kind != MediaKind::Photo)
                        && thumbnail_text(tail) == "thumbnails/"@ + tail[k].relative_path@;
                assert(media[k + 1] == tail[k]);
                assert forall|j: int| 0 <= j < k + 1 implies (#[trigger] media[j]).kind
                    != MediaKind::Photo by {
                    if j > 0 {
                        assert(media[j] == tail[j - 1]);
                    }
                }
            } else {
                assert forall|k: int| 0 <= k < media.len() implies (#[trigger] media[k]).kind
                    != MediaKind::Photo by {
                    if k > 0 {
                        assert(media[k] == tail[k - 1]);
                    }
                }
            }
        }
    }
}

/// Every thumbnail that a page refers to is made by a copy job: the step's
/// first photo is among the media the jobs cover.
pub proof fn law_thumbnails_are_made(steps: Seq<EnrichedStep>, i: int)
    requires
        0 <= i < steps.len(),
        thumbnail_text(steps[i].media@).len() > 0,
    ensures
        exists|t: int, k: int|
            #![trigger media_positions(steps)[t], steps[i].media@[k]]
            0 <= t < media_positions(steps).len() && media_positions(steps)[t] == (i, k)
                && 0 <= k < steps[i].media@.len() && steps[i].media@[k].kind == MediaKind::Photo
                && thumbnail_text(steps[i].media@) == "thumbnails/"@
                + steps[i].media@[k].relative_path@,
{
    law_thumbnail_is_first_photo(steps[i].media@);
    law_copy_jobs_cover_all_media(steps);
    let m = steps[i].media@;
    let k = choose|k: int|
        0 <= k < m.len() && (#[trigger] m[k]).kind == MediaKind::Photo && (forall|j: int|
            0 <= j < k ==> (#[trigger] m[j]).kind != MediaKind::Photo) && thumbnail_text(m)
            == "thumbnails/"@ + m[k].relative_path@;
    assert(media_positions(steps).contains((i, k)));
    let t = choose|t: int|
        0 <= t < media_positions(steps).len() && media_positions(steps)[t] == (i, k);
    assert(media_positions(steps)[t] == (i, k));
    assert(steps[i].media@[k] == m[k]);
}

/// Step pages link up: the first page has no previous step, the last no
/// next step, and between two consecutive pages each links to the other.
pub proof fn law_step_pages_link_up(steps: Seq<EnrichedStep>)
    requires
        steps.len() > 0,
    ensures
        prev_step(steps, 0) is None,
        next_step(steps, steps.len() - 1) is None,
        forall|i: int|
            0 <= i < steps.len() - 1 ==> #[trigger] next_step(steps, i) == Some(steps[i + 1].step)
                && prev_step(steps, i + 1) == Some(steps[i].step),
{
}

/// The flag of a capital letter is its regional indicator symbol.
pub proof fn law_capital_flags_are_regional_indicators(c: char)
    requires
        0x41 <= c as u32 <= 0x5A,
    ensures
        flag_char(c) as u32 == c as u32 + 0x1F1E6 - 0x41,
        0x1F1E6 <= flag_char(c) as u32 <= 0x1F1FF,
{
}


/// File names are compared byte by byte: at the first position where two
/// names differ, the smaller byte comes first; a name that is a proper
/// prefix of another comes first.
pub proof fn law_bytes_order_is_lexicographic(a: Seq<u8>, b: Seq<u8>, k: int)
    requires
        0 <= k <= a.len(),
        k <= b.len(),
        a.subrange(0, k) == b.subrange(0, k),
    ensures
        k < a.len() && k < b.len() && a[k] != b[k] ==> (bytes_lt(a, b) <==> a[k] < b[k]),
        k == a.len() ==> (bytes_lt(a, b) <==> k < b.len()),
        k == b.len() && k < a.len() ==> !bytes_lt(a, b),
    decreases k,
{
    if k > 0 {
        assert(a[0] == a.subrange(0, k)[0]);
        assert(b[0] == b.subrange(0, k)[0]);
        assert(a.drop_first().subrange(0, k - 1) =~= a.subrange(0, k).drop_first());
        assert(b.drop_first().subrange(0, k - 1) =~= b.subrange(0, k).drop_first());
        law_bytes_order_is_lexicographic(a.drop_first(), b.drop_first(), k - 1);
    }
}

/// A sorted track runs forward in time: its timestamps never decrease.
pub proof fn law_track_is_chronological(points: Seq<GpsPoint>, sorted: Seq<GpsPoint>)
    requires
        is_time_ordering_of(points, sorted),
    ensures
        sorted.len() == points.len(),
        forall|k: int, l: int|
            0 <= k < l < sorted.len() ==> (#[trigger] sorted[k]).timestamp <= (
            #[trigger] sorted[l]).timestamp,
{
    let keys = timestamps(points);
    let n = points.len() as int;
    let p = choose|perm: Seq<int>|
        {
            &&& is_index_permutation(perm, n)
            &&& stably_ordered_by_key(keys, perm)
            &&& sorted.len() == n
            &&& forall|k: int| 0 <= k < n ==> sorted[k] == points[#[trigger] perm[k]]
        };
    assert forall|k: int, l: int| 0 <= k < l < sorted.len() implies (#[trigger] sorted[k]).timestamp
        <= (#[trigger] sorted[l]).timestamp by {
        assert(key_before(keys, p[k], p[l]));
        assert(sorted[k] == points[p[k]]);
        assert(sorted[l] == points[p[l]]);
        assert(keys[p[k]] == points[p[k]].timestamp);
        assert(keys[p[l]] == points[p[l]].timestamp);
    }
}

/// A step's coordinates are exactly the latitude and longitude its location
/// records, bit for bit, present only when both are.
pub proof fn law_coordinates_are_the_location_bits(step: Step)
    ensures
        match step.location {
            Some(l) => match (l.lat_bits, l.lon_bits) {
                (Some(x), Some(y)) => step_coordinates(step) == Some((x, y)),
                _ => step_coordinates(step) is None,
            },
            None => step_coordinates(step) is None,
        },
{
}

/// A map marker stands exactly where its step's location says.
pub proof fn law_marker_is_at_the_step_location(e: EnrichedStep, m: MapMarker)
    requires
        is_marker_of(e, m),
    ensures
        e.step.location is Some,
        e.step.location->0.lat_bits == Some(m.lat_bits),
        e.step.location->0.lon_bits == Some(m.lon_bits),
        m.id == e.step.id,
        m.thumb@ == thumbnail_text(e.media@),
        m.location@ == e.location@,
{
}

/// The map is centred on the recorded latitude and longitude of one of the
/// steps, or on Paris when no step records both.
pub proof fn law_map_center_is_a_step_location(steps: Seq<EnrichedStep>)
    ensures
        map_center_of(steps) == (DEFAULT_CENTER_LAT_BITS, DEFAULT_CENTER_LON_BITS) || exists|i: int|
            0 <= i < steps.len() && (#[trigger] steps[i]).step.location is Some
                && steps[i].step.location->0.lat_bits == Some(map_center_of(steps).0)
                && steps[i].step.location->0.lon_bits == Some(map_center_of(steps).1),
        (forall|i: int|
            0 <= i < steps.len() ==> !((#[trigger] steps[i]).step.location is Some
                && steps[i].step.location->0.lat_bits is Some
                && steps[i].step.location->0.lon_bits is Some)) ==> map_center_of(steps) == (
            DEFAULT_CENTER_LAT_BITS,
            DEFAULT_CENTER_LON_BITS,
        ),
{
    lemma_first_coordinates(steps);
    if first_coordinates(steps) is Some {
        let i = choose|i: int|
            0 <= i < steps.len() && first_coordinates(steps) == step_coordinates(steps[i].step)
                && forall|j: int| 0 <= j < i ==> step_coordinates(#[trigger] steps[j].step) is None;
        law_coordinates_are_the_location_bits(steps[i].step);
        assert(steps[i].step.location is Some);
    } else {
        assert forall|i: int| 0 <= i < steps.len() implies !((#[trigger] steps[i]).step.location is Some
            && steps[i].step.location->0.lat_bits is Some
            && steps[i].step.location->0.lon_bits is Some) by {
            law_coordinates_are_the_location_bits(steps[i].step);
        }
    }
}

/// A step page shows the step's own title, description and date: the
/// description unchanged (empty when there is none), the display name as
/// title (`Étape sans titre` when there is none).
pub proof fn law_step_page_shows_the_step(steps: Seq<EnrichedStep>, i: int, p: StepPage)
    requires
        0 <= i < steps.len(),
        is_page_of(steps, i, p),
    ensures
        match steps[i].step.description {
            Some(d) => p.description@ == d@,
            None => p.description@.len() == 0,
        },
        match steps[i].step.display_name {
            Some(n) => p.title@ == n@,
            None => p.title@ == "Étape sans titre"@,
        },
        p.date == steps[i].step.start_time,
        p.location@ == steps[i].location@,
        p.weather@ == steps[i].weather@,
        p.media@ == steps[i].media@,
        p.number == i + 1,
        p.steps_len == steps.len(),
        p.coordinates == step_coordinates(steps[i].step),
        p.file_name@ == page_file_text(steps[i].step),
        i == 0 <==> p.prev is None,
        i > 0 ==> p.prev->0.id == steps[i - 1].step.id,
        i + 1 == steps.len() <==> p.next is None,
        i + 1 < steps.len() ==> p.next->0.id == steps[i + 1].step.id,
{
}

/// The location line: with a two-letter ASCII country code, the two
/// regional-indicator characters of its letters, a space, and the
/// location's name (`Lieu inconnu` when it has none), whatever else the
/// location records; otherwise the globe alone.
pub proof fn law_location_line(step: Step)
    ensures
        match step.location {
            Some(l) => match l.country_code {
                Some(c) => if c@.len() == 2 && (0x41 <= c@[0] as u32 <= 0x5A || 0x61 <= c@[0] as u32
                    <= 0x7A) && (0x41 <= c@[1] as u32 <= 0x5A || 0x61 <= c@[1] as u32 <= 0x7A) {
                    location_text(step) == seq![
                        ((c@[0] as u32) + 0x1F1A5) as char,
                        ((c@[1] as u32) + 0x1F1A5) as char,
                        ' ',
                    ] + match l.name {
                        Some(n) => n@,
                        None => "Lieu inconnu"@,
                    }
                } else {
                    location_text(step) == "🌍"@
                },
                None => location_text(step) == "🌍"@,
            },
            None => location_text(step) == "🌍"@,
        },
{
    reveal_strlit(" ");
    match step.location {
        Some(l) => match l.country_code {
            Some(c) => {
                let name = match l.name {
                    Some(n) => n@,
                    None => "Lieu inconnu"@,
                };
                assert(seq![flag_char(c@[0]), flag_char(c@[1])] + " "@ + name =~= seq![
                    ((c@[0] as u32) + 0x1F1A5) as char,
                    ((c@[1] as u32) + 0x1F1A5) as char,
                    ' ',
                ] + name);
            },
            None => {},
        },
        None => {},
    }
}


/// Among media of a listing, one comes before another only when its file
/// name is not greater in byte order, and on equal names only when it was
/// listed first (photos are listed before videos).
pub proof fn law_name_order_breaks_ties_by_listing(names: Seq<Seq<u8>>, i: int, j: int)
    requires
        name_before(names, i, j),
    ensures
        !bytes_lt(names[j], names[i]),
        names[i] == names[j] ==> i < j,
        i != j,
{
    lemma_bytes_lt_irreflexive(names[i]);
    if bytes_lt(names[i], names[j]) && bytes_lt(names[j], names[i]) {
        lemma_bytes_lt_transitive(names[i], names[j], names[i]);
    }
}

/// The files of a listing are its photos, then its videos, with their kinds;
/// each media entry's path is its file name read as UTF-8, or empty when the
/// name is not valid UTF-8.
pub proof fn law_listing_entries(l: MediaListing, i: int, m: Media)
    requires
        0 <= i < l.photos@.len() + l.videos@.len(),
        is_media_of_entry(l, i, m),
    ensures
        i < l.photos@.len() ==> m.kind == MediaKind::Photo && listing_names(l)[i]
            == l.photos@[i]@,
        i >= l.photos@.len() ==> m.kind == MediaKind::Video && listing_names(l)[i]
            == l.videos@[i - l.photos@.len()]@,
        valid_utf8(listing_names(l)[i]) ==> m.relative_path@ == decode_utf8(listing_names(l)[i]),
        !valid_utf8(listing_names(l)[i]) ==> m.relative_path@.len() == 0,
{
}

/// The value of a string of decimal digits.
pub open spec fn digits_value(s: Seq<char>) -> int
    decreases s.len(),
{
    if s.len() == 0 {
        0
    } else {
        digits_value(s.drop_last()) * 10 + ((s.last() as u32) - 48)
    }
}

/// The decimal notation of a number is a non-empty string of digits
/// `0`-`9`, without a leading zero unless the number is zero, whose value is
/// the number.
pub proof fn law_decimal_notation(n: nat)
    ensures
        decimal(n).len() >= 1,
        forall|k: int|
            0 <= k < decimal(n).len() ==> 48 <= (#[trigger] decimal(n)[k]) as u32 <= 57,
        decimal(n)[0] == '0' ==> n == 0,
        digits_value(decimal(n)) == n,
    decreases n,
{
    if n >= 10 {
        law_decimal_notation(n / 10);
        let d = decimal(n);
        assert(d.drop_last() =~= decimal(n / 10));
        assert(d[0] == decimal(n / 10)[0]);
        assert forall|k: int| 0 <= k < d.len() implies 48 <= (#[trigger] d[k]) as u32 <= 57 by {
            if k < d.len() - 1 {
                assert(d[k] == decimal(n / 10)[k]);
            }
        }
        assert(d.last() == crate::text::digit_char((n % 10) as int));
        assert(((48 + (n % 10)) as u8) as char as u32 == 48 + (n % 10));
        assert(digits_value(d) == digits_value(decimal(n / 10)) * 10 + (n % 10));
        assert((n / 10) * 10 + n % 10 == n) by (nonlinear_arith);
    } else {
        let d = decimal(n);
        assert(d.drop_last() =~= Seq::<char>::empty());
        assert(((48 + n) as u8) as char as u32 == 48 + n);
        assert(digits_value(d.drop_last()) == 0);
        assert(d.last() == crate::text::digit_char(n as int));
        assert(digits_value(d) == n);
    }
}

/// The weather line: the icon of the recorded condition (☀️ clear-day,
/// ☁️ cloudy, 🌤️ partly-cloudy-day, 🌧️ rain, ❄️ snow, 🌡️ for any other or no
/// condition), a space, then the signed decimal temperature followed by
/// `°C`, or `-` when no temperature was recorded.
pub proof fn law_weather_line(step: Step)
    ensures
        weather_text(step) == ({
            let icon = match step.weather_condition {
                Some(c) => if c@ == "clear-day"@ {
                    "☀️"@
                } else if c@ == "cloudy"@ {
                    "☁️"@
                } else if c@ == "partly-cloudy-day"@ {
                    "🌤️"@
                } else if c@ == "rain"@ {
                    "🌧️"@
                } else if c@ == "snow"@ {
                    "❄️"@
                } else {
                    "🌡️"@
                },
                None => "🌡️"@,
            };
            icon + seq![' '] + match step.weather_temperature {
                Some(t) => (if t < 0 {
                    seq!['-'] + decimal((-t) as nat)
                } else {
                    decimal(t as nat)
                }) + seq!['°', 'C'],
                None => seq!['-'],
            }
        }),
{
    reveal_strlit(" ");
    reveal_strlit("°C");
    reveal_strlit("-");
}

/// Archive directory names: a step's is its slug (empty when it has none),
/// `_` and its id in decimal; a trip's is its slug, `_` and its id.
pub proof fn law_directory_names(step: Step, trip: Trip)
    ensures
        step_dir_text(step) == match step.slug {
            Some(s) => s@,
            None => Seq::<char>::empty(),
        } + seq!['_'] + decimal(step.id as nat),
        trip_key_text(trip) == trip.slug@ + seq!['_'] + decimal(trip.id as nat),
{
    reveal_strlit("_");
}

/// A step page is the file `step_<id>.html`, and a link to a step carries
/// its id and its display name (`Étape` when it has none).
pub proof fn law_page_names(step: Step, n: NavStep)
    requires
        is_nav_of(step, n),
    ensures
        page_file_text(step) == seq!['s', 't', 'e', 'p', '_'] + decimal(step.id as nat) + seq![
            '.',
            'h',
            't',
            'm',
            'l',
        ],
        n.id == step.id,
        match step.display_name {
            Some(d) => n.name@ == d@,
            None => n.name@ == "Étape"@,
        },
{
    reveal_strlit("step_");
    reveal_strlit(".html");
}

/// A copy job takes a photo from the step's `photos` directory and a video
/// from its `videos` directory, under the step's directory name, keeps the
/// file name, and makes a thumbnail exactly for photos.
pub proof fn law_copy_job_paths(e: EnrichedStep, m: Media, job: MediaCopyJob)
    requires
        is_job_of(e, m, job),
    ensures
        job.step_dir@ == e.dir_name@,
        job.file_name@ == m.relative_path@,
        m.kind == MediaKind::Photo ==> job.source_dir@ == seq!['p', 'h', 'o', 't', 'o', 's']
            && job.make_thumbnail,
        m.kind == MediaKind::Video ==> job.source_dir@ == seq!['v', 'i', 'd', 'e', 'o', 's']
            && !job.make_thumbnail,
{
    reveal_strlit("photos");
    reveal_strlit("videos");
}

/// A step summary carries the step's date, location and weather lines, and
/// the thumbnail of its first photo.
pub proof fn law_summary_of_step(e: EnrichedStep, s: StepSummary)
    requires
        is_summary_of(e, s),
    ensures
        s.date == e.step.start_time,
        s.location@ == e.location@,
        s.weather@ == e.weather@,
        s.thumb@ == thumbnail_text(e.media@),
{
}

/// The map link of a step page points OpenStreetMap at the given latitude
/// and longitude, as a marker and as the centre of a zoom-13 map.
pub proof fn law_osm_link(lat: Seq<char>, lon: Seq<char>)
    ensures
        osm_link_text(lat, lon) == "https://www.openstreetmap.org/?mlat="@ + lat + "&mlon="@ + lon
            + "#map=13/"@ + lat + "/"@ + lon,
{
}


/// An enriched step keeps the step itself and carries its directory name,
/// location line, weather line and media in file name order.
pub proof fn law_enrichment_of_step(step: Step, l: MediaListing, e: EnrichedStep)
    requires
        is_enrichment_of(step, l, e),
    ensures
        e.step == step,
        e.dir_name@ == step_dir_text(step),
        e.location@ == location_text(step),
        e.weather@ == weather_text(step),
        is_sorted_media_of(l, e.media@),
{
}

/// Dates are shown as day, month name and year.
pub proof fn law_date_pattern()
    ensures
        DATE_PATTERN@ == seq!['%', 'd', ' ', '%', 'B', ' ', '%', 'Y'],
{
    reveal_strlit("%d %B %Y");
}

} // verus!
