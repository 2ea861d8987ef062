//! What the pages of a trip show, decided from the enriched steps: the step
//! summaries and map of the trip page, each step page with its navigation,
//! and the media files to copy.
use vstd::prelude::*;

use crate::model::{EnrichedStep, Media, MediaKind, Step, Trip};
use crate::text::{decimal, push_decimal};

verus! {

/// Largest width of a thumbnail, in pixels.
pub const THUMBNAIL_MAX_WIDTH: u32 = 400;

/// Largest height of a thumbnail, in pixels.
pub const THUMBNAIL_MAX_HEIGHT: u32 = 300;

/// JPEG quality of thumbnails.
pub const THUMBNAIL_QUALITY: i32 = 75;

/// Bit pattern of 48.8566, the latitude of Paris, where the map of a trip
/// without coordinates is centred.
pub const DEFAULT_CENTER_LAT_BITS: u64 = 0x40486da5119ce076;

/// Bit pattern of 2.3522, the longitude of Paris.
pub const DEFAULT_CENTER_LON_BITS: u64 = 0x4002d14e3bcd35a8;

/// The thumbnail of a list of media: `thumbnails/` and the path of its first
/// photo, or the empty text when it has no photo.
pub open spec fn thumbnail_text(media: Seq<Media>) -> Seq<char>
    decreases media.len(),
{
    if media.len() == 0 {
        Seq::empty()
    } else if media[0].kind == MediaKind::Photo {
        "thumbnails/"@ + media[0].relative_path@
    } else {
        thumbnail_text(media.drop_first())
    }
}

/// The coordinates of a step: present when its location has both a latitude
/// and a longitude.
pub open spec fn step_coordinates(step: Step) -> Option<(u64, u64)> {
    match step.location {
        Some(l) => match (l.lat_bits, l.lon_bits) {
            (Some(lat), Some(lon)) => Some((lat, lon)),
            _ => None,
        },
        None => None,
    }
}

/// The thumbnail of a list of media.
pub fn step_thumbnail(media: &Vec<Media>) -> (r: String)
    ensures
        r@ == thumbnail_text(media@),
{
    let mut i: usize = 0;
    assert(media@.skip(0) =~= media@);
    while i < media.len()
        invariant
            i <= media.len(),
            thumbnail_text(media@) == thumbnail_text(media@.skip(i as int)),
        decreases media.len() - i,
    {
        if media[i].kind == MediaKind::Photo {
            let mut out = String::new();
            out.append("thumbnails/");
            out.append(media[i].relative_path.as_str());
            return out;
        }
        assert(media@.skip(i as int).drop_first() =~= media@.skip(i + 1));
        i = i + 1;
    }
    String::new()
}

/// The coordinates of a step.
pub fn coordinates_of(step: &Step) -> (r: Option<(u64, u64)>)
    ensures
        r == step_coordinates(*step),
{
    match &step.location {
        Some(l) => match (l.lat_bits, l.lon_bits) {
            (Some(lat), Some(lon)) => Some((lat, lon)),
            _ => None,
        },
        None => None,
    }
}

/// What the trip page shows of a step beside the step itself.
pub struct StepSummary {
    /// Path of the thumbnail, empty when the step has no photo.
    pub thumb: String,
    /// Seconds since the Unix epoch.
    pub date: i64,
    pub location: String,
    pub weather: String,
}

/// `s` summarizes the enriched step `e`.
pub open spec fn is_summary_of(e: EnrichedStep, s: StepSummary) -> bool {
    &&& s.thumb@ == thumbnail_text(e.media@)
    &&& s.date == e.step.start_time
    &&& s.location@ == e.location@
    &&& s.weather@ == e.weather@
}

/// The summary of an enriched step.
pub fn step_summary(e: &EnrichedStep) -> (r: StepSummary)
    ensures
        is_summary_of(*e, r),
{
    StepSummary {
        thumb: step_thumbnail(&e.media),
        date: e.step.start_time,
        location: e.location.clone(),
        weather: e.weather.clone(),
    }
}

/// The summaries of all steps, in order.
pub fn step_summaries(steps: &Vec<EnrichedStep>) -> (r: Vec<StepSummary>)
    ensures
        r.len() == steps.len(),
        forall|i: int| 0 <= i < steps.len() ==> is_summary_of(steps@[i], #[trigger] r@[i]),
{
    let mut out: Vec<StepSummary> = Vec::new();
    let mut i: usize = 0;
    while i < steps.len()
        invariant
            i <= steps.len(),
            out.len() == i,
            forall|k: int| 0 <= k < i ==> is_summary_of(steps@[k], #[trigger] out@[k]),
        decreases steps.len() - i,
    {
        out.push(step_summary(&steps[i]));
        i = i + 1;
    }
    out
}

/// A marker of the trip map.
pub struct MapMarker {
    pub id: u64,
    /// Bit pattern of the latitude in degrees.
    pub lat_bits: u64,
    /// Bit pattern of the longitude in degrees.
    pub lon_bits: u64,
    pub thumb: String,
    pub location: String,
}

/// The indices of the steps that have coordinates, in order.
pub open spec fn located_steps(steps: Seq<EnrichedStep>) -> Seq<int>
    decreases steps.len(),
{
    if steps.len() == 0 {
        Seq::empty()
    } else {
        let rest = located_steps(steps.drop_last());
        if step_coordinates(steps.last().step) is Some {
            rest.push(steps.len() - 1)
        } else {
            rest
        }
    }
}

/// `m` is the marker of the enriched step `e`.
pub open spec fn is_marker_of(e: EnrichedStep, m: MapMarker) -> bool {
    &&& step_coordinates(e.step) == Some((m.lat_bits, m.lon_bits))
    &&& m.id == e.step.id
    &&& m.thumb@ == thumbnail_text(e.media@)
    &&& m.location@ == e.location@
}

/// One marker for each step that has coordinates, in the order of the steps.
pub fn map_markers(steps: &Vec<EnrichedStep>) -> (r: Vec<MapMarker>)
    ensures
        r.len() == located_steps(steps@).len(),
        forall|j: int|
            0 <= j < r.len() ==> is_marker_of(steps@[located_steps(steps@)[j]], #[trigger] r@[j]),
{
    let mut out: Vec<MapMarker> = Vec::new();
    let mut i: usize = 0;
    assert(steps@.subrange(0, 0) =~= Seq::<EnrichedStep>::empty());
    while i < steps.len()
        invariant
            i <= steps.len(),
            out.len() == located_steps(steps@.subrange(0, i as int)).len(),
            forall|j: int|
                0 <= j < out.len() ==> {
                    let k: int = #[trigger] located_steps(steps@.subrange(0, i as int))[j];
                    0 <= k < i && is_marker_of(steps@[k], out@[j])
                },
        decreases steps.len() - i,
    {
        let ghost before = located_steps(steps@.subrange(0, i as int));
        assert(steps@.subrange(0, i + 1).drop_last() =~= steps@.subrange(0, i as int));
        let e = &steps[i];
        match coordinates_of(&e.step) {
            Some((lat, lon)) => {
                out.push(
                    MapMarker {
                        id: e.step.id,
                        lat_bits: lat,
                        lon_bits: lon,
                        thumb: step_thumbnail(&e.media),
                        location: e.location.clone(),
                    },
                );
                assert(located_steps(steps@.subrange(0, i + 1)) == before.push(i as int));
            },
            None => {
                assert(located_steps(steps@.subrange(0, i + 1)) == before);
            },
        }
        i = i + 1;
    }
    assert(steps@.subrange(0, steps.len() as int) =~= steps@);
    out
}

/// The coordinates of the first step that has some.
pub open spec fn first_coordinates(steps: Seq<EnrichedStep>) -> Option<(u64, u64)>
    decreases steps.len(),
{
    if steps.len() == 0 {
        None
    } else if step_coordinates(steps[0].step) is Some {
        step_coordinates(steps[0].step)
    } else {
        first_coordinates(steps.drop_first())
    }
}

/// Where the trip map is centred: the coordinates of the first step that has
/// some, or Paris.
pub open spec fn map_center_of(steps: Seq<EnrichedStep>) -> (u64, u64) {
    match first_coordinates(steps) {
        Some(c) => c,
        None => (DEFAULT_CENTER_LAT_BITS, DEFAULT_CENTER_LON_BITS),
    }
}

/// Where the trip map is centred.
pub fn map_center(steps: &Vec<EnrichedStep>) -> (r: (u64, u64))
    ensures
        r == map_center_of(steps@),
{
    let mut i: usize = 0;
    assert(steps@.skip(0) =~= steps@);
    while i < steps.len()
        invariant
            i <= steps.len(),
            first_coordinates(steps@) == first_coordinates(steps@.skip(i as int)),
        decreases steps.len() - i,
    {
        if let Some(c) = coordinates_of(&steps[i].step) {
            return c;
        }
        assert(steps@.skip(i as int).drop_first() =~= steps@.skip(i + 1));
        i = i + 1;
    }
    (DEFAULT_CENTER_LAT_BITS, DEFAULT_CENTER_LON_BITS)
}

/// A link from a step page to a neighbouring step.
pub struct NavStep {
    pub id: u64,
    pub name: String,
}

/// The name under which a neighbouring step is linked: its display name,
/// or `Étape`.
pub open spec fn nav_name(step: Step) -> Seq<char> {
    match step.display_name {
        Some(n) => n@,
        None => "Étape"@,
    }
}

/// `n` links to `step`.
pub open spec fn is_nav_of(step: Step, n: NavStep) -> bool {
    n.id == step.id && n.name@ == nav_name(step)
}

/// The link to a step.
pub fn nav_step(step: &Step) -> (r: NavStep)
    ensures
        is_nav_of(*step, r),
{
    let name = match &step.display_name {
        Some(n) => n.clone(),
        None => String::from_str("Étape"),
    };
    NavStep { id: step.id, name }
}

/// The title of a step page: the display name, or `Étape sans titre`.
pub open spec fn page_title(step: Step) -> Seq<char> {
    match step.display_name {
        Some(n) => n@,
        None => "Étape sans titre"@,
    }
}

/// The description of a step page, empty when the step has none.
pub open spec fn page_description(step: Step) -> Seq<char> {
    match step.description {
        Some(d) => d@,
        None => Seq::empty(),
    }
}

/// The file name of a step page: `step_`, the step id, `.html`.
pub open spec fn page_file_text(step: Step) -> Seq<char> {
    "step_"@ + decimal(step.id as nat) + ".html"@
}

/// Everything a step page shows.
pub struct StepPage {
    /// Position of the step in the trip, from 1.
    pub number: usize,
    pub title: String,
    /// Seconds since the Unix epoch.
    pub date: i64,
    pub location: String,
    pub weather: String,
    pub description: String,
    pub media: Vec<Media>,
    /// Where the map link points, when the step has coordinates.
    pub coordinates: Option<(u64, u64)>,
    pub prev: Option<NavStep>,
    pub next: Option<NavStep>,
    pub steps_len: usize,
    pub file_name: String,
}

/// `n` links to `step` when there is one, and is absent otherwise.
pub open spec fn is_opt_nav_of(step: Option<Step>, n: Option<NavStep>) -> bool {
    match (step, n) {
        (Some(s), Some(m)) => is_nav_of(s, m),
        (None, None) => true,
        _ => false,
    }
}

/// The step before position `i`, if any.
pub open spec fn prev_step(steps: Seq<EnrichedStep>, i: int) -> Option<Step> {
    if 0 < i {
        Some(steps[i - 1].step)
    } else {
        None
    }
}

/// The step after position `i`, if any.
pub open spec fn next_step(steps: Seq<EnrichedStep>, i: int) -> Option<Step> {
    if i + 1 < steps.len() {
        Some(steps[i + 1].step)
    } else {
        None
    }
}

/// `p` is the page of step `i`.
pub open spec fn is_page_of(steps: Seq<EnrichedStep>, i: int, p: StepPage) -> bool {
    let e = steps[i];
    &&& p.number == i + 1
    &&& p.title@ == page_title(e.step)
    &&& p.date == e.step.start_time
    &&& p.location@ == e.location@
    &&& p.weather@ == e.weather@
    &&& p.description@ == page_description(e.step)
    &&& p.media@ == e.media@
    &&& p.coordinates == step_coordinates(e.step)
    &&& is_opt_nav_of(prev_step(steps, i), p.prev)
    &&& is_opt_nav_of(next_step(steps, i), p.next)
    &&& p.steps_len == steps.len()
    &&& p.file_name@ == page_file_text(e.step)
}

/// The file name of a step page.
pub fn page_file_name(step: &Step) -> (r: String)
    ensures
        r@ == page_file_text(*step),
{
    let mut out = String::from_str("step_");
    push_decimal(&mut out, step.id);
    out.append(".html");
    out
}

/// The page of step `i`, linked to its neighbours.
pub fn step_page(steps: &Vec<EnrichedStep>, i: usize) -> (r: StepPage)
    requires
        i < steps.len(),
    ensures
        is_page_of(steps@, i as int, r),
{
    let e = &steps[i];
    let title = match &e.step.display_name {
        Some(n) => n.clone(),
        None => String::from_str("Étape sans titre"),
    };
    let description = match &e.step.description {
        Some(d) => d.clone(),
        None => String::new(),
    };
    let prev = if i > 0 {
        Some(nav_step(&steps[i - 1].step))
    } else {
        None
    };
    let next = if i + 1 < steps.len() {
        Some(nav_step(&steps[i + 1].step))
    } else {
        None
    };
    StepPage {
        number: i + 1,
        title,
        date: e.step.start_time,
        location: e.location.clone(),
        weather: e.weather.clone(),
        description,
        media: crate::model::duplicate_media(&e.media),
        coordinates: coordinates_of(&e.step),
        prev,
        next,
        steps_len: steps.len(),
        file_name: page_file_name(&e.step),
    }
}

/// The OpenStreetMap link of a step page, from the decimal texts of the
/// latitude and longitude.
pub open spec fn osm_link_text(lat: Seq<char>, lon: Seq<char>) -> Seq<char> {
    "https://www.openstreetmap.org/?mlat="@ + lat + "&mlon="@ + lon + "#map=13/"@ + lat + "/"@
        + lon
}

/// The OpenStreetMap link of a step page.
pub fn osm_link(lat: &str, lon: &str) -> (r: String)
    ensures
        r@ == osm_link_text(lat@, lon@),
{
    let mut out = String::from_str("https://www.openstreetmap.org/?mlat=");
    out.append(lat);
    out.append("&mlon=");
    out.append(lon);
    out.append("#map=13/");
    out.append(lat);
    out.append("/");
    out.append(lon);
    out
}

/// The name of a trip's directory in the archive: its slug, an underscore,
/// its id.
pub open spec fn trip_key_text(trip: Trip) -> Seq<char> {
    trip.slug@ + "_"@ + decimal(trip.id as nat)
}

/// The name of a trip's directory in the archive.
pub fn trip_key(trip: &Trip) -> (r: String)
    ensures
        r@ == trip_key_text(*trip),
{
    let mut out = trip.slug.clone();
    out.append("_");
    push_decimal(&mut out, trip.id);
    out
}

/// The archive directory that holds media of a kind.
pub open spec fn media_dir_text(kind: MediaKind) -> Seq<char> {
    match kind {
        MediaKind::Photo => "photos"@,
        MediaKind::Video => "videos"@,
    }
}

/// The archive directory that holds media of a kind.
pub fn media_dir(kind: MediaKind) -> (r: &'static str)
    ensures
        r@ == media_dir_text(kind),
{
    match kind {
        MediaKind::Photo => "photos",
        MediaKind::Video => "videos",
    }
}

/// One media file to bring into the site: from
/// `<archive>/<trip key>/<step_dir>/<source_dir>/<file_name>` to
/// `media/<file_name>`, with a thumbnail `thumbnails/<file_name>` for photos.
pub struct MediaCopyJob {
    pub step_dir: String,
    pub source_dir: String,
    pub file_name: String,
    pub make_thumbnail: bool,
}

/// The (step, media) positions of all media of the steps, step by step.
pub open spec fn media_positions(steps: Seq<EnrichedStep>) -> Seq<(int, int)>
    decreases steps.len(),
{
    if steps.len() == 0 {
        Seq::empty()
    } else {
        media_positions(steps.drop_last()) + Seq::new(
            steps.last().media@.len(),
            |j: int| (steps.len() - 1, j),
        )
    }
}

/// `job` brings in media `m` of the enriched step `e`.
pub open spec fn is_job_of(e: EnrichedStep, m: Media, job: MediaCopyJob) -> bool {
    &&& job.step_dir@ == e.dir_name@
    &&& job.source_dir@ == media_dir_text(m.kind)
    &&& job.file_name@ == m.relative_path@
    &&& job.make_thumbnail == (m.kind == MediaKind::Photo)
}

/// One job for each media of each step, step by step.
pub fn media_copy_jobs(steps: &Vec<EnrichedStep>) -> (r: Vec<MediaCopyJob>)
    ensures
        r.len() == media_positions(steps@).len(),
        forall|t: int|
            0 <= t < r.len() ==> {
                let (i, j) = #[trigger] media_positions(steps@)[t];
                &&& 0 <= i < steps.len()
                &&& 0 <= j < steps@[i].media@.len()
                &&& is_job_of(steps@[i], steps@[i].media@[j], r@[t])
            },
{
    let mut out: Vec<MediaCopyJob> = Vec::new();
    let mut i: usize = 0;
    assert(steps@.subrange(0, 0) =~= Seq::<EnrichedStep>::empty());
    while i < steps.len()
        invariant
            i <= steps.len(),
            out.len() == media_positions(steps@.subrange(0, i as int)).len(),
            forall|t: int|
                0 <= t < out.len() ==> {
                    let (a, b) = #[trigger] media_positions(steps@.subrange(0, i as int))[t];
                    &&& 0 <= a < i
                    &&& 0 <= b < steps@[a].media@.len()
                    &&& is_job_of(steps@[a], steps@[a].media@[b], out@[t])
                },
        decreases steps.len() - i,
    {
        let ghost before = media_positions(steps@.subrange(0, i as int));
        let ghost start = out.len();
        let e = &steps[i];
        let mut j: usize = 0;
        while j < e.media.len()
            invariant
                i < steps.len(),
                e == steps@[i as int],
                j <= e.media.len(),
                start == before.len(),
                out.len() == start + j,
                forall|t: int|
                    0 <= t < start ==> {
                        let (a, b) = #[trigger] before[t];
                        &&& 0 <= a < i
                        &&& 0 <= b < steps@[a].media@.len()
                        &&& is_job_of(steps@[a], steps@[a].media@[b], out@[t])
                    },
                forall|q: int| 0 <= q < j ==> is_job_of(*e, e.media@[q], #[trigger] out@[start + q]),
            decreases e.media.len() - j,
        {
            let m = &e.media[j];
            out.push(
                MediaCopyJob {
                    step_dir: e.dir_name.clone(),
                    source_dir: String::from_str(media_dir(m.kind)),
                    file_name: m.relative_path.clone(),
                    make_thumbnail: m.kind == MediaKind::Photo,
                },
            );
            assert(is_job_of(*e, e.media@[j as int], out@[start + j]));
            j = j + 1;
        }
        proof {
            let sub = steps@.subrange(0, i + 1);
            assert(sub.drop_last() =~= steps@.subrange(0, i as int));
            let now = media_positions(sub);
            assert(now == before + Seq::new(e.media@.len(), |q: int| (i as int, q)));
            assert forall|t: int| 0 <= t < out.len() implies {
                let (a, b) = #[trigger] now[t];
                &&& 0 <= a < i + 1
                &&& 0 <= b < steps@[a].media@.len()
                &&& is_job_of(steps@[a], steps@[a].media@[b], out@[t])
            } by {
                if t < start {
                    assert(now[t] == before[t]);
                } else {
                    assert(now[t] == (i as int, t - start));
                    assert(is_job_of(*e, e.media@[t - start], out@[start + (t - start)]));
                }
            }
        }
        i = i + 1;
    }
    assert(steps@.subrange(0, steps.len() as int) =~= steps@);
    out
}

/// What to do for one media file, given what already exists.
pub struct MediaActions {
    /// Copy the file into the site.
    pub copy: bool,
    /// Make its thumbnail.
    pub thumbnail: bool,
}

/// What to do for one media file: nothing when the source is missing;
/// otherwise copy it unless the copy exists, and make the thumbnail of a
/// photo unless it exists.
pub fn media_actions(
    make_thumbnail: bool,
    source_exists: bool,
    copy_exists: bool,
    thumbnail_exists: bool,
) -> (r: MediaActions)
    ensures
        r.copy == (source_exists && !copy_exists),
        r.thumbnail == (source_exists && make_thumbnail && !thumbnail_exists),
{
    if !source_exists {
        return MediaActions { copy: false, thumbnail: false };
    }
    MediaActions { copy: !copy_exists, thumbnail: make_thumbnail && !thumbnail_exists }
}

} // verus!
