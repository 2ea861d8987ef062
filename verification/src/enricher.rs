//! What the site shows of each step beyond the journal itself: its media in
//! file name order, a flag and place name, and a weather line.
use vstd::prelude::*;

use crate::model::{EnrichedStep, Media, MediaKind, Step, Trip};
use crate::order::{
    as_ints, byte_strings, is_index_permutation, lemma_byte_strings_push, sort_indices_by_name, stably_ordered_by_name,
};
use crate::text::{
    char_from_u32, decimal, push_char, push_decimal, push_signed_decimal, same_text,
    signed_decimal, str_from_utf8, utf8_or_empty,
};

verus! {

/// The text of an optional string.
pub open spec fn opt_text(o: Option<String>) -> Option<Seq<char>> {
    match o {
        Some(s) => Some(s@),
        None => None,
    }
}

/// The text of an optional string slice.
pub open spec fn opt_str_text(o: Option<&str>) -> Option<Seq<char>> {
    match o {
        Some(s) => Some(s@),
        None => None,
    }
}

/// The icon shown for a weather condition.
pub open spec fn weather_icon_text(condition: Option<Seq<char>>) -> Seq<char> {
    match condition {
        Some(c) => if c == "clear-day"@ {
            "☀️"@
        } else if c == "cloudy"@ {
            "☁️"@
        } else if c == "partly-cloudy-day"@ {
            "🌤️"@
        } else if c == "rain"@ {
            "🌧️"@
        } else if c == "snow"@ {
            "❄️"@
        } else {
            "🌡️"@
        },
        None => "🌡️"@,
    }
}

/// The weather line of a step: icon, a space, then the temperature in degrees
/// Celsius, or `-` when none was recorded.
pub open spec fn weather_text(step: Step) -> Seq<char> {
    weather_icon_text(opt_text(step.weather_condition)) + " "@ + match step.weather_temperature {
        Some(t) => signed_decimal(t as int) + "°C"@,
        None => "-"@,
    }
}

/// An ASCII letter.
pub open spec fn is_ascii_letter(c: char) -> bool {
    (0x41 <= c as u32 <= 0x5A) || (0x61 <= c as u32 <= 0x7A)
}

/// Distance from `A` to the regional indicator symbol letter A.
pub const REGIONAL_INDICATOR_OFFSET: u32 = 0x1F1E6 - 0x41;

/// The character that stands `REGIONAL_INDICATOR_OFFSET` after `c`; for a
/// capital letter, its regional indicator symbol.
pub open spec fn flag_char(c: char) -> char {
    ((c as u32) + REGIONAL_INDICATOR_OFFSET) as char
}

/// The flag of a country code, when the code is two ASCII letters.
pub open spec fn country_flag(code: Option<Seq<char>>) -> Option<Seq<char>> {
    match code {
        Some(c) => if c.len() == 2 && is_ascii_letter(c[0]) && is_ascii_letter(c[1]) {
            Some(seq![flag_char(c[0]), flag_char(c[1])])
        } else {
            None
        },
        None => None,
    }
}

/// The country code of a step's location, if any.
pub open spec fn step_country_code(step: Step) -> Option<Seq<char>> {
    match step.location {
        Some(l) => opt_text(l.country_code),
        None => None,
    }
}

/// The place name of a step, or `Lieu inconnu` when it has none.
pub open spec fn step_place_name(step: Step) -> Seq<char> {
    match step.location {
        Some(l) => match l.name {
            Some(n) => n@,
            None => "Lieu inconnu"@,
        },
        None => "Lieu inconnu"@,
    }
}

/// The location line of a step: its flag, a space and its place name; or
/// a globe alone when the step has no country code of two ASCII letters.
pub open spec fn location_text(step: Step) -> Seq<char> {
    match country_flag(step_country_code(step)) {
        Some(flag) => flag + " "@ + step_place_name(step),
        None => "🌍"@,
    }
}

/// The name of a step's directory in the archive: its slug (empty when it
/// has none), an underscore, its id.
pub open spec fn step_dir_text(step: Step) -> Seq<char> {
    let slug = match step.slug {
        Some(s) => s@,
        None => Seq::<char>::empty(),
    };
    slug + "_"@ + decimal(step.id as nat)
}

/// The icon shown for a weather condition.
pub fn weather_icon(condition: Option<&str>) -> (r: &'static str)
    ensures
        r@ == weather_icon_text(opt_str_text(condition)),
{
    match condition {
        Some(c) => {
            if same_text(c, "clear-day") {
                "☀️"
            } else if same_text(c, "cloudy") {
                "☁️"
            } else if same_text(c, "partly-cloudy-day") {
                "🌤️"
            } else if same_text(c, "rain") {
                "🌧️"
            } else if same_text(c, "snow") {
                "❄️"
            } else {
                "🌡️"
            }
        },
        None => "🌡️",
    }
}

/// Whether a character is an ASCII letter.
fn ascii_letter(c: char) -> (r: bool)
    ensures
        r == is_ascii_letter(c),
{
    let v: u32 = c as u32;
    (0x41 <= v && v <= 0x5A) || (0x61 <= v && v <= 0x7A)
}

/// Appends the regional indicator counterpart of an ASCII letter.
fn push_flag_char(s: &mut String, c: char)
    requires
        is_ascii_letter(c),
    ensures
        final(s)@ == old(s)@.push(flag_char(c)),
{
    let v: u32 = c as u32 + REGIONAL_INDICATOR_OFFSET;
    match char_from_u32(v) {
        Some(f) => {
            proof {
                vstd::utf8::char_u32_cast(f, v);
            }
            push_char(s, f);
        },
        None => {},
    }
}

/// The location line of a step: the flag of its country, a space and its
/// place name (or `Lieu inconnu`); a globe alone when the step has no
/// country code of two ASCII letters.
pub fn generate_location(s: &Step) -> (r: String)
    ensures
        r@ == location_text(*s),
{
    let code: Option<&String> = match &s.location {
        Some(l) => match &l.country_code {
            Some(c) => Some(c),
            None => None,
        },
        None => None,
    };
    let iso_code = match code {
        Some(c) => c.as_str(),
        None => {
            return String::from_str("🌍");
        },
    };
    if iso_code.unicode_len() != 2 {
        return String::from_str("🌍");
    }
    let c0 = iso_code.get_char(0);
    let c1 = iso_code.get_char(1);
    if !(ascii_letter(c0) && ascii_letter(c1)) {
        return String::from_str("🌍");
    }
    let mut out = String::new();
    push_flag_char(&mut out, c0);
    push_flag_char(&mut out, c1);
    assert(out@ =~= seq![flag_char(c0), flag_char(c1)]);
    out.append(" ");
    match &s.location {
        Some(l) => match &l.name {
            Some(n) => out.append(n.as_str()),
            None => out.append("Lieu inconnu"),
        },
        None => out.append("Lieu inconnu"),
    }
    out
}

/// The weather line of a step.
pub fn weather_label(s: &Step) -> (r: String)
    ensures
        r@ == weather_text(*s),
{
    let condition: Option<&str> = match &s.weather_condition {
        Some(c) => Some(c.as_str()),
        None => None,
    };
    let mut out = String::new();
    out.append(weather_icon(condition));
    out.append(" ");
    match s.weather_temperature {
        Some(t) => {
            push_signed_decimal(&mut out, t as i64);
            out.append("°C");
        },
        None => out.append("-"),
    }
    assert(out@ =~= weather_text(*s));
    out
}

/// The name of a step's directory in the archive.
pub fn step_dir_name(s: &Step) -> (r: String)
    ensures
        r@ == step_dir_text(*s),
{
    let mut out = String::new();
    if let Some(slug) = &s.slug {
        out.append(slug.as_str());
    }
    out.append("_");
    push_decimal(&mut out, s.id);
    assert(out@ =~= step_dir_text(*s));
    out
}

/// The file names found in the two media directories of a step, as raw
/// bytes, each directory in the order it was read.
pub struct MediaListing {
    pub photos: Vec<Vec<u8>>,
    pub videos: Vec<Vec<u8>>,
}

/// The file names of a listing, photos first.
pub open spec fn listing_names(l: MediaListing) -> Seq<Seq<u8>> {
    byte_strings(l.photos@) + byte_strings(l.videos@)
}

/// The kind of the `i`-th file of a listing.
pub open spec fn listing_kind(l: MediaListing, i: int) -> MediaKind {
    if i < l.photos@.len() {
        MediaKind::Photo
    } else {
        MediaKind::Video
    }
}

/// `m` is the media entry of the `i`-th file of a listing: same kind, and
/// the file name read as UTF-8 (empty when it is not valid UTF-8).
pub open spec fn is_media_of_entry(l: MediaListing, i: int, m: Media) -> bool {
    m.kind == listing_kind(l, i) && m.relative_path@ == utf8_or_empty(listing_names(l)[i])
}

/// `media` holds one entry for each file of the listing, sorted by file name
/// (byte order), photos before videos of the same name.
pub open spec fn is_sorted_media_of(l: MediaListing, media: Seq<Media>) -> bool {
    let n: int = listing_names(l).len() as int;
    exists|perm: Seq<int>|
        {
            &&& is_index_permutation(perm, n)
            &&& stably_ordered_by_name(listing_names(l), perm)
            &&& media.len() == n
            &&& forall|k: int| 0 <= k < n ==> is_media_of_entry(l, #[trigger] perm[k], media[k])
        }
}

/// The text of a file name.
fn file_name_text(name: &Vec<u8>) -> (r: String)
    ensures
        r@ == utf8_or_empty(name@),
{
    match str_from_utf8(name.as_slice()) {
        Some(s) => s.to_owned(),
        None => String::new(),
    }
}

/// The media of a step: photos and videos together, sorted by file name.
pub fn load_step_media(listing: &MediaListing) -> (r: Vec<Media>)
    requires
        listing.photos.len() + listing.videos.len() <= usize::MAX,
    ensures
        is_sorted_media_of(*listing, r@),
{
    let ghost names = listing_names(*listing);
    let np: usize = listing.photos.len();
    let mut all: Vec<Vec<u8>> = Vec::new();
    let mut i: usize = 0;
    while i < np
        invariant
            i <= np,
            np == listing.photos.len(),
            byte_strings(all@) =~= byte_strings(listing.photos@).subrange(0, i as int),
        decreases np - i,
    {
        let v = vstd::slice::slice_to_vec(listing.photos[i].as_slice());
        proof {
            lemma_byte_strings_push(all@, v);
            assert(byte_strings(listing.photos@)[i as int] == v@);
        }
        all.push(v);
        i = i + 1;
        assert(byte_strings(all@) =~= byte_strings(listing.photos@).subrange(0, i as int));
    }
    let nv: usize = listing.videos.len();
    let mut j: usize = 0;
    while j < nv
        invariant
            j <= nv,
            nv == listing.videos.len(),
            np == listing.photos.len(),
            all.len() == np + j,
            byte_strings(all@) =~= byte_strings(listing.photos@) + byte_strings(
                listing.videos@,
            ).subrange(0, j as int),
        decreases nv - j,
    {
        let v = vstd::slice::slice_to_vec(listing.videos[j].as_slice());
        proof {
            lemma_byte_strings_push(all@, v);
            assert(byte_strings(listing.videos@)[j as int] == v@);
        }
        all.push(v);
        j = j + 1;
        assert(byte_strings(all@) =~= byte_strings(listing.photos@) + byte_strings(
            listing.videos@,
        ).subrange(0, j as int));
    }
    assert(byte_strings(all@) =~= names);
    let perm = sort_indices_by_name(&all);
    let ghost p = as_ints(perm@);
    let n: usize = perm.len();
    let mut out: Vec<Media> = Vec::new();
    let mut k: usize = 0;
    while k < n
        invariant
            k <= n,
            n == perm.len(),
            n == all.len(),
            n == names.len(),
            np == listing.photos.len(),
            names == listing_names(*listing),
            byte_strings(all@) == names,
            p == as_ints(perm@),
            is_index_permutation(p, n as int),
            out.len() == k,
            forall|q: int| 0 <= q < k ==> is_media_of_entry(*listing, #[trigger] p[q], out@[q]),
        decreases n - k,
    {
        let idx: usize = perm[k];
        assert(p[k as int] == idx as int);
        let kind = if idx < np {
            MediaKind::Photo
        } else {
            MediaKind::Video
        };
        assert(all@[idx as int]@ == names[idx as int]);
        let path = file_name_text(&all[idx]);
        out.push(Media { kind, relative_path: path });
        k = k + 1;
    }
    assert(is_index_permutation(p, names.len() as int) && stably_ordered_by_name(names, p)
        && out@.len() == names.len() && forall|q: int|
        0 <= q < names.len() ==> is_media_of_entry(*listing, #[trigger] p[q], out@[q]));
    out
}

/// A step with its media, directory name, location line and weather line.
pub open spec fn is_enrichment_of(step: Step, l: MediaListing, e: EnrichedStep) -> bool {
    &&& e.step == step
    &&& is_sorted_media_of(l, e.media@)
    &&& e.dir_name@ == step_dir_text(step)
    &&& e.location@ == location_text(step)
    &&& e.weather@ == weather_text(step)
}

/// What the site shows of one step, given the files of its media
/// directories.
pub fn enrich_step(step: &Step, listing: &MediaListing) -> (r: EnrichedStep)
    requires
        listing.photos.len() + listing.videos.len() <= usize::MAX,
    ensures
        is_enrichment_of(*step, *listing, r),
{
    let dir_name = step_dir_name(step);
    let media = load_step_media(listing);
    let location = generate_location(step);
    let weather = weather_label(step);
    EnrichedStep { step: step.duplicate(), media, dir_name, location, weather }
}

/// Each listing can be merged into one vector.
pub open spec fn listings_fit(listings: Seq<MediaListing>) -> bool {
    forall|i: int|
        0 <= i < listings.len() ==> #[trigger] listings[i].photos@.len()
            + listings[i].videos@.len() <= usize::MAX
}

/// Enriches every step of a trip, in order; `listings[i]` holds the files of
/// the media directories of step `i`. The trip is handed back unchanged.
pub fn enrich_steps(trip: Trip, listings: &Vec<MediaListing>) -> (r: (Trip, Vec<EnrichedStep>))
    requires
        listings.len() == trip.steps.len(),
        listings_fit(listings@),
    ensures
        r.0 == trip,
        r.1.len() == trip.steps.len(),
        forall|i: int|
            0 <= i < trip.steps.len() ==> is_enrichment_of(
                trip.steps@[i],
                listings@[i],
                #[trigger] r.1@[i],
            ),
{
    let mut enriched: Vec<EnrichedStep> = Vec::new();
    let n: usize = trip.steps.len();
    let mut i: usize = 0;
    while i < n
        invariant
            i <= n,
            n == trip.steps.len(),
            listings.len() == n,
            listings_fit(listings@),
            enriched.len() == i,
            forall|k: int|
                0 <= k < i ==> is_enrichment_of(
                    trip.steps@[k],
                    listings@[k],
                    #[trigger] enriched@[k],
                ),
        decreases n - i,
    {
        assert(listings@[i as int].photos@.len() + listings@[i as int].videos@.len() <= usize::MAX);
        let e = enrich_step(&trip.steps[i], &listings[i]);
        enriched.push(e);
        i = i + 1;
    }
    (trip, enriched)
}

} // verus!
