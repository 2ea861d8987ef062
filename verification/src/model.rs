//! The data of a travel journal: trips, their steps, the media of each step
//! and the GPS track.
//!
//! Coordinates are carried as the IEEE-754 bit patterns of their `f64`
//! values (`f64::to_bits`): the library only decides whether a coordinate is
//! present and hands it on, it never computes with one.
use vstd::prelude::*;

use crate::text::copy_opt_string;

verus! {

/// Where a step took place.
#[derive(Debug)]
pub struct Location {
    pub name: Option<String>,
    /// Bit pattern of the latitude in degrees.
    pub lat_bits: Option<u64>,
    /// Bit pattern of the longitude in degrees.
    pub lon_bits: Option<u64>,
    pub detail: Option<String>,
    pub country_code: Option<String>,
}

/// One stop of a trip.
#[derive(Debug)]
pub struct Step {
    pub id: u64,
    pub display_name: Option<String>,
    pub description: Option<String>,
    /// Seconds since the Unix epoch.
    pub start_time: i64,
    pub location: Option<Location>,
    pub slug: Option<String>,
    pub weather_condition: Option<String>,
    /// Degrees Celsius.
    pub weather_temperature: Option<i8>,
}

/// A trip with its steps, in the order of the journal.
#[derive(Debug)]
pub struct Trip {
    pub id: u64,
    pub slug: String,
    pub name: String,
    /// Seconds since the Unix epoch.
    pub start_date: Option<i64>,
    /// Seconds since the Unix epoch.
    pub end_date: Option<i64>,
    pub summary: Option<String>,
    pub cover_photo_path: Option<String>,
    pub steps: Vec<Step>,
}

/// Whether a media file is a photo or a video.
#[derive(Debug, Clone, Copy, PartialEq, Eq, Structural)]
pub enum MediaKind {
    Photo,
    Video,
}

/// A media file of a step, by its file name.
#[derive(Debug)]
pub struct Media {
    pub kind: MediaKind,
    pub relative_path: String,
}

/// A step together with what the site shows of it.
#[derive(Debug)]
pub struct EnrichedStep {
    pub step: Step,
    /// The step's media, in file name order.
    pub media: Vec<Media>,
    /// Name of the step's directory in the archive.
    pub dir_name: String,
    /// Flag and place name.
    pub location: String,
    /// Weather icon and temperature.
    pub weather: String,
}

/// A point of the recorded GPS track.
#[derive(Debug, Clone, Copy)]
pub struct GpsPoint {
    /// Bit pattern of the latitude in degrees.
    pub lat_bits: u64,
    /// Bit pattern of the longitude in degrees.
    pub lon_bits: u64,
    /// Seconds since the Unix epoch.
    pub timestamp: i64,
}

/// The GPS track as an archive stores it.
#[derive(Debug)]
pub struct LocationsFile {
    pub locations: Vec<GpsPoint>,
}

impl Location {
    /// An identical location.
    pub fn duplicate(&self) -> (r: Location)
        ensures
            r == *self,
    {
        Location {
            name: copy_opt_string(&self.name),
            lat_bits: self.lat_bits,
            lon_bits: self.lon_bits,
            detail: copy_opt_string(&self.detail),
            country_code: copy_opt_string(&self.country_code),
        }
    }
}

impl Step {
    /// An identical step.
    pub fn duplicate(&self) -> (r: Step)
        ensures
            r == *self,
    {
        let location = match &self.location {
            Some(l) => Some(l.duplicate()),
            None => None,
        };
        Step {
            id: self.id,
            display_name: copy_opt_string(&self.display_name),
            description: copy_opt_string(&self.description),
            start_time: self.start_time,
            location,
            slug: copy_opt_string(&self.slug),
            weather_condition: copy_opt_string(&self.weather_condition),
            weather_temperature: self.weather_temperature,
        }
    }
}

impl Media {
    /// An identical media entry.
    pub fn duplicate(&self) -> (r: Media)
        ensures
            r == *self,
    {
        Media { kind: self.kind, relative_path: self.relative_path.clone() }
    }
}

/// Identical copies of a list of media entries.
pub fn duplicate_media(media: &Vec<Media>) -> (r: Vec<Media>)
    ensures
        r@ == media@,
{
    let mut out: Vec<Media> = Vec::new();
    let mut i: usize = 0;
    while i < media.len()
        invariant
            i <= media.len(),
            out@ == media@.subrange(0, i as int),
        decreases media.len() - i,
    {
        out.push(media[i].duplicate());
        i = i + 1;
        assert(out@ =~= media@.subrange(0, i as int));
    }
    assert(media@.subrange(0, media.len() as int) =~= media@);
    out
}

} // verus!
