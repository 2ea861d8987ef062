use polarust::enricher::{enrich_steps, MediaListing};
use polarust::model::{EnrichedStep, Location, Media, MediaKind, Step, Trip};
use polarust::site::{
    map_center, map_markers, media_actions, media_copy_jobs, media_dir, nav_step, osm_link,
    page_file_name, step_page, step_summaries, step_summary, step_thumbnail, trip_key,
    DEFAULT_CENTER_LAT_BITS, DEFAULT_CENTER_LON_BITS, THUMBNAIL_MAX_HEIGHT, THUMBNAIL_MAX_WIDTH,
    THUMBNAIL_QUALITY,
};

fn media(kind: MediaKind, path: &str) -> Media {
    Media { kind, relative_path: path.to_string() }
}

fn step(id: u64, lat: Option<f64>, lon: Option<f64>) -> Step {
    Step {
        id,
        display_name: None,
        description: None,
        start_time: 1000 + id as i64,
        location: Some(Location {
            name: Some(format!("place{id}")),
            lat_bits: lat.map(f64::to_bits),
            lon_bits: lon.map(f64::to_bits),
            detail: None,
            country_code: None,
        }),
        slug: Some(format!("s{id}")),
        weather_condition: None,
        weather_temperature: None,
    }
}

fn enriched(s: Step, m: Vec<Media>) -> EnrichedStep {
    EnrichedStep {
        dir_name: format!("{}_{}", s.slug.clone().unwrap_or_default(), s.id),
        location: format!("loc{}", s.id),
        weather: format!("w{}", s.id),
        step: s,
        media: m,
    }
}

#[test]
fn thumbnail_is_first_photo() {
    let m = vec![media(MediaKind::Video, "v.mp4"), media(MediaKind::Photo, "p1.jpg"), media(MediaKind::Photo, "p2.jpg")];
    assert_eq!(step_thumbnail(&m), "thumbnails/p1.jpg");
    assert_eq!(step_thumbnail(&vec![media(MediaKind::Video, "v.mp4")]), "");
    assert_eq!(step_thumbnail(&vec![]), "");
}

#[test]
fn summary_of_step() {
    let e = enriched(step(4, None, None), vec![media(MediaKind::Photo, "a.jpg")]);
    let s = step_summary(&e);
    assert_eq!(s.thumb, "thumbnails/a.jpg");
    assert_eq!(s.date, 1004);
    assert_eq!(s.location, "loc4");
    assert_eq!(s.weather, "w4");
    let all = step_summaries(&vec![e, enriched(step(5, None, None), vec![])]);
    assert_eq!(all.len(), 2);
    assert_eq!(all[1].thumb, "");
    assert_eq!(all[1].date, 1005);
}

#[test]
fn markers_only_for_steps_with_both_coordinates() {
    let steps = vec![
        enriched(step(1, Some(1.5), None), vec![]),
        enriched(step(2, Some(45.0), Some(7.25)), vec![media(MediaKind::Photo, "x.jpg")]),
        enriched(step(3, None, Some(3.0)), vec![]),
        enriched(step(4, Some(-10.0), Some(20.0)), vec![]),
    ];
    let markers = map_markers(&steps);
    assert_eq!(markers.len(), 2);
    assert_eq!(markers[0].id, 2);
    assert_eq!(f64::from_bits(markers[0].lat_bits), 45.0);
    assert_eq!(f64::from_bits(markers[0].lon_bits), 7.25);
    assert_eq!(markers[0].thumb, "thumbnails/x.jpg");
    assert_eq!(markers[0].location, "loc2");
    assert_eq!(markers[1].id, 4);
    assert_eq!(markers[1].thumb, "");
}

#[test]
fn step_without_location_has_no_marker() {
    let mut s = step(1, None, None);
    s.location = None;
    assert!(map_markers(&vec![enriched(s, vec![])]).is_empty());
}

#[test]
fn map_center_law_first_marker_or_paris() {
    let steps = vec![
        enriched(step(1, Some(1.5), None), vec![]),
        enriched(step(2, Some(45.0), Some(7.25)), vec![]),
        enriched(step(3, Some(-10.0), Some(20.0)), vec![]),
    ];
    let (lat, lon) = map_center(&steps);
    let markers = map_markers(&steps);
    assert_eq!((lat, lon), (markers[0].lat_bits, markers[0].lon_bits));
    assert_eq!(f64::from_bits(lat), 45.0);
    assert_eq!(f64::from_bits(lon), 7.25);
    let none = vec![enriched(step(1, None, Some(2.0)), vec![])];
    assert_eq!(map_center(&none), (DEFAULT_CENTER_LAT_BITS, DEFAULT_CENTER_LON_BITS));
    assert_eq!(f64::from_bits(DEFAULT_CENTER_LAT_BITS), 48.8566);
    assert_eq!(f64::from_bits(DEFAULT_CENTER_LON_BITS), 2.3522);
    assert_eq!(map_center(&vec![]), (48.8566f64.to_bits(), 2.3522f64.to_bits()));
}

#[test]
fn nav_link_names() {
    let mut s = step(8, None, None);
    assert_eq!(nav_step(&s).name, "Étape");
    assert_eq!(nav_step(&s).id, 8);
    s.display_name = Some("Col".to_string());
    assert_eq!(nav_step(&s).name, "Col");
}

#[test]
fn step_pages_link_up_law() {
    let mut first = step(10, Some(1.0), Some(2.0));
    first.display_name = Some("Départ".to_string());
    first.description = Some("Le début".to_string());
    let steps = vec![
        enriched(first, vec![media(MediaKind::Photo, "a.jpg")]),
        enriched(step(11, None, None), vec![]),
        enriched(step(12, None, None), vec![]),
    ];
    let p0 = step_page(&steps, 0);
    assert_eq!(p0.number, 1);
    assert_eq!(p0.title, "Départ");
    assert_eq!(p0.description, "Le début");
    assert_eq!(p0.date, 1010);
    assert_eq!(p0.location, "loc10");
    assert_eq!(p0.weather, "w10");
    assert_eq!(p0.media.len(), 1);
    assert_eq!(p0.coordinates, Some((1.0f64.to_bits(), 2.0f64.to_bits())));
    assert!(p0.prev.is_none());
    assert_eq!(p0.next.as_ref().map(|n| n.id), Some(11));
    assert_eq!(p0.steps_len, 3);
    assert_eq!(p0.file_name, "step_10.html");
    let p1 = step_page(&steps, 1);
    assert_eq!(p1.number, 2);
    assert_eq!(p1.title, "Étape sans titre");
    assert_eq!(p1.description, "");
    assert_eq!(p1.coordinates, None);
    assert_eq!(p1.prev.as_ref().map(|n| (n.id, n.name.clone())), Some((10, "Départ".to_string())));
    assert_eq!(p1.next.as_ref().map(|n| (n.id, n.name.clone())), Some((12, "Étape".to_string())));
    let p2 = step_page(&steps, 2);
    assert_eq!(p2.prev.as_ref().map(|n| n.id), Some(11));
    assert!(p2.next.is_none());
}

#[test]
fn page_file_names() {
    assert_eq!(page_file_name(&step(0, None, None)), "step_0.html");
    assert_eq!(page_file_name(&step(1234567, None, None)), "step_1234567.html");
}

#[test]
fn osm_link_format() {
    assert_eq!(
        osm_link("45.5", "-3.25"),
        "https://www.openstreetmap.org/?mlat=45.5&mlon=-3.25#map=13/45.5/-3.25"
    );
}

#[test]
fn trip_key_is_slug_and_id() {
    let trip = Trip {
        id: 77,
        slug: "japon".to_string(),
        name: "Japon".to_string(),
        start_date: None,
        end_date: None,
        summary: None,
        cover_photo_path: None,
        steps: vec![],
    };
    assert_eq!(trip_key(&trip), "japon_77");
}

#[test]
fn media_dirs_by_kind() {
    assert_eq!(media_dir(MediaKind::Photo), "photos");
    assert_eq!(media_dir(MediaKind::Video), "videos");
}

#[test]
fn copy_jobs_cover_all_media_law() {
    let steps = vec![
        enriched(step(1, None, None), vec![media(MediaKind::Photo, "a.jpg"), media(MediaKind::Video, "b.mp4")]),
        enriched(step(2, None, None), vec![]),
        enriched(step(3, None, None), vec![media(MediaKind::Photo, "c.jpg")]),
    ];
    let jobs = media_copy_jobs(&steps);
    let got: Vec<(String, String, String, bool)> = jobs
        .iter()
        .map(|j| (j.step_dir.clone(), j.source_dir.clone(), j.file_name.clone(), j.make_thumbnail))
        .collect();
    assert_eq!(
        got,
        vec![
            ("s1_1".to_string(), "photos".to_string(), "a.jpg".to_string(), true),
            ("s1_1".to_string(), "videos".to_string(), "b.mp4".to_string(), false),
            ("s3_3".to_string(), "photos".to_string(), "c.jpg".to_string(), true),
        ]
    );
    let total: usize = steps.iter().map(|s| s.media.len()).sum();
    assert_eq!(jobs.len(), total);
}

#[test]
fn thumbnails_are_made_law() {
    let steps = vec![
        enriched(step(1, None, None), vec![media(MediaKind::Video, "v.mp4"), media(MediaKind::Photo, "p.jpg")]),
    ];
    let summaries = step_summaries(&steps);
    let jobs = media_copy_jobs(&steps);
    assert!(jobs
        .iter()
        .any(|j| j.make_thumbnail && format!("thumbnails/{}", j.file_name) == summaries[0].thumb));
}

#[test]
fn media_actions_table() {
    for thumb in [false, true] {
        for dst in [false, true] {
            for tex in [false, true] {
                let a = media_actions(thumb, false, dst, tex);
                assert!(!a.copy && !a.thumbnail);
                let b = media_actions(thumb, true, dst, tex);
                assert_eq!(b.copy, !dst);
                assert_eq!(b.thumbnail, thumb && !tex);
            }
        }
    }
}

#[test]
fn thumbnail_settings() {
    assert_eq!((THUMBNAIL_MAX_WIDTH, THUMBNAIL_MAX_HEIGHT, THUMBNAIL_QUALITY), (400, 300, 75));
}

#[test]
fn pages_from_enrich_steps() {
    let trip = Trip {
        id: 1,
        slug: "t".to_string(),
        name: "T".to_string(),
        start_date: None,
        end_date: None,
        summary: None,
        cover_photo_path: None,
        steps: vec![step(5, Some(1.0), Some(1.0))],
    };
    let listing = MediaListing { photos: vec![b"z.jpg".to_vec(), b"y.jpg".to_vec()], videos: vec![] };
    let (_, steps) = enrich_steps(trip, &vec![listing]);
    let jobs = media_copy_jobs(&steps);
    assert_eq!(jobs[0].file_name, "y.jpg");
    assert_eq!(jobs[0].step_dir, "s5_5");
    assert_eq!(step_summary(&steps[0]).thumb, "thumbnails/y.jpg");
}
