use polarust::enricher::{
    enrich_step, enrich_steps, generate_location, load_step_media, step_dir_name, weather_icon,
    weather_label, MediaListing,
};
use polarust::model::{Location, MediaKind, Step, Trip};

fn step(id: u64) -> Step {
    Step {
        id,
        display_name: None,
        description: None,
        start_time: 0,
        location: None,
        slug: None,
        weather_condition: None,
        weather_temperature: None,
    }
}

fn located(code: Option<&str>, name: Option<&str>) -> Step {
    let mut s = step(1);
    s.location = Some(Location {
        name: name.map(|n| n.to_string()),
        lat_bits: None,
        lon_bits: None,
        detail: None,
        country_code: code.map(|c| c.to_string()),
    });
    s
}

fn names(list: &[&[u8]]) -> Vec<Vec<u8>> {
    list.iter().map(|n| n.to_vec()).collect()
}

#[test]
fn weather_icons_for_each_condition() {
    assert_eq!(weather_icon(Some("clear-day")), "☀️");
    assert_eq!(weather_icon(Some("cloudy")), "☁️");
    assert_eq!(weather_icon(Some("partly-cloudy-day")), "🌤️");
    assert_eq!(weather_icon(Some("rain")), "🌧️");
    assert_eq!(weather_icon(Some("snow")), "❄️");
    assert_eq!(weather_icon(Some("fog")), "🌡️");
    assert_eq!(weather_icon(Some("")), "🌡️");
    assert_eq!(weather_icon(Some("Rain")), "🌡️");
    assert_eq!(weather_icon(None), "🌡️");
}

#[test]
fn weather_line_with_and_without_temperature() {
    let mut s = step(1);
    s.weather_condition = Some("rain".to_string());
    s.weather_temperature = Some(-5);
    assert_eq!(weather_label(&s), "🌧️ -5°C");
    s.weather_temperature = Some(0);
    assert_eq!(weather_label(&s), "🌧️ 0°C");
    s.weather_temperature = Some(127);
    assert_eq!(weather_label(&s), "🌧️ 127°C");
    s.weather_temperature = Some(-128);
    assert_eq!(weather_label(&s), "🌧️ -128°C");
    s.weather_temperature = None;
    assert_eq!(weather_label(&s), "🌧️ -");
    s.weather_condition = None;
    s.weather_temperature = Some(21);
    assert_eq!(weather_label(&s), "🌡️ 21°C");
}

#[test]
fn location_with_country_flag() {
    assert_eq!(generate_location(&located(Some("FR"), Some("Paris"))), "🇫🇷 Paris");
    assert_eq!(generate_location(&located(Some("JP"), Some("Kyoto"))), "🇯🇵 Kyoto");
}

#[test]
fn location_lower_case_code_is_shifted_like_capitals() {
    let text = generate_location(&located(Some("fr"), Some("Lyon")));
    let chars: Vec<char> = text.chars().collect();
    assert_eq!(chars[0] as u32, 'f' as u32 + 0x1F1E6 - 0x41);
    assert_eq!(chars[1] as u32, 'r' as u32 + 0x1F1E6 - 0x41);
    assert_eq!(&text[8..], " Lyon");
}

#[test]
fn location_without_usable_code_is_globe_alone() {
    assert_eq!(generate_location(&located(Some("FRA"), Some("Nice"))), "🌍");
    assert_eq!(generate_location(&located(Some("F1"), Some("Nice"))), "🌍");
    assert_eq!(generate_location(&located(Some(""), Some("Nice"))), "🌍");
    assert_eq!(generate_location(&located(Some("é1"), Some("Nice"))), "🌍");
    assert_eq!(generate_location(&located(None, Some("Nice"))), "🌍");
    assert_eq!(generate_location(&located(None, None)), "🌍");
    assert_eq!(generate_location(&step(3)), "🌍");
}

#[test]
fn location_without_name_is_unknown_place() {
    assert_eq!(generate_location(&located(Some("IT"), None)), "🇮🇹 Lieu inconnu");
}

#[test]
fn enriched_step_without_location_has_globe_alone() {
    let mut s = step(7);
    s.slug = Some("paris".to_string());
    s.weather_condition = Some("rain".to_string());
    s.weather_temperature = Some(-3);
    let trip = Trip {
        id: 1,
        slug: "t".to_string(),
        name: "T".to_string(),
        start_date: None,
        end_date: None,
        summary: None,
        cover_photo_path: None,
        steps: vec![s],
    };
    let (_, enriched) = enrich_steps(trip, &vec![MediaListing { photos: vec![], videos: vec![] }]);
    assert_eq!(enriched[0].dir_name, "paris_7");
    assert!(enriched[0].media.is_empty());
    assert_eq!(enriched[0].location, "🌍");
    assert_eq!(enriched[0].weather, "🌧️ -3°C");
}

#[test]
fn step_directory_is_slug_and_id() {
    let mut s = step(42);
    s.slug = Some("lyon".to_string());
    assert_eq!(step_dir_name(&s), "lyon_42");
    s.slug = None;
    assert_eq!(step_dir_name(&s), "_42");
    let mut z = step(0);
    z.slug = Some("a".to_string());
    assert_eq!(step_dir_name(&z), "a_0");
    let mut big = step(u64::MAX);
    big.slug = Some("x".to_string());
    assert_eq!(step_dir_name(&big), "x_18446744073709551615");
}

#[test]
fn media_sorted_by_file_name_photos_first_on_ties() {
    let listing = MediaListing {
        photos: names(&[b"b.jpg", b"a.jpg"]),
        videos: names(&[b"a.jpg", b"0.mp4"]),
    };
    let media = load_step_media(&listing);
    let got: Vec<(MediaKind, String)> =
        media.iter().map(|m| (m.kind, m.relative_path.clone())).collect();
    assert_eq!(
        got,
        vec![
            (MediaKind::Video, "0.mp4".to_string()),
            (MediaKind::Photo, "a.jpg".to_string()),
            (MediaKind::Video, "a.jpg".to_string()),
            (MediaKind::Photo, "b.jpg".to_string()),
        ]
    );
}

#[test]
fn media_order_is_byte_order() {
    let listing = MediaListing {
        photos: names(&[b"a.jpg", b"a", b"Z.jpg", "é.jpg".as_bytes(), b"ab"]),
        videos: vec![],
    };
    let media = load_step_media(&listing);
    let got: Vec<&str> = media.iter().map(|m| m.relative_path.as_str()).collect();
    assert_eq!(got, vec!["Z.jpg", "a", "a.jpg", "ab", "é.jpg"]);
}

#[test]
fn media_with_non_utf8_name_gets_empty_path() {
    let listing = MediaListing { photos: names(&[b"b.jpg", &[0x61, 0xff]]), videos: vec![] };
    let media = load_step_media(&listing);
    assert_eq!(media.len(), 2);
    assert_eq!(media[0].relative_path, "");
    assert_eq!(media[1].relative_path, "b.jpg");
}

#[test]
fn media_of_empty_listing() {
    assert!(load_step_media(&MediaListing { photos: vec![], videos: vec![] }).is_empty());
}

#[test]
fn media_order_law_same_listing_same_media() {
    let listing = MediaListing {
        photos: names(&[b"3.jpg", b"1.jpg", b"2.jpg"]),
        videos: names(&[b"2.jpg", b"1.mov"]),
    };
    let first = load_step_media(&listing);
    let second = load_step_media(&listing);
    let a: Vec<(MediaKind, String)> = first.iter().map(|m| (m.kind, m.relative_path.clone())).collect();
    let b: Vec<(MediaKind, String)> = second.iter().map(|m| (m.kind, m.relative_path.clone())).collect();
    assert_eq!(a, b);
}

#[test]
fn enriched_step_has_all_parts() {
    let mut s = located(Some("ES"), Some("Madrid"));
    s.id = 7;
    s.slug = Some("madrid".to_string());
    s.weather_condition = Some("snow".to_string());
    s.weather_temperature = Some(-2);
    let listing = MediaListing { photos: names(&[b"p.jpg"]), videos: vec![] };
    let e = enrich_step(&s, &listing);
    assert_eq!(e.dir_name, "madrid_7");
    assert_eq!(e.location, "🇪🇸 Madrid");
    assert_eq!(e.weather, "❄️ -2°C");
    assert_eq!(e.media.len(), 1);
    assert_eq!(e.step.id, 7);
    assert_eq!(e.step.slug.as_deref(), Some("madrid"));
}

#[test]
fn enrich_steps_keeps_trip_and_order() {
    let mut a = step(1);
    a.slug = Some("a".to_string());
    let mut b = step(2);
    b.slug = Some("b".to_string());
    let trip = Trip {
        id: 9,
        slug: "tour".to_string(),
        name: "Tour".to_string(),
        start_date: Some(10),
        end_date: None,
        summary: None,
        cover_photo_path: None,
        steps: vec![a, b],
    };
    let listings = vec![
        MediaListing { photos: vec![], videos: vec![] },
        MediaListing { photos: names(&[b"x.jpg"]), videos: names(&[b"y.mp4"]) },
    ];
    let (trip, enriched) = enrich_steps(trip, &listings);
    assert_eq!(trip.id, 9);
    assert_eq!(trip.steps.len(), 2);
    assert_eq!(enriched.len(), 2);
    assert_eq!(enriched[0].dir_name, "a_1");
    assert_eq!(enriched[1].dir_name, "b_2");
    assert!(enriched[0].media.is_empty());
    assert_eq!(enriched[1].media.len(), 2);
    assert_eq!(enriched[1].weather, "🌡️ -");
}

#[test]
fn enrich_steps_of_trip_without_steps() {
    let trip = Trip {
        id: 1,
        slug: "s".to_string(),
        name: "n".to_string(),
        start_date: None,
        end_date: None,
        summary: None,
        cover_photo_path: None,
        steps: vec![],
    };
    let (trip, enriched) = enrich_steps(trip, &vec![]);
    assert!(trip.steps.is_empty());
    assert!(enriched.is_empty());
}
