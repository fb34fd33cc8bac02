use chrono::DateTime;
use gapix_core::gpx_writer::{write_gpx_to_writer, OutputOptions};
use gapix_core::model::{
    Bounds, Copyright, Email, Extensions, FixType, Gpx, Link, Metadata, Person, Route, Track,
    TrackSegment, Waypoint, XmlDeclaration,
};
use gapix_core::read::read_gpx_from_slice;
use gapix_core::read::waypoint::with_lat_lon;
use gapix_core::xml::Attribute;
use std::iter::zip;

fn extensions(raw_xml: &str) -> Extensions {
    Extensions { raw_xml: raw_xml.to_string() }
}

/// We construct 'gpx1', then write it to a buffer. We then read the buffer
/// into 'gpx2'. The two models should be identical if we did everything
/// correctly.
#[test]
fn round_trip_entire_model() {
    let gpx1 = make_fully_populated_gpx();
    let buffer = write_gpx_to_writer(&gpx1, OutputOptions::Full).unwrap();

    let gpx2 = read_gpx_from_slice(buffer.as_bytes()).unwrap();

    // Filename is not written to or parsed from the buffer.

    assert_eq!(gpx1.declaration, gpx2.declaration);
    assert_eq!(gpx1.version, gpx2.version);
    assert_eq!(gpx1.creator, gpx2.creator);
    assert_eq!(gpx1.attributes, gpx2.attributes);
    compare_metadata(&gpx1.metadata, &gpx2.metadata);
    assert_eq!(gpx1.waypoints.len(), gpx2.waypoints.len());
    for (wp1, wp2) in zip(&gpx1.waypoints, &gpx2.waypoints) {
        compare_waypoint(wp1, wp2);
    }
    assert_eq!(gpx1.routes.len(), gpx2.routes.len());
    for (route1, route2) in zip(&gpx1.routes, &gpx2.routes) {
        compare_route(route1, route2);
    }
    assert_eq!(gpx1.tracks.len(), gpx2.tracks.len());
    for (track1, track2) in zip(&gpx1.tracks, &gpx2.tracks) {
        compare_track(track1, track2);
    }
    assert_eq!(gpx1.extensions, gpx2.extensions);
}

#[test]
fn round_trip_gives_back_every_field() {
    let gpx1 = make_fully_populated_gpx();
    let buffer = write_gpx_to_writer(&gpx1, OutputOptions::Full).unwrap();
    let gpx2 = read_gpx_from_slice(buffer.as_bytes()).unwrap();
    assert_eq!(gpx1, gpx2);
}

#[test]
fn submission_holds_tracks_with_brief_points_only() {
    let gpx1 = make_fully_populated_gpx();
    let buffer = write_gpx_to_writer(&gpx1, OutputOptions::AudaxUKDIY).unwrap();
    let gpx2 = read_gpx_from_slice(buffer.as_bytes()).unwrap();
    assert!(gpx2.waypoints.is_empty());
    assert!(gpx2.routes.is_empty());
    assert_eq!(gpx2.extensions, None);
    assert_eq!(gpx2.tracks.len(), 2);
    let written = &gpx1.tracks[0].segments[0].points[3];
    let read = &gpx2.tracks[0].segments[0].points[3];
    assert_eq!(read.lat, written.lat);
    assert_eq!(read.lon, written.lon);
    assert_eq!(read.ele, Some(12_300));
    assert_eq!(read.time, written.time);
    assert_eq!(read.name, None);
    assert_eq!(read.links.len(), 0);
    assert!(buffer.contains("<trkpt lat=\"43.000000\" lon=\"37.000000\">"));
    assert!(buffer.contains("<ele>12.3</ele>"));
}

#[test]
fn written_text_is_laid_out_line_by_line() {
    let mut gpx = Gpx::default();
    gpx.declaration = XmlDeclaration {
        version: "1.0".to_string(),
        encoding: Some("UTF-8".to_string()),
        standalone: None,
    };
    gpx.creator = "GAPIX".to_string();
    gpx.version = "1.1".to_string();
    gpx.attributes = vec![Attribute { name: "key1".to_string(), value: "value1".to_string() }];
    gpx.metadata.name = Some("My GPX".to_string());
    let mut wp = with_lat_lon(552_062_500, -114_503_500).unwrap();
    wp.ele = Some(158_400);
    wp.fix = Some(FixType::ThreeDimensional);
    wp.links = vec![make_link("Text", "jpeg", "http://example.com")];
    gpx.waypoints.push(wp);
    let text = write_gpx_to_writer(&gpx, OutputOptions::Full).unwrap();
    assert_eq!(
        text,
        "<?xml version=\"1.0\" encoding=\"UTF-8\"?>\n\
         <gpx creator=\"GAPIX\" version=\"1.1\"\n\
         \x20 key1=\"value1\"\n\
         >\n\
         \x20 <metadata>\n\
         \x20   <name>My GPX</name>\n\
         \x20 </metadata>\n\
         \x20 <wpt lat=\"55.20625\" lon=\"-11.45035\">\n\
         \x20   <ele>158.4</ele>\n\
         \x20   <link href=\"http://example.com\">\n\
         \x20     <text>Text</text>\n\
         \x20     <type>jpeg</type>\n\
         \x20   </link>\n\
         \x20   <fix>3d</fix>\n\
         \x20 </wpt>\n\
         </gpx>\n"
    );
}

#[test]
fn instant_beyond_the_calendar_cannot_be_written() {
    let mut gpx = Gpx::default();
    gpx.metadata.time = Some(i64::MAX);
    match write_gpx_to_writer(&gpx, OutputOptions::Full) {
        Err(gapix_core::error::GapixError::DateFormatFailure(_)) => {}
        x => panic!("Unexpected result: {:?}", x),
    }
}

fn compare_metadata(md1: &Metadata, md2: &Metadata) {
    assert_eq!(md1.name, md2.name);
    assert_eq!(md1.description, md2.description);
    assert_eq!(md1.author, md2.author);
    assert_eq!(md1.copyright, md2.copyright);
    assert_eq!(md1.links, md2.links);
    assert_eq!(md1.time, md2.time);
    assert_eq!(md1.keywords, md2.keywords);
    let b1 = md1.bounds.as_ref().unwrap();
    let b2 = md2.bounds.as_ref().unwrap();
    assert_eq!(b1.min_lat, b2.min_lat);
    assert_eq!(b1.min_lon, b2.min_lon);
    assert_eq!(b1.max_lat, b2.max_lat);
    assert_eq!(b1.max_lon, b2.max_lon);
    assert_eq!(md1.extensions, md2.extensions);
}

fn compare_route(route1: &Route, route2: &Route) {
    assert_eq!(route1.name, route2.name);
    assert_eq!(route1.comment, route2.comment);
    assert_eq!(route1.description, route2.description);
    assert_eq!(route1.source, route2.source);
    assert_eq!(route1.links, route2.links);
    assert_eq!(route1.number, route2.number);
    assert_eq!(route1.type_, route2.type_);
    assert_eq!(route1.extensions, route2.extensions);
    assert_eq!(route1.points.len(), route2.points.len());
    for (wp1, wp2) in zip(&route1.points, &route2.points) {
        compare_waypoint(wp1, wp2);
    }
}

fn compare_track(track1: &Track, track2: &Track) {
    assert_eq!(track1.name, track2.name);
    assert_eq!(track1.comment, track2.comment);
    assert_eq!(track1.description, track2.description);
    assert_eq!(track1.source, track2.source);
    assert_eq!(track1.links, track2.links);
    assert_eq!(track1.number, track2.number);
    assert_eq!(track1.type_, track2.type_);
    assert_eq!(track1.extensions, track2.extensions);
    assert_eq!(track1.segments.len(), track2.segments.len());
    for (segment1, segment2) in zip(&track1.segments, &track2.segments) {
        assert_eq!(segment1.extensions, segment2.extensions);
        assert_eq!(segment1.points.len(), segment2.points.len());
        for (wp1, wp2) in zip(&segment1.points, &segment2.points) {
            compare_waypoint(wp1, wp2);
        }
    }
}

fn compare_waypoint(wp1: &Waypoint, wp2: &Waypoint) {
    assert_eq!(wp1.lat, wp2.lat);
    assert_eq!(wp1.lon, wp2.lon);
    assert_eq!(wp1.ele, wp2.ele);
    assert_eq!(wp1.time, wp2.time);
    assert_eq!(wp1.magvar, wp2.magvar);
    assert_eq!(wp1.geoid_height, wp2.geoid_height);
    assert_eq!(wp1.name, wp2.name);
    assert_eq!(wp1.comment, wp2.comment);
    assert_eq!(wp1.description, wp2.description);
    assert_eq!(wp1.source, wp2.source);
    assert_eq!(wp1.links, wp2.links);
    assert_eq!(wp1.symbol, wp2.symbol);
    assert_eq!(wp1.type_, wp2.type_);
    assert_eq!(wp1.fix, wp2.fix);
    assert_eq!(wp1.num_satellites, wp2.num_satellites);
    assert_eq!(wp1.hdop, wp2.hdop);
    assert_eq!(wp1.vdop, wp2.vdop);
    assert_eq!(wp1.pdop, wp2.pdop);
    assert_eq!(wp1.age_of_dgps_data, wp2.age_of_dgps_data);
    assert_eq!(wp1.dgps_id, wp2.dgps_id);
    assert_eq!(wp1.extensions, wp2.extensions);
}

fn instant(text: &str) -> i64 {
    DateTime::parse_from_rfc3339(text).unwrap().to_utc().timestamp_millis()
}

fn make_fully_populated_gpx() -> Gpx {
    let declaration = XmlDeclaration {
        version: "1.0".to_string(),
        encoding: Some("UTF-8".to_string()),
        standalone: Some("false".to_string()),
    };

    let copyright = Copyright {
        year: Some(2024),
        license: Some("MIT".to_string()),
        author: "Homer Simpson".to_string(),
    };

    let author = Person {
        name: Some("First Person".to_string()),
        email: Some(Email { id: "first_person".to_string(), domain: "gmail.com".to_string() }),
        link: Some(make_link("Author Link", "txt", "http://example.com")),
    };

    let bounds = Bounds::new(100_000_000, 200_000_000, 300_000_000, 400_000_000).unwrap();

    let metadata = Metadata {
        name: Some("My GPX".to_string()),
        description: Some("My GPX Description".to_string()),
        author: Some(author),
        copyright: Some(copyright),
        links: vec![
            make_link("Metadata Link 1", "jpeg", "http://jpeg1.com"),
            make_link("Metadata Link 2", "mp3", "http://mp3.com"),
        ],
        time: Some(instant("2024-02-02T10:10:54.000Z")),
        keywords: Some("keyword1, keyword2".to_string()),
        bounds: Some(bounds),
        extensions: Some(extensions("The raw inner text of some metadata extensions")),
    };

    let mut gpx = Gpx::default();
    gpx.declaration = declaration;
    gpx.metadata = metadata;
    gpx.version = "1.1".to_string();
    gpx.creator = "GAPIX".to_string();
    gpx.attributes = vec![
        Attribute { name: "key1".to_string(), value: "value1".to_string() },
        Attribute { name: "key2".to_string(), value: "value2".to_string() },
    ];
    gpx.waypoints = make_waypoints(5, "Main", -20);
    gpx.routes = make_routes(7, 20);
    gpx.tracks = make_tracks(2, 40);
    gpx.extensions = Some(extensions("The raw inner text of some GPX extensions"));

    gpx
}

fn make_link(text: &str, type_: &str, href: &str) -> Link {
    Link { text: Some(text.to_string()), type_: Some(type_.to_string()), href: href.to_string() }
}

fn make_routes(count: usize, latlon_base: i64) -> Vec<Route> {
    (0..count)
        .map(|i| Route {
            name: Some(format!("Route {i}")),
            comment: Some(format!("Route {i} Comment")),
            description: Some(format!("Route {i} Description")),
            source: Some(format!("Route {i} Source")),
            links: vec![
                make_link(&format!("Route {i} Link 1"), "jpeg", "http://jpeg1.com"),
                make_link(&format!("Route {i} Link 2"), "mp3", "http://mp3.com"),
                make_link(&format!("Route {i} Link 3"), "txt", "http://txt.com"),
            ],
            number: Some(i as u32),
            type_: Some(format!("Route {i} Type")),
            extensions: Some(extensions(&format!("Route {i} Extensions"))),
            points: make_waypoints(4, "Route", latlon_base),
        })
        .collect()
}

fn make_tracks(count: usize, latlon_base: i64) -> Vec<Track> {
    (0..count)
        .map(|i| Track {
            name: Some(format!("Route {i}")),
            comment: Some(format!("Route {i} Comment")),
            description: Some(format!("Route {i} Description")),
            source: Some(format!("Route {i} Source")),
            links: vec![
                make_link(&format!("Route {i} Link 1"), "jpeg", "http://jpeg1.com"),
                make_link(&format!("Route {i} Link 2"), "mp3", "http://mp3.com"),
                make_link(&format!("Route {i} Link 3"), "txt", "http://txt.com"),
            ],
            number: Some(i as u32),
            type_: Some(format!("Route {i} Type")),
            extensions: Some(extensions(&format!("Route {i} Extensions"))),
            segments: vec![
                TrackSegment {
                    points: make_waypoints(20, "Track", latlon_base),
                    extensions: Some(extensions(&format!("Track Segment {i}.1 Extensions"))),
                },
                TrackSegment {
                    points: make_waypoints(30, "Track", latlon_base),
                    extensions: Some(extensions(&format!("Track Segment {i}.2 Extensions"))),
                },
                TrackSegment {
                    points: make_waypoints(50, "Track", latlon_base),
                    extensions: Some(extensions(&format!("Track Segment {i}.2 Extensions"))),
                },
            ],
        })
        .collect()
}

/// Generate 'count' waypoints, arranging for them to have unique names
/// (sub-elements) and lat-lon (attributes) values.
fn make_waypoints(count: usize, name: &str, latlon_base: i64) -> Vec<Waypoint> {
    (0..count)
        .map(|i| {
            let fullname = format!("{name} Waypoint {i}");
            make_waypoint(i, fullname, latlon_base)
        })
        .collect()
}

fn make_waypoint<S: Into<String>>(i: usize, name: S, latlon_base: i64) -> Waypoint {
    let n = i as i64;
    let lat = (latlon_base + n) * 10_000_000;
    let lon = (latlon_base - n) * 10_000_000;
    let mut wp = with_lat_lon(lat, lon).unwrap();

    wp.ele = Some(12_300);
    wp.time = Some(instant("2024-02-02T10:10:54.000Z"));
    wp.magvar = Some(98_121);
    wp.geoid_height = Some(123_848);
    wp.name = Some(name.into());
    wp.comment = Some(format!("Waypoint {i} Comment"));
    wp.description = Some(format!("Waypoint {i} Description"));
    wp.source = Some(format!("Waypoint {i} Source"));
    wp.links = vec![
        make_link(&format!("Waypoint {i} Link 1"), "jpeg", "http://jpeg1.com"),
        make_link(&format!("Waypoint {i} Link 2"), "mp3", "http://mp3.com"),
        make_link(&format!("Waypoint {i} Link 3"), "txt", "http://txt.com"),
    ];
    wp.symbol = Some(format!("Waypoint {i} Symbol"));
    wp.type_ = Some(format!("Waypoint {i} Type"));
    wp.fix = Some(FixType::PPS);
    wp.num_satellites = Some(12 + i as u16);
    wp.hdop = Some(1_100 + 1_000 * n);
    wp.vdop = Some(1_100 - 1_000 * n);
    wp.pdop = Some(100_100 + 1_000 * n);
    wp.age_of_dgps_data = Some(20_000 + 1_000 * n);
    wp.dgps_id = Some(200 + i as u16);
    wp.extensions = Some(extensions(&format!("Waypoint {i}Extensions")));

    wp
}
