//! Bit-exact compatibility with the postgis crate's extended well-known
//! binary writer and reader, which this library's codec must match.

use geography_codec::geom::{GeogLineString, GeogPoint, GeogPointZ, GeogPolygon};
use postgis::ewkb::{AsEwkbLineString, AsEwkbPoint, AsEwkbPolygon, EwkbRead, EwkbWrite};

fn bits(v: f64) -> u64 {
    v.to_bits()
}

#[test]
fn point_bytes_match_postgis_writer() {
    let ours = GeogPoint { x: bits(10.5), y: bits(-3.25), srid: Some(4326) };
    let theirs = postgis::ewkb::Point { x: 10.5, y: -3.25, srid: Some(4326) };
    let mut expected: Vec<u8> = Vec::new();
    theirs.as_ewkb().write_ewkb(&mut expected).unwrap();
    assert_eq!(ours.encode(), expected);
}

#[test]
fn point_without_srid_bytes_match_postgis_writer() {
    let ours = GeogPoint { x: bits(1.0), y: bits(2.0), srid: None };
    let theirs = postgis::ewkb::Point { x: 1.0, y: 2.0, srid: None };
    let mut expected: Vec<u8> = Vec::new();
    theirs.as_ewkb().write_ewkb(&mut expected).unwrap();
    assert_eq!(ours.encode(), expected);
}

#[test]
fn pointz_bytes_match_postgis_writer() {
    let ours = GeogPointZ { x: bits(1.0), y: bits(2.0), z: bits(3.0), srid: Some(4326) };
    let theirs = postgis::ewkb::PointZ { x: 1.0, y: 2.0, z: 3.0, srid: Some(4326) };
    let mut expected: Vec<u8> = Vec::new();
    theirs.as_ewkb().write_ewkb(&mut expected).unwrap();
    assert_eq!(ours.encode(), expected);
}

#[test]
fn linestring_bytes_match_postgis_writer() {
    let ours = GeogLineString {
        points: vec![
            GeogPoint { x: bits(0.0), y: bits(0.0), srid: Some(31287) },
            GeogPoint { x: bits(5.0), y: bits(7.5), srid: Some(31287) },
            GeogPoint { x: bits(-5.0), y: bits(2.5), srid: Some(31287) },
        ],
        srid: Some(31287),
    };
    let theirs = postgis::ewkb::LineString {
        points: vec![
            postgis::ewkb::Point { x: 0.0, y: 0.0, srid: Some(31287) },
            postgis::ewkb::Point { x: 5.0, y: 7.5, srid: Some(31287) },
            postgis::ewkb::Point { x: -5.0, y: 2.5, srid: Some(31287) },
        ],
        srid: Some(31287),
    };
    let mut expected: Vec<u8> = Vec::new();
    theirs.as_ewkb().write_ewkb(&mut expected).unwrap();
    assert_eq!(ours.encode(), expected);
}

#[test]
fn polygon_bytes_match_postgis_writer() {
    let ours = GeogPolygon {
        rings: vec![GeogLineString {
            points: vec![
                GeogPoint { x: bits(0.0), y: bits(0.0), srid: Some(4326) },
                GeogPoint { x: bits(2.0), y: bits(0.0), srid: Some(4326) },
                GeogPoint { x: bits(2.0), y: bits(2.0), srid: Some(4326) },
                GeogPoint { x: bits(0.0), y: bits(0.0), srid: Some(4326) },
            ],
            srid: Some(4326),
        }],
        srid: Some(4326),
    };
    let theirs = postgis::ewkb::Polygon {
        rings: vec![postgis::ewkb::LineString {
            points: vec![
                postgis::ewkb::Point { x: 0.0, y: 0.0, srid: Some(4326) },
                postgis::ewkb::Point { x: 2.0, y: 0.0, srid: Some(4326) },
                postgis::ewkb::Point { x: 2.0, y: 2.0, srid: Some(4326) },
                postgis::ewkb::Point { x: 0.0, y: 0.0, srid: Some(4326) },
            ],
            srid: Some(4326),
        }],
        srid: Some(4326),
    };
    let mut expected: Vec<u8> = Vec::new();
    theirs.as_ewkb().write_ewkb(&mut expected).unwrap();
    assert_eq!(ours.encode(), expected);
}

#[test]
fn our_decoder_reads_postgis_written_point() {
    let theirs = postgis::ewkb::Point { x: 16.35, y: 48.2, srid: Some(4326) };
    let mut blob: Vec<u8> = Vec::new();
    theirs.as_ewkb().write_ewkb(&mut blob).unwrap();
    let ours = GeogPoint::decode(Some(&blob)).unwrap();
    assert_eq!(ours.x, bits(16.35));
    assert_eq!(ours.y, bits(48.2));
    assert_eq!(ours.srid, Some(4326));
}

#[test]
fn postgis_reader_reads_our_linestring() {
    let ours = GeogLineString {
        points: vec![
            GeogPoint { x: bits(1.25), y: bits(2.5), srid: Some(4326) },
            GeogPoint { x: bits(-1.25), y: bits(-2.5), srid: Some(4326) },
        ],
        srid: Some(4326),
    };
    let blob = ours.encode();
    let mut cursor = std::io::Cursor::new(&blob);
    let theirs = postgis::ewkb::LineString::read_ewkb(&mut cursor).unwrap();
    assert_eq!(theirs.srid, Some(4326));
    assert_eq!(theirs.points.len(), 2);
    assert_eq!(theirs.points[0].x, 1.25);
    assert_eq!(theirs.points[0].y, 2.5);
    assert_eq!(theirs.points[1].x, -1.25);
    assert_eq!(theirs.points[1].y, -2.5);
}
