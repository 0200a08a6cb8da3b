//! Decode failures: absence, truncation, bad markers, bad tags, trailing
//! bytes. No failure ever yields a default value.

use geography_codec::geom::{
    DecodeError, GeogLineString, GeogLineStringZ, GeogPoint, GeogPointZ, GeogPolygon, GeomKind,
};

fn bits(v: f64) -> u64 {
    v.to_bits()
}

#[test]
fn absent_always_fails_never_defaults() {
    assert_eq!(GeogPoint::decode(None), Err(DecodeError::Absent(GeomKind::Point)));
    assert_eq!(GeogPointZ::decode(None), Err(DecodeError::Absent(GeomKind::PointZ)));
    assert_eq!(GeogLineString::decode(None), Err(DecodeError::Absent(GeomKind::LineString)));
    assert_eq!(GeogLineStringZ::decode(None), Err(DecodeError::Absent(GeomKind::LineStringZ)));
    assert_eq!(GeogPolygon::decode(None), Err(DecodeError::Absent(GeomKind::Polygon)));
}

#[test]
fn empty_bytes_fail_header_cannot_be_parsed() {
    let empty: Vec<u8> = vec![];
    assert_eq!(GeogPoint::decode(Some(&empty)), Err(DecodeError::Malformed(GeomKind::Point)));
    assert_eq!(
        GeogPolygon::decode(Some(&empty)),
        Err(DecodeError::Malformed(GeomKind::Polygon))
    );
}

#[test]
fn big_endian_marker_is_rejected() {
    // The canonical variant is little-endian only.
    let p = GeogPoint { x: bits(1.0), y: bits(2.0), srid: None };
    let mut blob = p.encode();
    blob[0] = 0x00;
    assert_eq!(GeogPoint::decode(Some(&blob)), Err(DecodeError::Malformed(GeomKind::Point)));
}

#[test]
fn wrong_kind_tag_is_rejected() {
    let p = GeogPoint { x: bits(1.0), y: bits(2.0), srid: Some(4326) };
    let blob = p.encode();
    // A point blob handed to the line string decoder has a bad leading tag.
    assert_eq!(
        GeogLineString::decode(Some(&blob)),
        Err(DecodeError::Malformed(GeomKind::LineString))
    );
    // A two-dimensional blob handed to the Z decoder likewise.
    assert_eq!(GeogPointZ::decode(Some(&blob)), Err(DecodeError::Malformed(GeomKind::PointZ)));
}

#[test]
fn truncated_point_is_rejected() {
    let p = GeogPoint { x: bits(1.0), y: bits(2.0), srid: Some(4326) };
    let blob = p.encode();
    let cut = &blob[..blob.len() - 1];
    assert_eq!(GeogPoint::decode(Some(cut)), Err(DecodeError::Malformed(GeomKind::Point)));
}

#[test]
fn trailing_bytes_are_rejected() {
    let p = GeogPoint { x: bits(1.0), y: bits(2.0), srid: Some(4326) };
    let mut blob = p.encode();
    blob.push(0x00);
    assert_eq!(GeogPoint::decode(Some(&blob)), Err(DecodeError::Malformed(GeomKind::Point)));
}

#[test]
fn truncated_linestring_count_is_rejected() {
    let ls = GeogLineString {
        points: vec![GeogPoint { x: bits(1.0), y: bits(2.0), srid: None }],
        srid: None,
    };
    let blob = ls.encode();
    // Cut into the count field.
    let cut = &blob[..7];
    assert_eq!(
        GeogLineString::decode(Some(cut)),
        Err(DecodeError::Malformed(GeomKind::LineString))
    );
}

#[test]
fn polygon_with_truncated_ring_is_rejected() {
    let ring = GeogLineString {
        points: vec![
            GeogPoint { x: bits(0.0), y: bits(0.0), srid: None },
            GeogPoint { x: bits(1.0), y: bits(1.0), srid: None },
        ],
        srid: None,
    };
    let poly = GeogPolygon { rings: vec![ring], srid: None };
    let blob = poly.encode();
    let cut = &blob[..blob.len() - 3];
    assert_eq!(GeogPolygon::decode(Some(cut)), Err(DecodeError::Malformed(GeomKind::Polygon)));
}
