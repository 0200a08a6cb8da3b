//! Round trips through the full encode/decode pipeline on concrete values.

use geography_codec::geom::{
    GeogLineString, GeogLineStringZ, GeogPoint, GeogPointZ, GeogPolygon,
};

fn bits(v: f64) -> u64 {
    v.to_bits()
}

#[test]
fn point_round_trip_with_srid() {
    let p = GeogPoint { x: bits(1.0), y: bits(2.0), srid: Some(4326) };
    let blob = p.encode();
    let back = GeogPoint::decode(Some(&blob)).unwrap();
    assert_eq!(back, p);
}

#[test]
fn point_round_trip_no_srid() {
    let p = GeogPoint { x: bits(-3.5), y: bits(0.0), srid: None };
    let blob = p.encode();
    assert_eq!(GeogPoint::decode(Some(&blob)).unwrap(), p);
}

#[test]
fn point_round_trip_negative_srid() {
    let p = GeogPoint { x: bits(7.25), y: bits(-0.125), srid: Some(-1) };
    let blob = p.encode();
    assert_eq!(GeogPoint::decode(Some(&blob)).unwrap(), p);
}

#[test]
fn point_round_trip_extreme_srid() {
    let p = GeogPoint { x: bits(1e300), y: bits(-1e-300), srid: Some(i32::MIN) };
    let blob = p.encode();
    assert_eq!(GeogPoint::decode(Some(&blob)).unwrap(), p);
    let q = GeogPoint { x: bits(1.5), y: bits(2.5), srid: Some(i32::MAX) };
    let blob = q.encode();
    assert_eq!(GeogPoint::decode(Some(&blob)).unwrap(), q);
}

#[test]
fn pointz_round_trip() {
    let p = GeogPointZ { x: bits(1.0), y: bits(2.0), z: bits(3.75), srid: Some(4326) };
    let blob = p.encode();
    assert_eq!(GeogPointZ::decode(Some(&blob)).unwrap(), p);
    let q = GeogPointZ { x: bits(-1.0), y: bits(0.5), z: bits(0.0), srid: None };
    let blob = q.encode();
    assert_eq!(GeogPointZ::decode(Some(&blob)).unwrap(), q);
}

#[test]
fn linestring_round_trip_empty() {
    let ls = GeogLineString { points: vec![], srid: Some(4326) };
    let blob = ls.encode();
    let back = GeogLineString::decode(Some(&blob)).unwrap();
    assert_eq!(back.points.len(), 0);
    assert_eq!(back.srid, Some(4326));
}

#[test]
fn linestring_round_trip_preserves_count_and_order() {
    let ls = GeogLineString {
        points: vec![
            GeogPoint { x: bits(0.0), y: bits(0.0), srid: Some(4326) },
            GeogPoint { x: bits(1.0), y: bits(10.0), srid: Some(4326) },
            GeogPoint { x: bits(2.0), y: bits(-20.0), srid: Some(4326) },
        ],
        srid: Some(4326),
    };
    let blob = ls.encode();
    let back = GeogLineString::decode(Some(&blob)).unwrap();
    assert_eq!(back, ls);
}

#[test]
fn linestring_decode_stamps_wrapper_srid_into_points() {
    // Heterogeneous per-point SRIDs are a storage artifact: the decoder
    // discards them in favour of the wrapper-level value.
    let ls = GeogLineString {
        points: vec![
            GeogPoint { x: bits(0.0), y: bits(1.0), srid: Some(1) },
            GeogPoint { x: bits(2.0), y: bits(3.0), srid: None },
            GeogPoint { x: bits(4.0), y: bits(5.0), srid: Some(999) },
        ],
        srid: Some(4326),
    };
    let blob = ls.encode();
    let back = GeogLineString::decode(Some(&blob)).unwrap();
    assert_eq!(back.srid, Some(4326));
    assert_eq!(back.points.len(), 3);
    for (i, p) in back.points.iter().enumerate() {
        assert_eq!(p.srid, Some(4326));
        assert_eq!(p.x, ls.points[i].x);
        assert_eq!(p.y, ls.points[i].y);
    }
}

#[test]
fn linestring_z_round_trip() {
    let ls = GeogLineStringZ {
        points: vec![
            GeogPointZ { x: bits(0.0), y: bits(1.0), z: bits(2.0), srid: None },
            GeogPointZ { x: bits(3.0), y: bits(4.0), z: bits(5.0), srid: None },
        ],
        srid: None,
    };
    let blob = ls.encode();
    let back = GeogLineStringZ::decode(Some(&blob)).unwrap();
    assert_eq!(back, ls);
}

#[test]
fn polygon_round_trip_closed_rectangle_no_srid() {
    // One ring of 4 points forming a closed rectangle, srid absent.
    let ring = GeogLineString {
        points: vec![
            GeogPoint { x: bits(0.0), y: bits(0.0), srid: None },
            GeogPoint { x: bits(4.0), y: bits(0.0), srid: None },
            GeogPoint { x: bits(4.0), y: bits(3.0), srid: None },
            GeogPoint { x: bits(0.0), y: bits(0.0), srid: None },
        ],
        srid: None,
    };
    let poly = GeogPolygon { rings: vec![ring], srid: None };
    let blob = poly.encode();
    let back = GeogPolygon::decode(Some(&blob)).unwrap();
    assert_eq!(back.rings.len(), 1);
    assert_eq!(back.rings[0].points.len(), 4);
    assert_eq!(back.srid, None);
    for (j, p) in back.rings[0].points.iter().enumerate() {
        assert_eq!(p.x, poly.rings[0].points[j].x);
        assert_eq!(p.y, poly.rings[0].points[j].y);
        assert_eq!(p.srid, None);
    }
}

#[test]
fn polygon_round_trip_two_rings() {
    let outer = GeogLineString {
        points: vec![
            GeogPoint { x: bits(0.0), y: bits(0.0), srid: Some(4326) },
            GeogPoint { x: bits(10.0), y: bits(0.0), srid: Some(4326) },
            GeogPoint { x: bits(10.0), y: bits(10.0), srid: Some(4326) },
            GeogPoint { x: bits(0.0), y: bits(0.0), srid: Some(4326) },
        ],
        srid: Some(4326),
    };
    let hole = GeogLineString {
        points: vec![
            GeogPoint { x: bits(1.0), y: bits(1.0), srid: Some(4326) },
            GeogPoint { x: bits(2.0), y: bits(1.0), srid: Some(4326) },
            GeogPoint { x: bits(1.0), y: bits(2.0), srid: Some(4326) },
        ],
        srid: Some(4326),
    };
    let poly = GeogPolygon { rings: vec![outer, hole], srid: Some(4326) };
    let blob = poly.encode();
    let back = GeogPolygon::decode(Some(&blob)).unwrap();
    assert_eq!(back, poly);
}

#[test]
fn polygon_round_trip_zero_rings() {
    let poly = GeogPolygon { rings: vec![], srid: Some(31287) };
    let blob = poly.encode();
    let back = GeogPolygon::decode(Some(&blob)).unwrap();
    assert_eq!(back.rings.len(), 0);
    assert_eq!(back.srid, Some(31287));
}

#[test]
fn polygon_stamps_its_srid_over_ring_srids() {
    // Polygon-authoritative policy: a ring built with a differing SRID
    // comes back carrying the polygon's.
    let ring = GeogLineString {
        points: vec![GeogPoint { x: bits(1.0), y: bits(2.0), srid: Some(7) }],
        srid: Some(7),
    };
    let poly = GeogPolygon { rings: vec![ring], srid: Some(4326) };
    let blob = poly.encode();
    let back = GeogPolygon::decode(Some(&blob)).unwrap();
    assert_eq!(back.srid, Some(4326));
    assert_eq!(back.rings[0].srid, Some(4326));
    assert_eq!(back.rings[0].points[0].srid, Some(4326));
    assert_eq!(back.rings[0].points[0].x, bits(1.0));
}
