//! Exact wire bytes of the canonical variant, and the SRID overwrite law
//! observed on the wire-side value model.

use geography_codec::geom::{GeogLineString, GeogPoint};
use geography_codec::wire::{WireLineString, WirePoint};

fn bits(v: f64) -> u64 {
    v.to_bits()
}

#[test]
fn point_with_srid_exact_bytes() {
    // POINT(1 2) with SRID 4326: byte order 0x01, tag 0x20000001 LE,
    // SRID 4326 = 0x10E6 LE, then the two coordinate doubles LE.
    let p = GeogPoint { x: bits(1.0), y: bits(2.0), srid: Some(4326) };
    let blob = p.encode();
    let mut expected: Vec<u8> = vec![0x01, 0x01, 0x00, 0x00, 0x20, 0xE6, 0x10, 0x00, 0x00];
    expected.extend(1.0f64.to_le_bytes());
    expected.extend(2.0f64.to_le_bytes());
    assert_eq!(blob, expected);
}

#[test]
fn point_without_srid_exact_bytes() {
    let p = GeogPoint { x: bits(1.0), y: bits(2.0), srid: None };
    let blob = p.encode();
    let mut expected: Vec<u8> = vec![0x01, 0x01, 0x00, 0x00, 0x00];
    expected.extend(1.0f64.to_le_bytes());
    expected.extend(2.0f64.to_le_bytes());
    assert_eq!(blob, expected);
}

#[test]
fn negative_srid_two_s_complement_field() {
    let p = GeogPoint { x: bits(0.0), y: bits(0.0), srid: Some(-2) };
    let blob = p.encode();
    // The 4-byte SRID field carries -2 as 0xFFFFFFFE, little-endian.
    assert_eq!(&blob[5..9], &[0xFE, 0xFF, 0xFF, 0xFF]);
}

#[test]
fn linestring_header_and_count_bytes() {
    let ls = GeogLineString {
        points: vec![
            GeogPoint { x: bits(1.0), y: bits(2.0), srid: Some(4326) },
            GeogPoint { x: bits(3.0), y: bits(4.0), srid: Some(4326) },
        ],
        srid: Some(4326),
    };
    let blob = ls.encode();
    // Tag 0x20000002 LE, SRID, count 2 LE, then 2 * 16 coordinate bytes.
    assert_eq!(&blob[0..5], &[0x01, 0x02, 0x00, 0x00, 0x20]);
    assert_eq!(&blob[5..9], &[0xE6, 0x10, 0x00, 0x00]);
    assert_eq!(&blob[9..13], &[0x02, 0x00, 0x00, 0x00]);
    assert_eq!(blob.len(), 13 + 32);
    assert_eq!(&blob[13..21], &1.0f64.to_le_bytes());
    assert_eq!(&blob[21..29], &2.0f64.to_le_bytes());
}

#[test]
fn srid_overwrite_law_on_wire_value() {
    // Encoding a line string whose points hold heterogeneous SRIDs yields a
    // wire value whose every point-level SRID equals the top-level one.
    let ls = GeogLineString {
        points: vec![
            GeogPoint { x: bits(0.0), y: bits(0.0), srid: Some(1) },
            GeogPoint { x: bits(1.0), y: bits(1.0), srid: None },
            GeogPoint { x: bits(2.0), y: bits(2.0), srid: Some(-5) },
        ],
        srid: Some(4326),
    };
    let wire = WireLineString::from(&ls);
    assert_eq!(wire.srid, Some(4326));
    for p in &wire.points {
        assert_eq!(p.srid, Some(4326));
    }
}

#[test]
fn point_passthrough_keeps_srid_both_ways() {
    let p = GeogPoint { x: bits(9.0), y: bits(8.0), srid: Some(42) };
    let w = WirePoint::from(p);
    assert_eq!(w.srid, Some(42));
    assert_eq!(w.x, bits(9.0));
    let back = GeogPoint::from(w);
    assert_eq!(back, p);
}
