//! The library's round-trip laws, proved once and for all over the spec
//! functions that the adapter's contracts are stated with.
//!
//! Together with those contracts each law carries over to the executable
//! pipeline: what `encode` returns is exactly the spec encoding of the
//! stamped wire value, and what `decode` returns is exactly the spec parse
//! of its input.

use vstd::prelude::*;

use crate::codec::{
    lemma_linestring_codec_round_trip, lemma_linestring_z_codec_round_trip,
    lemma_point_codec_round_trip, lemma_pointz_codec_round_trip, lemma_polygon_codec_round_trip,
    spec_decode_linestring, spec_decode_linestring_z, spec_decode_point, spec_decode_pointz,
    spec_decode_polygon, spec_encode_linestring, spec_encode_linestring_z, spec_encode_point,
    spec_encode_pointz, spec_encode_polygon,
};
use crate::geom::{GeogLineString, GeogLineStringZ, GeogPoint, GeogPointZ, GeogPolygon};
use crate::wire::{
    spec_domain_points, spec_domain_points_z, spec_point_from_wire, spec_point_to_wire,
    spec_pointz_from_wire, spec_pointz_to_wire, spec_stamp_wire_points, spec_stamp_wire_points_z,
    spec_stamp_wire_rings,
};

verus! {

/// Round trip of a two-dimensional point: decoding its encoding returns
/// the identical value, whatever its coordinates and whether its SRID is
/// absent or any 32-bit value.
pub proof fn lemma_point_round_trip(p: GeogPoint)
    ensures
        spec_decode_point(spec_encode_point(spec_point_to_wire(p))) == Some(spec_point_to_wire(p)),
        spec_point_from_wire(spec_point_to_wire(p)) == p,
{
    lemma_point_codec_round_trip(spec_point_to_wire(p));
}

/// Round trip of a three-dimensional point: decoding its encoding returns
/// the identical value.
pub proof fn lemma_pointz_round_trip(p: GeogPointZ)
    ensures
        spec_decode_pointz(spec_encode_pointz(spec_pointz_to_wire(p))) == Some(
            spec_pointz_to_wire(p),
        ),
        spec_pointz_from_wire(spec_pointz_to_wire(p)) == p,
{
    lemma_pointz_codec_round_trip(spec_pointz_to_wire(p));
}

/// Round trip of a line string of any number of points: decoding its
/// encoding preserves the point count, the order, every coordinate, and
/// the canonical SRID; every decoded point carries the canonical SRID.
pub proof fn lemma_linestring_round_trip(ls: GeogLineString)
    requires
        ls.points@.len() <= 0xFFFF_FFFF,
    ensures
        ({
            let wire = spec_stamp_wire_points(ls.points@, ls.srid);
            let dec = spec_decode_linestring(spec_encode_linestring(wire, ls.srid));
            dec matches Some(pair) && {
                let back = spec_domain_points(pair.0, pair.1);
                &&& pair.1 == ls.srid
                &&& back.len() == ls.points@.len()
                &&& forall|i: int|
                    0 <= i < ls.points@.len() ==> (#[trigger] back[i]).x == ls.points@[i].x
                        && back[i].y == ls.points@[i].y && back[i].srid == ls.srid
            }
        }),
{
    let wire = spec_stamp_wire_points(ls.points@, ls.srid);
    lemma_linestring_codec_round_trip(wire, ls.srid);
}

/// Three-dimensional variant of `lemma_linestring_round_trip`.
pub proof fn lemma_linestring_z_round_trip(ls: GeogLineStringZ)
    requires
        ls.points@.len() <= 0xFFFF_FFFF,
    ensures
        ({
            let wire = spec_stamp_wire_points_z(ls.points@, ls.srid);
            let dec = spec_decode_linestring_z(spec_encode_linestring_z(wire, ls.srid));
            dec matches Some(pair) && {
                let back = spec_domain_points_z(pair.0, pair.1);
                &&& pair.1 == ls.srid
                &&& back.len() == ls.points@.len()
                &&& forall|i: int|
                    0 <= i < ls.points@.len() ==> (#[trigger] back[i]).x == ls.points@[i].x
                        && back[i].y == ls.points@[i].y && back[i].z == ls.points@[i].z
                        && back[i].srid == ls.srid
            }
        }),
{
    let wire = spec_stamp_wire_points_z(ls.points@, ls.srid);
    lemma_linestring_z_codec_round_trip(wire, ls.srid);
}

/// A line string whose points already carry the canonical SRID decodes
/// from its encoding to the identical point sequence.
pub proof fn lemma_linestring_round_trip_stamped(ls: GeogLineString)
    requires
        ls.points@.len() <= 0xFFFF_FFFF,
        forall|i: int| 0 <= i < ls.points@.len() ==> (#[trigger] ls.points@[i]).srid == ls.srid,
    ensures
        ({
            let wire = spec_stamp_wire_points(ls.points@, ls.srid);
            let dec = spec_decode_linestring(spec_encode_linestring(wire, ls.srid));
            dec matches Some(pair) && spec_domain_points(pair.0, pair.1) == ls.points@ && pair.1
                == ls.srid
        }),
{
    let wire = spec_stamp_wire_points(ls.points@, ls.srid);
    lemma_linestring_codec_round_trip(wire, ls.srid);
    assert(spec_domain_points(wire, ls.srid) =~= ls.points@);
}

/// Round trip of a polygon of any ring structure: decoding its encoding
/// preserves the ring count, ring order, each ring's point count and point
/// order, and every coordinate; every decoded point carries the canonical
/// SRID.
pub proof fn lemma_polygon_round_trip(poly: GeogPolygon)
    requires
        poly.rings@.len() <= 0xFFFF_FFFF,
        forall|i: int|
            0 <= i < poly.rings@.len() ==> (#[trigger] poly.rings@[i]).points@.len()
                <= 0xFFFF_FFFF,
    ensures
        ({
            let wire = spec_stamp_wire_rings(poly.rings@, poly.srid);
            let dec = spec_decode_polygon(spec_encode_polygon(wire, poly.srid));
            dec matches Some(pair) && {
                &&& pair.1 == poly.srid
                &&& pair.0.len() == poly.rings@.len()
                &&& forall|i: int|
                    0 <= i < poly.rings@.len() ==> (#[trigger] pair.0[i]).len()
                        == poly.rings@[i].points@.len()
                &&& forall|i: int, j: int|
                    0 <= i < poly.rings@.len() && 0 <= j < poly.rings@[i].points@.len() ==> (
                    #[trigger] pair.0[i][j]).x == poly.rings@[i].points@[j].x && pair.0[i][j].y
                        == poly.rings@[i].points@[j].y && pair.0[i][j].srid == poly.srid
            }
        }),
{
    let wire = spec_stamp_wire_rings(poly.rings@, poly.srid);
    assert forall|i: int| 0 <= i < wire.len() implies (#[trigger] wire[i]).len()
        <= 0xFFFF_FFFF by {
        assert(wire[i] == spec_stamp_wire_points(poly.rings@[i].points@, poly.srid));
    }
    assert forall|i: int, j: int|
        0 <= i < wire.len() && 0 <= j < wire[i].len() implies (#[trigger] wire[i][j]).srid
        == poly.srid by {
        assert(wire[i] == spec_stamp_wire_points(poly.rings@[i].points@, poly.srid));
    }
    lemma_polygon_codec_round_trip(wire, poly.srid);
}

} // verus!
