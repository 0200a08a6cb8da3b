//! The byte-level codec: one canonical wire variant, little-endian,
//! SRID-flag-set extended well-known binary.
//!
//! A blob is a byte-order marker (always `0x01`, little-endian), a u32
//! geometry-type tag with flag bits (an SRID-present flag and a Z flag),
//! an optional 4-byte SRID, and packed coordinate data. Coordinates travel
//! as opaque 8-byte packets, never interpreted.
//!
//! Every encoder has an exact functional contract against a spec-level
//! encoding function, and every decoder against a spec-level total parse
//! function; the round-trip laws are proved from those.

use vstd::bytes::{
    lemma_auto_spec_u32_to_from_le_bytes, lemma_auto_spec_u64_to_from_le_bytes,
    spec_u32_from_le_bytes, spec_u32_to_le_bytes, spec_u64_from_le_bytes, spec_u64_to_le_bytes,
    u32_from_le_bytes, u32_to_le_bytes, u64_from_le_bytes, u64_to_le_bytes,
};
use vstd::prelude::*;
use vstd::slice::slice_subrange;

use crate::geom::{DecodeError, GeomKind};
use crate::wire::WireLineString;
use crate::wire::WireLineStringZ;
use crate::wire::WirePoint;
use crate::wire::WirePointZ;
use crate::wire::WirePolygon;

verus! {

/// Byte-order marker of the canonical variant: little-endian.
pub const BYTE_ORDER_LE: u8 = 0x01;

/// Base type code of a point geometry.
pub const TAG_POINT: u32 = 0x01;

/// Base type code of a line string geometry.
pub const TAG_LINESTRING: u32 = 0x02;

/// Base type code of a polygon geometry.
pub const TAG_POLYGON: u32 = 0x03;

/// Flag bit of the type tag: a 4-byte SRID follows the tag.
pub const FLAG_SRID: u32 = 0x2000_0000;

/// Flag bit of the type tag: coordinates carry an elevation value.
pub const FLAG_Z: u32 = 0x8000_0000;

/// The unsigned value of the 4-byte SRID wire field carrying a signed SRID:
/// two's complement.
pub open spec fn spec_srid_bits(s: i32) -> u32 {
    if s >= 0 {
        s as u32
    } else {
        ((s as int) + 0x1_0000_0000) as u32
    }
}

/// The signed SRID carried by an unsigned 4-byte SRID wire field: two's
/// complement.
pub open spec fn spec_bits_srid(v: u32) -> i32 {
    if v < 0x8000_0000 {
        v as i32
    } else {
        ((v as int) - 0x1_0000_0000) as i32
    }
}

/// Converts a signed SRID to its 4-byte wire field value.
fn srid_to_bits(s: i32) -> (r: u32)
    ensures
        r == spec_srid_bits(s),
{
    if s >= 0 {
        s as u32
    } else {
        ((s as i64) + 0x1_0000_0000i64) as u32
    }
}

/// Reads a signed SRID out of its 4-byte wire field value.
fn bits_to_srid(v: u32) -> (r: i32)
    ensures
        r == spec_bits_srid(v),
{
    if v < 0x8000_0000 {
        v as i32
    } else {
        ((v as i64) - 0x1_0000_0000i64) as i32
    }
}

/// The type tag of a geometry: base code, Z flag, SRID-present flag.
pub open spec fn spec_tag(base: u32, z: bool, srid: Option<i32>) -> u32 {
    let zt = if z {
        base | FLAG_Z
    } else {
        base
    };
    if srid is Some {
        zt | FLAG_SRID
    } else {
        zt
    }
}

/// The header bytes of a geometry: byte-order marker, type tag, and the
/// 4-byte SRID when one is present.
pub open spec fn spec_header(base: u32, z: bool, srid: Option<i32>) -> Seq<u8> {
    seq![BYTE_ORDER_LE] + spec_u32_to_le_bytes(spec_tag(base, z, srid)) + (match srid {
        Some(s) => spec_u32_to_le_bytes(spec_srid_bits(s)),
        None => Seq::<u8>::empty(),
    })
}

/// How many bytes the header takes.
pub open spec fn spec_header_len(srid: Option<i32>) -> int {
    if srid is Some {
        9
    } else {
        5
    }
}

/// Total parse of a header expecting one base code and one dimensionality:
/// the SRID carried (or absent) and the offset where the body starts, or
/// `None` when the bytes do not begin with such a header.
pub open spec fn spec_parse_header(b: Seq<u8>, base: u32, z: bool) -> Option<(Option<i32>, int)> {
    if b.len() < 5 {
        None
    } else if b[0] != BYTE_ORDER_LE {
        None
    } else {
        let tag = spec_u32_from_le_bytes(b.subrange(1, 5));
        if tag == spec_tag(base, z, None::<i32>) {
            Some((None::<i32>, 5))
        } else if tag == spec_tag(base, z, Some(0i32)) {
            if b.len() >= 9 {
                Some((Some(spec_bits_srid(spec_u32_from_le_bytes(b.subrange(5, 9)))), 9))
            } else {
                None
            }
        } else {
            None
        }
    }
}

/// The 16-byte body of a two-dimensional point: both coordinate packets.
pub open spec fn spec_point_body(x: u64, y: u64) -> Seq<u8> {
    spec_u64_to_le_bytes(x) + spec_u64_to_le_bytes(y)
}

/// The 24-byte body of a three-dimensional point.
pub open spec fn spec_point_body_z(x: u64, y: u64, z: u64) -> Seq<u8> {
    spec_u64_to_le_bytes(x) + spec_u64_to_le_bytes(y) + spec_u64_to_le_bytes(z)
}

/// The full encoding of a two-dimensional point.
pub open spec fn spec_encode_point(p: WirePoint) -> Seq<u8> {
    spec_header(TAG_POINT, false, p.srid) + spec_point_body(p.x, p.y)
}

/// The full encoding of a three-dimensional point.
pub open spec fn spec_encode_pointz(p: WirePointZ) -> Seq<u8> {
    spec_header(TAG_POINT, true, p.srid) + spec_point_body_z(p.x, p.y, p.z)
}

/// Total parse of a two-dimensional point blob.
pub open spec fn spec_decode_point(b: Seq<u8>) -> Option<WirePoint> {
    match spec_parse_header(b, TAG_POINT, false) {
        None => None,
        Some((srid, off)) => if b.len() == off + 16 {
            Some(
                WirePoint {
                    x: spec_u64_from_le_bytes(b.subrange(off, off + 8)),
                    y: spec_u64_from_le_bytes(b.subrange(off + 8, off + 16)),
                    srid,
                },
            )
        } else {
            None
        },
    }
}

/// Total parse of a three-dimensional point blob.
pub open spec fn spec_decode_pointz(b: Seq<u8>) -> Option<WirePointZ> {
    match spec_parse_header(b, TAG_POINT, true) {
        None => None,
        Some((srid, off)) => if b.len() == off + 24 {
            Some(
                WirePointZ {
                    x: spec_u64_from_le_bytes(b.subrange(off, off + 8)),
                    y: spec_u64_from_le_bytes(b.subrange(off + 8, off + 16)),
                    z: spec_u64_from_le_bytes(b.subrange(off + 16, off + 24)),
                    srid,
                },
            )
        } else {
            None
        },
    }
}

/// A signed SRID survives the pass through its unsigned 4-byte wire field.
proof fn lemma_srid_cast(s: i32)
    ensures
        spec_bits_srid(spec_srid_bits(s)) == s,
{
}

/// Parsing bytes that begin with a well-formed header yields exactly that
/// header's SRID and body offset, and leaves exactly the trailing bytes.
pub proof fn lemma_parse_header(base: u32, z: bool, srid: Option<i32>, rest: Seq<u8>)
    requires
        base == TAG_POINT || base == TAG_LINESTRING || base == TAG_POLYGON,
    ensures
        spec_parse_header(spec_header(base, z, srid) + rest, base, z) == Some(
            (srid, spec_header_len(srid)),
        ),
        (spec_header(base, z, srid) + rest).len() == spec_header_len(srid) + rest.len(),
        (spec_header(base, z, srid) + rest).skip(spec_header_len(srid)) == rest,
{
    lemma_auto_spec_u32_to_from_le_bytes();
    let tag = spec_tag(base, z, srid);
    let hb = spec_header(base, z, srid);
    let b = hb + rest;
    assert(spec_u32_to_le_bytes(tag).len() == 4);
    assert(b[0] == BYTE_ORDER_LE);
    assert(b.subrange(1, 5) =~= spec_u32_to_le_bytes(tag));
    assert(spec_u32_from_le_bytes(b.subrange(1, 5)) == tag);
    let zt = if z {
        base | FLAG_Z
    } else {
        base
    };
    assert(base <= 3 ==> ((base | 0x8000_0000u32) | 0x2000_0000u32) != (base | 0x8000_0000u32))
        by (bit_vector);
    assert(base <= 3 ==> (base | 0x2000_0000u32) != base) by (bit_vector);
    match srid {
        None => {
            assert(hb.len() == 5);
            assert(spec_parse_header(b, base, z) == Some((None::<i32>, 5int)));
            assert(b.skip(5) =~= rest);
        },
        Some(s) => {
            assert(hb.len() == 9);
            assert(tag == spec_tag(base, z, Some(0i32)));
            assert(tag != spec_tag(base, z, None::<i32>));
            assert(b.subrange(5, 9) =~= spec_u32_to_le_bytes(spec_srid_bits(s)));
            assert(spec_u32_from_le_bytes(b.subrange(5, 9)) == spec_srid_bits(s));
            lemma_srid_cast(s);
            assert(spec_parse_header(b, base, z) == Some((Some(s), 9int)));
            assert(b.skip(9) =~= rest);
        },
    }
}

/// A point blob decodes back to exactly the point it encoded.
pub proof fn lemma_point_codec_round_trip(p: WirePoint)
    ensures
        spec_decode_point(spec_encode_point(p)) == Some(p),
{
    lemma_auto_spec_u64_to_from_le_bytes();
    let body = spec_point_body(p.x, p.y);
    lemma_parse_header(TAG_POINT, false, p.srid, body);
    let b = spec_encode_point(p);
    let off = spec_header_len(p.srid);
    assert(spec_u64_to_le_bytes(p.x).len() == 8);
    assert(b.len() == off + 16);
    assert(b.subrange(off, off + 8) =~= spec_u64_to_le_bytes(p.x));
    assert(b.subrange(off + 8, off + 16) =~= spec_u64_to_le_bytes(p.y));
}

/// A three-dimensional point blob decodes back to exactly the point it
/// encoded.
pub proof fn lemma_pointz_codec_round_trip(p: WirePointZ)
    ensures
        spec_decode_pointz(spec_encode_pointz(p)) == Some(p),
{
    lemma_auto_spec_u64_to_from_le_bytes();
    let body = spec_point_body_z(p.x, p.y, p.z);
    lemma_parse_header(TAG_POINT, true, p.srid, body);
    let b = spec_encode_pointz(p);
    let off = spec_header_len(p.srid);
    assert(spec_u64_to_le_bytes(p.x).len() == 8);
    assert(b.len() == off + 24);
    assert(b.subrange(off, off + 8) =~= spec_u64_to_le_bytes(p.x));
    assert(b.subrange(off + 8, off + 16) =~= spec_u64_to_le_bytes(p.y));
    assert(b.subrange(off + 16, off + 24) =~= spec_u64_to_le_bytes(p.z));
}

/// The packed coordinate data of two-dimensional points: 16 bytes each, in
/// order, with no per-point header.
pub open spec fn spec_coords(ps: Seq<WirePoint>) -> Seq<u8>
    decreases ps.len(),
{
    if ps.len() == 0 {
        Seq::<u8>::empty()
    } else {
        spec_point_body(ps[0].x, ps[0].y) + spec_coords(ps.drop_first())
    }
}

/// The packed coordinate data of three-dimensional points: 24 bytes each.
pub open spec fn spec_coords_z(ps: Seq<WirePointZ>) -> Seq<u8>
    decreases ps.len(),
{
    if ps.len() == 0 {
        Seq::<u8>::empty()
    } else {
        spec_point_body_z(ps[0].x, ps[0].y, ps[0].z) + spec_coords_z(ps.drop_first())
    }
}

/// The full encoding of a line string: header, 4-byte point count, packed
/// coordinates.
pub open spec fn spec_encode_linestring(ps: Seq<WirePoint>, srid: Option<i32>) -> Seq<u8>
    recommends
        ps.len() <= 0xFFFF_FFFF,
{
    spec_header(TAG_LINESTRING, false, srid) + spec_u32_to_le_bytes(ps.len() as u32)
        + spec_coords(ps)
}

/// The full encoding of a three-dimensional line string.
pub open spec fn spec_encode_linestring_z(ps: Seq<WirePointZ>, srid: Option<i32>) -> Seq<u8>
    recommends
        ps.len() <= 0xFFFF_FFFF,
{
    spec_header(TAG_LINESTRING, true, srid) + spec_u32_to_le_bytes(ps.len() as u32)
        + spec_coords_z(ps)
}

/// The `n` two-dimensional points whose packed coordinates sit at offset
/// `at` of `b`, each stamped with the wrapper-level SRID.
pub open spec fn spec_points_at(b: Seq<u8>, at: int, n: int, srid: Option<i32>) -> Seq<WirePoint> {
    Seq::new(
        n as nat,
        |i: int|
            WirePoint {
                x: spec_u64_from_le_bytes(b.subrange(at + 16 * i, at + 16 * i + 8)),
                y: spec_u64_from_le_bytes(b.subrange(at + 16 * i + 8, at + 16 * i + 16)),
                srid,
            },
    )
}

/// The `n` three-dimensional points whose packed coordinates sit at offset
/// `at` of `b`.
pub open spec fn spec_points_z_at(
    b: Seq<u8>,
    at: int,
    n: int,
    srid: Option<i32>,
) -> Seq<WirePointZ> {
    Seq::new(
        n as nat,
        |i: int|
            WirePointZ {
                x: spec_u64_from_le_bytes(b.subrange(at + 24 * i, at + 24 * i + 8)),
                y: spec_u64_from_le_bytes(b.subrange(at + 24 * i + 8, at + 24 * i + 16)),
                z: spec_u64_from_le_bytes(b.subrange(at + 24 * i + 16, at + 24 * i + 24)),
                srid,
            },
    )
}

/// Total parse of a line string blob: the points (stamped with the
/// wrapper-level SRID) and that SRID.
pub open spec fn spec_decode_linestring(b: Seq<u8>) -> Option<(Seq<WirePoint>, Option<i32>)> {
    match spec_parse_header(b, TAG_LINESTRING, false) {
        None => None,
        Some((srid, off)) => if b.len() < off + 4 {
            None
        } else {
            let n = spec_u32_from_le_bytes(b.subrange(off, off + 4)) as int;
            if b.len() == off + 4 + 16 * n {
                Some((spec_points_at(b, off + 4, n, srid), srid))
            } else {
                None
            }
        },
    }
}

/// Total parse of a three-dimensional line string blob.
pub open spec fn spec_decode_linestring_z(b: Seq<u8>) -> Option<(Seq<WirePointZ>, Option<i32>)> {
    match spec_parse_header(b, TAG_LINESTRING, true) {
        None => None,
        Some((srid, off)) => if b.len() < off + 4 {
            None
        } else {
            let n = spec_u32_from_le_bytes(b.subrange(off, off + 4)) as int;
            if b.len() == off + 4 + 24 * n {
                Some((spec_points_z_at(b, off + 4, n, srid), srid))
            } else {
                None
            }
        },
    }
}

/// Packed coordinates take 16 bytes per point.
pub proof fn lemma_coords_len(ps: Seq<WirePoint>)
    ensures
        spec_coords(ps).len() == 16 * ps.len(),
    decreases ps.len(),
{
    lemma_auto_spec_u64_to_from_le_bytes();
    if ps.len() > 0 {
        lemma_coords_len(ps.drop_first());
    }
}

/// Packed coordinates take 24 bytes per three-dimensional point.
pub proof fn lemma_coords_z_len(ps: Seq<WirePointZ>)
    ensures
        spec_coords_z(ps).len() == 24 * ps.len(),
    decreases ps.len(),
{
    lemma_auto_spec_u64_to_from_le_bytes();
    if ps.len() > 0 {
        lemma_coords_z_len(ps.drop_first());
    }
}

/// Appending one point to a sequence appends its 16-byte body to the
/// packed coordinates.
pub proof fn lemma_coords_snoc(ps: Seq<WirePoint>, p: WirePoint)
    ensures
        spec_coords(ps.push(p)) == spec_coords(ps) + spec_point_body(p.x, p.y),
    decreases ps.len(),
{
    if ps.len() == 0 {
        reveal_with_fuel(spec_coords, 2);
        assert(ps.push(p).drop_first() =~= Seq::<WirePoint>::empty());
        assert(spec_coords(ps.push(p)) =~= spec_coords(ps) + spec_point_body(p.x, p.y));
    } else {
        assert(ps.push(p).drop_first() =~= ps.drop_first().push(p));
        lemma_coords_snoc(ps.drop_first(), p);
        assert(spec_coords(ps.push(p)) =~= spec_coords(ps) + spec_point_body(p.x, p.y));
    }
}

/// Three-dimensional variant of `lemma_coords_snoc`.
pub proof fn lemma_coords_z_snoc(ps: Seq<WirePointZ>, p: WirePointZ)
    ensures
        spec_coords_z(ps.push(p)) == spec_coords_z(ps) + spec_point_body_z(p.x, p.y, p.z),
    decreases ps.len(),
{
    if ps.len() == 0 {
        reveal_with_fuel(spec_coords_z, 2);
        assert(ps.push(p).drop_first() =~= Seq::<WirePointZ>::empty());
        assert(spec_coords_z(ps.push(p)) =~= spec_coords_z(ps) + spec_point_body_z(p.x, p.y, p.z));
    } else {
        assert(ps.push(p).drop_first() =~= ps.drop_first().push(p));
        lemma_coords_z_snoc(ps.drop_first(), p);
        assert(spec_coords_z(ps.push(p)) =~= spec_coords_z(ps) + spec_point_body_z(p.x, p.y, p.z));
    }
}

/// The 16-byte slice at position `i` of packed coordinates is the body of
/// point `i`.
pub proof fn lemma_coords_index(ps: Seq<WirePoint>, i: int)
    requires
        0 <= i < ps.len(),
    ensures
        spec_coords(ps).subrange(16 * i, 16 * i + 16) == spec_point_body(ps[i].x, ps[i].y),
    decreases i,
{
    lemma_auto_spec_u64_to_from_le_bytes();
    lemma_coords_len(ps);
    lemma_coords_len(ps.drop_first());
    if i == 0 {
        assert(spec_coords(ps).subrange(0, 16) =~= spec_point_body(ps[0].x, ps[0].y));
    } else {
        lemma_coords_index(ps.drop_first(), i - 1);
        assert(spec_coords(ps).subrange(16 * i, 16 * i + 16) =~= spec_coords(
            ps.drop_first(),
        ).subrange(16 * (i - 1), 16 * (i - 1) + 16));
    }
}

/// Three-dimensional variant of `lemma_coords_index`.
pub proof fn lemma_coords_z_index(ps: Seq<WirePointZ>, i: int)
    requires
        0 <= i < ps.len(),
    ensures
        spec_coords_z(ps).subrange(24 * i, 24 * i + 24) == spec_point_body_z(
            ps[i].x,
            ps[i].y,
            ps[i].z,
        ),
    decreases i,
{
    lemma_auto_spec_u64_to_from_le_bytes();
    lemma_coords_z_len(ps);
    lemma_coords_z_len(ps.drop_first());
    if i == 0 {
        assert(spec_coords_z(ps).subrange(0, 24) =~= spec_point_body_z(ps[0].x, ps[0].y, ps[0].z));
    } else {
        lemma_coords_z_index(ps.drop_first(), i - 1);
        assert(spec_coords_z(ps).subrange(24 * i, 24 * i + 24) =~= spec_coords_z(
            ps.drop_first(),
        ).subrange(24 * (i - 1), 24 * (i - 1) + 24));
    }
}

/// A line string blob decodes back to exactly the points and SRID it
/// encoded, provided every point already carried the wrapper-level SRID —
/// which the encoder's overwrite guarantees of every blob it builds.
pub proof fn lemma_linestring_codec_round_trip(ps: Seq<WirePoint>, srid: Option<i32>)
    requires
        ps.len() <= 0xFFFF_FFFF,
        forall|i: int| 0 <= i < ps.len() ==> ps[i].srid == srid,
    ensures
        spec_decode_linestring(spec_encode_linestring(ps, srid)) == Some((ps, srid)),
{
    lemma_auto_spec_u32_to_from_le_bytes();
    lemma_auto_spec_u64_to_from_le_bytes();
    lemma_coords_len(ps);
    let body = spec_u32_to_le_bytes(ps.len() as u32) + spec_coords(ps);
    lemma_parse_header(TAG_LINESTRING, false, srid, body);
    let b = spec_encode_linestring(ps, srid);
    let off = spec_header_len(srid);
    assert(b =~= spec_header(TAG_LINESTRING, false, srid) + body);
    assert(b.subrange(off, off + 4) =~= spec_u32_to_le_bytes(ps.len() as u32));
    assert(spec_u32_from_le_bytes(b.subrange(off, off + 4)) as int == ps.len());
    assert(b.len() == off + 4 + 16 * ps.len());
    let dec = spec_points_at(b, off + 4, ps.len() as int, srid);
    assert forall|i: int| 0 <= i < ps.len() implies dec[i] == ps[i] by {
        lemma_coords_index(ps, i);
        assert(b.subrange(off + 4 + 16 * i, off + 4 + 16 * i + 8) =~= spec_coords(ps).subrange(
            16 * i,
            16 * i + 16,
        ).subrange(0, 8));
        assert(b.subrange(off + 4 + 16 * i + 8, off + 4 + 16 * i + 16) =~= spec_coords(
            ps,
        ).subrange(16 * i, 16 * i + 16).subrange(8, 16));
        assert(spec_point_body(ps[i].x, ps[i].y).subrange(0, 8) =~= spec_u64_to_le_bytes(ps[i].x));
        assert(spec_point_body(ps[i].x, ps[i].y).subrange(8, 16) =~= spec_u64_to_le_bytes(
            ps[i].y,
        ));
    }
    assert(dec =~= ps);
}

/// Three-dimensional variant of `lemma_linestring_codec_round_trip`.
pub proof fn lemma_linestring_z_codec_round_trip(ps: Seq<WirePointZ>, srid: Option<i32>)
    requires
        ps.len() <= 0xFFFF_FFFF,
        forall|i: int| 0 <= i < ps.len() ==> ps[i].srid == srid,
    ensures
        spec_decode_linestring_z(spec_encode_linestring_z(ps, srid)) == Some((ps, srid)),
{
    lemma_auto_spec_u32_to_from_le_bytes();
    lemma_auto_spec_u64_to_from_le_bytes();
    lemma_coords_z_len(ps);
    let body = spec_u32_to_le_bytes(ps.len() as u32) + spec_coords_z(ps);
    lemma_parse_header(TAG_LINESTRING, true, srid, body);
    let b = spec_encode_linestring_z(ps, srid);
    let off = spec_header_len(srid);
    assert(b =~= spec_header(TAG_LINESTRING, true, srid) + body);
    assert(b.subrange(off, off + 4) =~= spec_u32_to_le_bytes(ps.len() as u32));
    assert(spec_u32_from_le_bytes(b.subrange(off, off + 4)) as int == ps.len());
    assert(b.len() == off + 4 + 24 * ps.len());
    let dec = spec_points_z_at(b, off + 4, ps.len() as int, srid);
    assert forall|i: int| 0 <= i < ps.len() implies dec[i] == ps[i] by {
        lemma_coords_z_index(ps, i);
        assert(b.subrange(off + 4 + 24 * i, off + 4 + 24 * i + 8) =~= spec_coords_z(ps).subrange(
            24 * i,
            24 * i + 24,
        ).subrange(0, 8));
        assert(b.subrange(off + 4 + 24 * i + 8, off + 4 + 24 * i + 16) =~= spec_coords_z(
            ps,
        ).subrange(24 * i, 24 * i + 24).subrange(8, 16));
        assert(b.subrange(off + 4 + 24 * i + 16, off + 4 + 24 * i + 24) =~= spec_coords_z(
            ps,
        ).subrange(24 * i, 24 * i + 24).subrange(16, 24));
        assert(spec_point_body_z(ps[i].x, ps[i].y, ps[i].z).subrange(0, 8) =~= spec_u64_to_le_bytes(
            ps[i].x,
        ));
        assert(spec_point_body_z(ps[i].x, ps[i].y, ps[i].z).subrange(8, 16)
            =~= spec_u64_to_le_bytes(ps[i].y));
        assert(spec_point_body_z(ps[i].x, ps[i].y, ps[i].z).subrange(16, 24)
            =~= spec_u64_to_le_bytes(ps[i].z));
    }
    assert(dec =~= ps);
}

/// The point sequences of a sequence of wire rings.
pub open spec fn spec_rings_view(rs: Seq<WireLineString>) -> Seq<Seq<WirePoint>> {
    Seq::new(rs.len(), |i: int| rs[i].points@)
}

/// The encoding of one ring: 4-byte point count, packed coordinates. A ring
/// carries no header and no SRID of its own on the wire.
pub open spec fn spec_encode_ring(ps: Seq<WirePoint>) -> Seq<u8>
    recommends
        ps.len() <= 0xFFFF_FFFF,
{
    spec_u32_to_le_bytes(ps.len() as u32) + spec_coords(ps)
}

/// The concatenated encodings of a polygon's rings, in order.
pub open spec fn spec_encode_rings(rs: Seq<Seq<WirePoint>>) -> Seq<u8>
    decreases rs.len(),
{
    if rs.len() == 0 {
        Seq::<u8>::empty()
    } else {
        spec_encode_ring(rs[0]) + spec_encode_rings(rs.drop_first())
    }
}

/// The full encoding of a polygon: header, 4-byte ring count, the rings.
pub open spec fn spec_encode_polygon(rs: Seq<Seq<WirePoint>>, srid: Option<i32>) -> Seq<u8>
    recommends
        rs.len() <= 0xFFFF_FFFF,
{
    spec_header(TAG_POLYGON, false, srid) + spec_u32_to_le_bytes(rs.len() as u32)
        + spec_encode_rings(rs)
}

/// Peels `m` rings off the front of `b`: the rings' points (each stamped
/// with the wrapper-level SRID) and the bytes left over, or `None` when a
/// ring is truncated.
pub open spec fn spec_decode_rings(b: Seq<u8>, m: int, srid: Option<i32>) -> Option<
    (Seq<Seq<WirePoint>>, Seq<u8>),
>
    decreases m,
{
    if m <= 0 {
        Some((Seq::<Seq<WirePoint>>::empty(), b))
    } else if b.len() < 4 {
        None
    } else {
        let n = spec_u32_from_le_bytes(b.subrange(0, 4)) as int;
        if b.len() < 4 + 16 * n {
            None
        } else {
            let ring = spec_points_at(b, 4, n, srid);
            match spec_decode_rings(b.skip(4 + 16 * n), m - 1, srid) {
                Some(pr) => Some((seq![ring] + pr.0, pr.1)),
                None => None,
            }
        }
    }
}

/// Total parse of a polygon blob: the rings' points (each point stamped
/// with the wrapper-level SRID) and that SRID.
pub open spec fn spec_decode_polygon(b: Seq<u8>) -> Option<(Seq<Seq<WirePoint>>, Option<i32>)> {
    match spec_parse_header(b, TAG_POLYGON, false) {
        None => None,
        Some((srid, off)) => if b.len() < off + 4 {
            None
        } else {
            let m = spec_u32_from_le_bytes(b.subrange(off, off + 4)) as int;
            match spec_decode_rings(b.skip(off + 4), m, srid) {
                Some(pr) => if pr.1.len() == 0 {
                    Some((pr.0, srid))
                } else {
                    None
                },
                None => None,
            }
        },
    }
}

/// Appending one ring to a sequence appends its encoding to the
/// concatenated ring encodings.
pub proof fn lemma_encode_rings_snoc(rs: Seq<Seq<WirePoint>>, r: Seq<WirePoint>)
    ensures
        spec_encode_rings(rs.push(r)) == spec_encode_rings(rs) + spec_encode_ring(r),
    decreases rs.len(),
{
    if rs.len() == 0 {
        reveal_with_fuel(spec_encode_rings, 2);
        assert(rs.push(r).drop_first() =~= Seq::<Seq<WirePoint>>::empty());
        assert(spec_encode_rings(rs.push(r)) =~= spec_encode_rings(rs) + spec_encode_ring(r));
    } else {
        assert(rs.push(r).drop_first() =~= rs.drop_first().push(r));
        lemma_encode_rings_snoc(rs.drop_first(), r);
        assert(spec_encode_rings(rs.push(r)) =~= spec_encode_rings(rs) + spec_encode_ring(r));
    }
}

/// Points read back off packed coordinates that sit inside a larger blob
/// are exactly the points whose coordinates they are, provided each already
/// carries the stamped SRID.
pub proof fn lemma_points_at(b: Seq<u8>, at: int, ps: Seq<WirePoint>, srid: Option<i32>)
    requires
        0 <= at,
        at + 16 * ps.len() <= b.len(),
        b.subrange(at, at + 16 * ps.len()) == spec_coords(ps),
        forall|i: int| 0 <= i < ps.len() ==> ps[i].srid == srid,
    ensures
        spec_points_at(b, at, ps.len() as int, srid) == ps,
{
    lemma_auto_spec_u64_to_from_le_bytes();
    lemma_coords_len(ps);
    let dec = spec_points_at(b, at, ps.len() as int, srid);
    assert forall|i: int| 0 <= i < ps.len() implies dec[i] == ps[i] by {
        lemma_coords_index(ps, i);
        assert(b.subrange(at + 16 * i, at + 16 * i + 8) =~= spec_coords(ps).subrange(
            16 * i,
            16 * i + 16,
        ).subrange(0, 8));
        assert(b.subrange(at + 16 * i + 8, at + 16 * i + 16) =~= spec_coords(ps).subrange(
            16 * i,
            16 * i + 16,
        ).subrange(8, 16));
        assert(spec_point_body(ps[i].x, ps[i].y).subrange(0, 8) =~= spec_u64_to_le_bytes(ps[i].x));
        assert(spec_point_body(ps[i].x, ps[i].y).subrange(8, 16) =~= spec_u64_to_le_bytes(
            ps[i].y,
        ));
    }
    assert(dec =~= ps);
}

/// Reading points relative to a suffix of the blob reads the same points
/// as reading them at the absolute offset.
pub proof fn lemma_points_at_skip(b: Seq<u8>, pos: int, n: int, srid: Option<i32>)
    requires
        0 <= pos,
        0 <= n,
        pos + 4 + 16 * n <= b.len(),
    ensures
        spec_points_at(b.skip(pos), 4, n, srid) == spec_points_at(b, pos + 4, n, srid),
{
    let a = spec_points_at(b.skip(pos), 4, n, srid);
    let c = spec_points_at(b, pos + 4, n, srid);
    assert forall|i: int| 0 <= i < n implies a[i] == c[i] by {
        assert(b.skip(pos).subrange(4 + 16 * i, 4 + 16 * i + 8) =~= b.subrange(
            pos + 4 + 16 * i,
            pos + 4 + 16 * i + 8,
        ));
        assert(b.skip(pos).subrange(4 + 16 * i + 8, 4 + 16 * i + 16) =~= b.subrange(
            pos + 4 + 16 * i + 8,
            pos + 4 + 16 * i + 16,
        ));
    }
    assert(a =~= c);
}

/// Ring encodings followed by trailing bytes peel back to exactly those
/// rings and that trailer, provided every point carries the stamped SRID.
pub proof fn lemma_rings_round_trip(rs: Seq<Seq<WirePoint>>, srid: Option<i32>, rest: Seq<u8>)
    requires
        forall|i: int| 0 <= i < rs.len() ==> (#[trigger] rs[i]).len() <= 0xFFFF_FFFF,
        forall|i: int, j: int|
            0 <= i < rs.len() && 0 <= j < rs[i].len() ==> (#[trigger] rs[i][j]).srid == srid,
    ensures
        spec_decode_rings(spec_encode_rings(rs) + rest, rs.len() as int, srid) == Some((rs, rest)),
    decreases rs.len(),
{
    lemma_auto_spec_u32_to_from_le_bytes();
    lemma_auto_spec_u64_to_from_le_bytes();
    if rs.len() == 0 {
        assert(spec_encode_rings(rs) + rest =~= rest);
        assert(rs =~= Seq::<Seq<WirePoint>>::empty());
    } else {
        let r0 = rs[0];
        let tail = rs.drop_first();
        let b = spec_encode_rings(rs) + rest;
        let n = r0.len() as int;
        lemma_coords_len(r0);
        assert(b =~= spec_encode_ring(r0) + (spec_encode_rings(tail) + rest));
        assert(b.subrange(0, 4) =~= spec_u32_to_le_bytes(r0.len() as u32));
        assert(spec_u32_from_le_bytes(b.subrange(0, 4)) as int == n);
        assert(b.len() >= 4 + 16 * n);
        assert(b.subrange(4, 4 + 16 * n) =~= spec_coords(r0));
        assert forall|j: int| 0 <= j < r0.len() implies r0[j].srid == srid by {
            assert(rs[0][j].srid == srid);
        }
        lemma_points_at(b, 4, r0, srid);
        assert(b.skip(4 + 16 * n) =~= spec_encode_rings(tail) + rest);
        assert forall|i: int| 0 <= i < tail.len() implies (#[trigger] tail[i]).len()
            <= 0xFFFF_FFFF by {
            assert(tail[i] == rs[i + 1]);
        }
        assert forall|i: int, j: int|
            0 <= i < tail.len() && 0 <= j < tail[i].len() implies (#[trigger] tail[i][j]).srid
            == srid by {
            assert(tail[i] == rs[i + 1]);
            assert(rs[i + 1][j].srid == srid);
        }
        lemma_rings_round_trip(tail, srid, rest);
        assert(seq![r0] + tail =~= rs);
        assert(spec_decode_rings(b, rs.len() as int, srid) == Some((rs, rest)));
    }
}

/// A polygon blob decodes back to exactly the rings and SRID it encoded,
/// provided every point already carried the wrapper-level SRID — which the
/// encoder's overwrite guarantees of every blob it builds.
pub proof fn lemma_polygon_codec_round_trip(rs: Seq<Seq<WirePoint>>, srid: Option<i32>)
    requires
        rs.len() <= 0xFFFF_FFFF,
        forall|i: int| 0 <= i < rs.len() ==> (#[trigger] rs[i]).len() <= 0xFFFF_FFFF,
        forall|i: int, j: int|
            0 <= i < rs.len() && 0 <= j < rs[i].len() ==> (#[trigger] rs[i][j]).srid == srid,
    ensures
        spec_decode_polygon(spec_encode_polygon(rs, srid)) == Some((rs, srid)),
{
    lemma_auto_spec_u32_to_from_le_bytes();
    let body = spec_u32_to_le_bytes(rs.len() as u32) + spec_encode_rings(rs);
    lemma_parse_header(TAG_POLYGON, false, srid, body);
    let b = spec_encode_polygon(rs, srid);
    let off = spec_header_len(srid);
    assert(b =~= spec_header(TAG_POLYGON, false, srid) + body);
    assert(b.subrange(off, off + 4) =~= spec_u32_to_le_bytes(rs.len() as u32));
    assert(spec_u32_from_le_bytes(b.subrange(off, off + 4)) as int == rs.len());
    assert(b.skip(off + 4) =~= spec_encode_rings(rs) + Seq::<u8>::empty());
    lemma_rings_round_trip(rs, srid, Seq::<u8>::empty());
}

/// Appends the header of one geometry to the output buffer.
fn write_header(base: u32, z: bool, srid: Option<i32>, out: &mut Vec<u8>)
    ensures
        final (out)@ == old(out)@ + spec_header(base, z, srid),
{
    out.push(BYTE_ORDER_LE);
    let zt: u32 = if z {
        base | FLAG_Z
    } else {
        base
    };
    let tag: u32 = match srid {
        Some(_) => zt | FLAG_SRID,
        None => zt,
    };
    proof {
        assert(tag == spec_tag(base, z, srid));
    }
    let mut tag_bytes = u32_to_le_bytes(tag);
    out.append(&mut tag_bytes);
    match srid {
        Some(s) => {
            let mut srid_bytes = u32_to_le_bytes(srid_to_bits(s));
            out.append(&mut srid_bytes);
        },
        None => {},
    }
    proof {
        assert(out@ =~= old(out)@ + spec_header(base, z, srid));
    }
}

/// Parses the header of one geometry, expecting one base code and one
/// dimensionality; mirrors `spec_parse_header` exactly.
fn parse_header(b: &[u8], base: u32, z: bool) -> (r: Option<(Option<i32>, usize)>)
    ensures
        match r {
            Some((srid, off)) => spec_parse_header(b@, base, z) == Some((srid, off as int)),
            None => spec_parse_header(b@, base, z) is None,
        },
{
    if b.len() < 5 {
        return None;
    }
    let b0 = *slice_subrange(b, 0, 1).first().unwrap();
    if b0 != BYTE_ORDER_LE {
        return None;
    }
    let tag = u32_from_le_bytes(slice_subrange(b, 1, 5));
    let zt: u32 = if z {
        base | FLAG_Z
    } else {
        base
    };
    let t_srid: u32 = zt | FLAG_SRID;
    if tag == zt {
        Some((None, 5))
    } else if tag == t_srid {
        if b.len() >= 9 {
            let sb = u32_from_le_bytes(slice_subrange(b, 5, 9));
            Some((Some(bits_to_srid(sb)), 9))
        } else {
            None
        }
    } else {
        None
    }
}

impl WirePoint {
    /// Encodes this point as one canonical little-endian blob.
    pub fn write_ewkb(&self) -> (out: Vec<u8>)
        ensures
            out@ == spec_encode_point(*self),
    {
        let mut out: Vec<u8> = Vec::new();
        write_header(TAG_POINT, false, self.srid, &mut out);
        let mut xb = u64_to_le_bytes(self.x);
        out.append(&mut xb);
        let mut yb = u64_to_le_bytes(self.y);
        out.append(&mut yb);
        proof {
            assert(out@ =~= spec_encode_point(*self));
        }
        out
    }

    /// Decodes one point blob; fails on anything that is not exactly a
    /// well-formed two-dimensional point of the canonical variant.
    pub fn read_ewkb(b: &[u8]) -> (r: Result<WirePoint, DecodeError>)
        ensures
            match spec_decode_point(b@) {
                Some(w) => r == Ok::<WirePoint, DecodeError>(w),
                None => r == Err::<WirePoint, DecodeError>(DecodeError::Malformed(GeomKind::Point)),
            },
    {
        match parse_header(b, TAG_POINT, false) {
            None => Err(DecodeError::Malformed(GeomKind::Point)),
            Some((srid, off)) => {
                proof {
                    assert(off == 5 || off == 9);
                }
                if b.len() == off + 16 {
                    let x = u64_from_le_bytes(slice_subrange(b, off, off + 8));
                    let y = u64_from_le_bytes(slice_subrange(b, off + 8, off + 16));
                    Ok(WirePoint { x, y, srid })
                } else {
                    Err(DecodeError::Malformed(GeomKind::Point))
                }
            },
        }
    }
}

impl WireLineString {
    /// Encodes this line string as one canonical little-endian blob. The
    /// per-point SRID slots play no part: the wire format carries no
    /// per-point SRID.
    pub fn write_ewkb(&self) -> (out: Vec<u8>)
        requires
            self.points@.len() <= 0xFFFF_FFFF,
        ensures
            out@ == spec_encode_linestring(self.points@, self.srid),
    {
        let mut out: Vec<u8> = Vec::new();
        write_header(TAG_LINESTRING, false, self.srid, &mut out);
        let mut nb = u32_to_le_bytes(self.points.len() as u32);
        out.append(&mut nb);
        let ghost prefix = out@;
        proof {
            assert(out@ =~= prefix + spec_coords(self.points@.take(0)));
        }
        let mut i: usize = 0;
        while i < self.points.len()
            invariant
                0 <= i <= self.points@.len(),
                out@ == prefix + spec_coords(self.points@.take(i as int)),
            decreases self.points@.len() - i,
        {
            let p = self.points[i];
            let mut xb = u64_to_le_bytes(p.x);
            out.append(&mut xb);
            let mut yb = u64_to_le_bytes(p.y);
            out.append(&mut yb);
            proof {
                assert(self.points@.take(i + 1) =~= self.points@.take(i as int).push(
                    self.points@[i as int],
                ));
                lemma_coords_snoc(self.points@.take(i as int), self.points@[i as int]);
                assert(out@ =~= prefix + spec_coords(self.points@.take(i + 1)));
            }
            i = i + 1;
        }
        proof {
            assert(self.points@.take(self.points@.len() as int) =~= self.points@);
            assert(out@ =~= spec_encode_linestring(self.points@, self.srid));
        }
        out
    }

    /// Decodes one line string blob; fails on anything that is not exactly
    /// a well-formed two-dimensional line string of the canonical variant.
    pub fn read_ewkb(b: &[u8]) -> (r: Result<WireLineString, DecodeError>)
        ensures
            match spec_decode_linestring(b@) {
                Some(pair) => r matches Ok(w) && w.points@ == pair.0 && w.srid == pair.1,
                None => r == Err::<WireLineString, DecodeError>(
                    DecodeError::Malformed(GeomKind::LineString),
                ),
            },
    {
        match parse_header(b, TAG_LINESTRING, false) {
            None => Err(DecodeError::Malformed(GeomKind::LineString)),
            Some((srid, off)) => {
                proof {
                    assert(off == 5 || off == 9);
                }
                if b.len() < off + 4 {
                    return Err(DecodeError::Malformed(GeomKind::LineString));
                }
                let n = u32_from_le_bytes(slice_subrange(b, off, off + 4));
                let base = off + 4;
                if (b.len() - base) as u64 != 16u64 * (n as u64) {
                    return Err(DecodeError::Malformed(GeomKind::LineString));
                }
                proof {
                    assert(b@.len() == base + 16 * (n as int));
                }
                let ghost dec = spec_points_at(b@, base as int, n as int, srid);
                let mut points: Vec<WirePoint> = Vec::new();
                let mut i: usize = 0;
                while i < n as usize
                    invariant
                        0 <= i <= n,
                        b@.len() == base + 16 * (n as int),
                        b@.len() <= usize::MAX,
                        base == off + 4,
                        off + 4 <= 13,
                        dec == spec_points_at(b@, base as int, n as int, srid),
                        dec.len() == n,
                        points@.len() == i,
                        forall|j: int| 0 <= j < i ==> points@[j] == dec[j],
                    decreases n - i,
                {
                    let p_off = base + 16 * i;
                    let x = u64_from_le_bytes(slice_subrange(b, p_off, p_off + 8));
                    let y = u64_from_le_bytes(slice_subrange(b, p_off + 8, p_off + 16));
                    points.push(WirePoint { x, y, srid });
                    i = i + 1;
                }
                proof {
                    assert(points@ =~= dec);
                }
                Ok(WireLineString { points, srid })
            },
        }
    }
}

impl WireLineStringZ {
    /// Encodes this three-dimensional line string as one canonical
    /// little-endian blob.
    pub fn write_ewkb(&self) -> (out: Vec<u8>)
        requires
            self.points@.len() <= 0xFFFF_FFFF,
        ensures
            out@ == spec_encode_linestring_z(self.points@, self.srid),
    {
        let mut out: Vec<u8> = Vec::new();
        write_header(TAG_LINESTRING, true, self.srid, &mut out);
        let mut nb = u32_to_le_bytes(self.points.len() as u32);
        out.append(&mut nb);
        let ghost prefix = out@;
        proof {
            assert(out@ =~= prefix + spec_coords_z(self.points@.take(0)));
        }
        let mut i: usize = 0;
        while i < self.points.len()
            invariant
                0 <= i <= self.points@.len(),
                out@ == prefix + spec_coords_z(self.points@.take(i as int)),
            decreases self.points@.len() - i,
        {
            let p = self.points[i];
            let mut xb = u64_to_le_bytes(p.x);
            out.append(&mut xb);
            let mut yb = u64_to_le_bytes(p.y);
            out.append(&mut yb);
            let mut zb = u64_to_le_bytes(p.z);
            out.append(&mut zb);
            proof {
                assert(self.points@.take(i + 1) =~= self.points@.take(i as int).push(
                    self.points@[i as int],
                ));
                lemma_coords_z_snoc(self.points@.take(i as int), self.points@[i as int]);
                assert(out@ =~= prefix + spec_coords_z(self.points@.take(i + 1)));
            }
            i = i + 1;
        }
        proof {
            assert(self.points@.take(self.points@.len() as int) =~= self.points@);
            assert(out@ =~= spec_encode_linestring_z(self.points@, self.srid));
        }
        out
    }

    /// Decodes one three-dimensional line string blob.
    pub fn read_ewkb(b: &[u8]) -> (r: Result<WireLineStringZ, DecodeError>)
        ensures
            match spec_decode_linestring_z(b@) {
                Some(pair) => r matches Ok(w) && w.points@ == pair.0 && w.srid == pair.1,
                None => r == Err::<WireLineStringZ, DecodeError>(
                    DecodeError::Malformed(GeomKind::LineStringZ),
                ),
            },
    {
        match parse_header(b, TAG_LINESTRING, true) {
            None => Err(DecodeError::Malformed(GeomKind::LineStringZ)),
            Some((srid, off)) => {
                proof {
                    assert(off == 5 || off == 9);
                }
                if b.len() < off + 4 {
                    return Err(DecodeError::Malformed(GeomKind::LineStringZ));
                }
                let n = u32_from_le_bytes(slice_subrange(b, off, off + 4));
                let base = off + 4;
                if (b.len() - base) as u64 != 24u64 * (n as u64) {
                    return Err(DecodeError::Malformed(GeomKind::LineStringZ));
                }
                proof {
                    assert(b@.len() == base + 24 * (n as int));
                }
                let ghost dec = spec_points_z_at(b@, base as int, n as int, srid);
                let mut points: Vec<WirePointZ> = Vec::new();
                let mut i: usize = 0;
                while i < n as usize
                    invariant
                        0 <= i <= n,
                        b@.len() == base + 24 * (n as int),
                        b@.len() <= usize::MAX,
                        base == off + 4,
                        off + 4 <= 13,
                        dec == spec_points_z_at(b@, base as int, n as int, srid),
                        dec.len() == n,
                        points@.len() == i,
                        forall|j: int| 0 <= j < i ==> points@[j] == dec[j],
                    decreases n - i,
                {
                    let p_off = base + 24 * i;
                    let x = u64_from_le_bytes(slice_subrange(b, p_off, p_off + 8));
                    let y = u64_from_le_bytes(slice_subrange(b, p_off + 8, p_off + 16));
                    let z = u64_from_le_bytes(slice_subrange(b, p_off + 16, p_off + 24));
                    points.push(WirePointZ { x, y, z, srid });
                    i = i + 1;
                }
                proof {
                    assert(points@ =~= dec);
                }
                Ok(WireLineStringZ { points, srid })
            },
        }
    }
}

impl WirePolygon {
    /// Encodes this polygon as one canonical little-endian blob. Ring-level
    /// and point-level SRID slots play no part: the wire format carries no
    /// SRID below the outer header.
    pub fn write_ewkb(&self) -> (out: Vec<u8>)
        requires
            self.rings@.len() <= 0xFFFF_FFFF,
            forall|i: int|
                0 <= i < self.rings@.len() ==> (#[trigger] self.rings@[i]).points@.len()
                    <= 0xFFFF_FFFF,
        ensures
            out@ == spec_encode_polygon(spec_rings_view(self.rings@), self.srid),
    {
        let ghost rv = spec_rings_view(self.rings@);
        let mut out: Vec<u8> = Vec::new();
        write_header(TAG_POLYGON, false, self.srid, &mut out);
        let mut mb = u32_to_le_bytes(self.rings.len() as u32);
        out.append(&mut mb);
        let ghost prefix = out@;
        proof {
            assert(out@ =~= prefix + spec_encode_rings(rv.take(0)));
        }
        let mut i: usize = 0;
        while i < self.rings.len()
            invariant
                0 <= i <= self.rings@.len(),
                rv == spec_rings_view(self.rings@),
                rv.len() == self.rings@.len(),
                forall|k: int|
                    0 <= k < self.rings@.len() ==> (#[trigger] self.rings@[k]).points@.len()
                        <= 0xFFFF_FFFF,
                out@ == prefix + spec_encode_rings(rv.take(i as int)),
            decreases self.rings@.len() - i,
        {
            let ring = &self.rings[i];
            let mut nb = u32_to_le_bytes(ring.points.len() as u32);
            out.append(&mut nb);
            let ghost ring_prefix = out@;
            proof {
                assert(out@ =~= ring_prefix + spec_coords(ring.points@.take(0)));
            }
            let mut j: usize = 0;
            while j < ring.points.len()
                invariant
                    0 <= j <= ring.points@.len(),
                    ring == self.rings@[i as int],
                    out@ == ring_prefix + spec_coords(ring.points@.take(j as int)),
                decreases ring.points@.len() - j,
            {
                let p = ring.points[j];
                let mut xb = u64_to_le_bytes(p.x);
                out.append(&mut xb);
                let mut yb = u64_to_le_bytes(p.y);
                out.append(&mut yb);
                proof {
                    assert(ring.points@.take(j + 1) =~= ring.points@.take(j as int).push(
                        ring.points@[j as int],
                    ));
                    lemma_coords_snoc(ring.points@.take(j as int), ring.points@[j as int]);
                    assert(out@ =~= ring_prefix + spec_coords(ring.points@.take(j + 1)));
                }
                j = j + 1;
            }
            proof {
                assert(ring.points@.take(ring.points@.len() as int) =~= ring.points@);
                assert(rv[i as int] == ring.points@);
                assert(rv.take(i + 1) =~= rv.take(i as int).push(rv[i as int]));
                lemma_encode_rings_snoc(rv.take(i as int), rv[i as int]);
                assert(out@ =~= prefix + spec_encode_rings(rv.take(i + 1)));
            }
            i = i + 1;
        }
        proof {
            assert(rv.take(rv.len() as int) =~= rv);
            assert(out@ =~= spec_encode_polygon(rv, self.srid));
        }
        out
    }

    /// Decodes one polygon blob; fails on anything that is not exactly a
    /// well-formed two-dimensional polygon of the canonical variant. The
    /// wrapper-level SRID is stamped into every constructed ring and point.
    #[verifier::loop_isolation(false)]
    pub fn read_ewkb(b: &[u8]) -> (r: Result<WirePolygon, DecodeError>)
        ensures
            match spec_decode_polygon(b@) {
                Some(pair) => r matches Ok(w) && spec_rings_view(w.rings@) == pair.0 && w.srid
                    == pair.1 && (forall|i: int|
                    0 <= i < w.rings@.len() ==> (#[trigger] w.rings@[i]).srid == pair.1),
                None => r == Err::<WirePolygon, DecodeError>(
                    DecodeError::Malformed(GeomKind::Polygon),
                ),
            },
    {
        let err = DecodeError::Malformed(GeomKind::Polygon);
        match parse_header(b, TAG_POLYGON, false) {
            None => Err(err),
            Some((srid, off)) => {
                proof {
                    assert(off == 5 || off == 9);
                }
                if b.len() < off + 4 {
                    return Err(err);
                }
                let m = u32_from_le_bytes(slice_subrange(b, off, off + 4));
                let ghost body = b@.skip(off + 4);
                let mut rings: Vec<WireLineString> = Vec::new();
                let mut pos: usize = off + 4;
                let mut k: usize = 0;
                proof {
                    assert(spec_decode_rings(b@.skip(pos as int), m as int, srid) matches Some(pr)
                        ==> spec_rings_view(rings@) + pr.0 == pr.0);
                }
                while k < m as usize
                    invariant
                        off + 4 <= pos <= b@.len(),
                        b@.len() <= usize::MAX,
                        0 <= k <= m,
                        body == b@.skip(off + 4),
                        rings@.len() == k,
                        forall|j: int| 0 <= j < k ==> (#[trigger] rings@[j]).srid == srid,
                        spec_decode_rings(body, m as int, srid) == (match spec_decode_rings(
                            b@.skip(pos as int),
                            m as int - k,
                            srid,
                        ) {
                            Some(pr) => Some::<(Seq<Seq<WirePoint>>, Seq<u8>)>(
                                (spec_rings_view(rings@) + pr.0, pr.1),
                            ),
                            None => None::<(Seq<Seq<WirePoint>>, Seq<u8>)>,
                        }),
                    decreases m as int - k,
                {
                    let ghost old_rings = rings@;
                    let ghost old_pos = pos as int;
                    if b.len() - pos < 4 {
                        proof {
                            assert(b@.skip(old_pos).len() < 4);
                            assert(spec_decode_rings(b@.skip(old_pos), m as int - k, srid)
                                is None);
                            assert(spec_decode_rings(body, m as int, srid) is None);
                        }
                        return Err(err);
                    }
                    let n = u32_from_le_bytes(slice_subrange(b, pos, pos + 4));
                    proof {
                        assert(b@.skip(old_pos).subrange(0, 4) =~= b@.subrange(
                            old_pos,
                            old_pos + 4,
                        ));
                    }
                    if ((b.len() - pos - 4) as u64) < 16u64 * (n as u64) {
                        proof {
                            assert(b@.skip(old_pos).len() < 4 + 16 * (n as int));
                            assert(spec_decode_rings(b@.skip(old_pos), m as int - k, srid)
                                is None);
                            assert(spec_decode_rings(body, m as int, srid) is None);
                        }
                        return Err(err);
                    }
                    let base = pos + 4;
                    proof {
                        assert(base + 16 * (n as int) <= b@.len());
                    }
                    let ghost dec = spec_points_at(b@, base as int, n as int, srid);
                    let mut points: Vec<WirePoint> = Vec::new();
                    let mut j: usize = 0;
                    while j < n as usize
                        invariant
                            0 <= j <= n,
                            base + 16 * (n as int) <= b@.len(),
                            b@.len() <= usize::MAX,
                            dec == spec_points_at(b@, base as int, n as int, srid),
                            dec.len() == n,
                            points@.len() == j,
                            forall|q: int| 0 <= q < j ==> points@[q] == dec[q],
                        decreases n as int - j,
                    {
                        let p_off = base + 16 * j;
                        let x = u64_from_le_bytes(slice_subrange(b, p_off, p_off + 8));
                        let y = u64_from_le_bytes(slice_subrange(b, p_off + 8, p_off + 16));
                        points.push(WirePoint { x, y, srid });
                        j = j + 1;
                    }
                    proof {
                        assert(points@ =~= dec);
                    }
                    rings.push(WireLineString { points, srid });
                    pos = pos + 4 + 16 * (n as usize);
                    k = k + 1;
                    proof {
                        lemma_points_at_skip(b@, old_pos, n as int, srid);
                        assert(b@.skip(old_pos).skip(4 + 16 * (n as int)) =~= b@.skip(pos as int));
                        let tail = spec_decode_rings(b@.skip(pos as int), m as int - k, srid);
                        if tail is Some {
                            let pr = tail->Some_0;
                            assert(spec_decode_rings(b@.skip(old_pos), m as int - (k - 1), srid)
                                == Some::<(Seq<Seq<WirePoint>>, Seq<u8>)>(
                                (seq![dec] + pr.0, pr.1),
                            ));
                            assert(spec_rings_view(old_rings) + (seq![dec] + pr.0)
                                =~= spec_rings_view(rings@) + pr.0);
                        } else {
                            assert(spec_decode_rings(b@.skip(old_pos), m as int - (k - 1), srid)
                                is None);
                        }
                    }
                }
                proof {
                    assert(spec_decode_rings(b@.skip(pos as int), 0, srid)
                        == Some::<(Seq<Seq<WirePoint>>, Seq<u8>)>(
                        (Seq::<Seq<WirePoint>>::empty(), b@.skip(pos as int)),
                    ));
                    assert(spec_rings_view(rings@) + Seq::<Seq<WirePoint>>::empty()
                        =~= spec_rings_view(rings@));
                }
                if pos != b.len() {
                    proof {
                        assert(b@.skip(pos as int).len() != 0);
                    }
                    return Err(err);
                }
                proof {
                    assert(b@.skip(pos as int).len() == 0);
                }
                Ok(WirePolygon { rings, srid })
            },
        }
    }
}

impl WirePointZ {
    /// Encodes this point as one canonical little-endian blob.
    pub fn write_ewkb(&self) -> (out: Vec<u8>)
        ensures
            out@ == spec_encode_pointz(*self),
    {
        let mut out: Vec<u8> = Vec::new();
        write_header(TAG_POINT, true, self.srid, &mut out);
        let mut xb = u64_to_le_bytes(self.x);
        out.append(&mut xb);
        let mut yb = u64_to_le_bytes(self.y);
        out.append(&mut yb);
        let mut zb = u64_to_le_bytes(self.z);
        out.append(&mut zb);
        proof {
            assert(out@ =~= spec_encode_pointz(*self));
        }
        out
    }

    /// Decodes one three-dimensional point blob; fails on anything that is
    /// not exactly a well-formed point-with-elevation of the canonical
    /// variant.
    pub fn read_ewkb(b: &[u8]) -> (r: Result<WirePointZ, DecodeError>)
        ensures
            match spec_decode_pointz(b@) {
                Some(w) => r == Ok::<WirePointZ, DecodeError>(w),
                None => r == Err::<WirePointZ, DecodeError>(
                    DecodeError::Malformed(GeomKind::PointZ),
                ),
            },
    {
        match parse_header(b, TAG_POINT, true) {
            None => Err(DecodeError::Malformed(GeomKind::PointZ)),
            Some((srid, off)) => {
                proof {
                    assert(off == 5 || off == 9);
                }
                if b.len() == off + 24 {
                    let x = u64_from_le_bytes(slice_subrange(b, off, off + 8));
                    let y = u64_from_le_bytes(slice_subrange(b, off + 8, off + 16));
                    let z = u64_from_le_bytes(slice_subrange(b, off + 16, off + 24));
                    Ok(WirePointZ { x, y, z, srid })
                } else {
                    Err(DecodeError::Malformed(GeomKind::PointZ))
                }
            },
        }
    }
}

} // verus!
