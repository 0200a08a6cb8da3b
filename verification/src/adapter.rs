//! The codec adapter: the decode/encode entry points of the column-binding
//! boundary, one pair per geometry variant.
//!
//! `decode` receives the column's bytes, or `None` where the column held
//! SQL NULL; absence is a hard decode failure, never a default value. It
//! parses the wire blob and runs the SRID propagator towards the domain.
//! `encode` runs the propagator towards the wire and builds the blob; the
//! transform itself cannot fail — only a caller's output sink can, outside
//! this library.

use vstd::prelude::*;

use crate::codec::{
    spec_decode_linestring, spec_decode_linestring_z, spec_decode_point, spec_decode_pointz,
    spec_decode_polygon, spec_encode_linestring, spec_encode_linestring_z, spec_encode_point,
    spec_encode_pointz, spec_encode_polygon,
};
use crate::geom::{
    DecodeError, GeogLineString, GeogLineStringZ, GeogPoint, GeogPointZ, GeogPolygon, GeomKind,
};
use crate::wire::{
    spec_domain_points, spec_domain_points_z, spec_point_from_wire, spec_point_to_wire,
    spec_pointz_from_wire, spec_pointz_to_wire, spec_stamp_wire_points, spec_stamp_wire_points_z,
    spec_stamp_wire_rings, WireLineString, WireLineStringZ, WirePoint, WirePointZ, WirePolygon,
};

verus! {

impl GeogPoint {
    /// Decodes a column value. `None` (SQL NULL) always fails with the
    /// absence error; bytes that are not exactly one well-formed point blob
    /// fail with the malformed error.
    pub fn decode(bytes: Option<&[u8]>) -> (r: Result<GeogPoint, DecodeError>)
        ensures
            match bytes {
                None => r == Err::<GeogPoint, DecodeError>(DecodeError::Absent(GeomKind::Point)),
                Some(b) => match spec_decode_point(b@) {
                    Some(w) => r == Ok::<GeogPoint, DecodeError>(spec_point_from_wire(w)),
                    None => r == Err::<GeogPoint, DecodeError>(
                        DecodeError::Malformed(GeomKind::Point),
                    ),
                },
            },
    {
        match bytes {
            None => Err(DecodeError::Absent(GeomKind::Point)),
            Some(b) => match WirePoint::read_ewkb(b) {
                Ok(w) => Ok(GeogPoint::from(w)),
                Err(e) => Err(e),
            },
        }
    }

    /// Encodes this point as its wire blob; a pure transform that cannot
    /// fail.
    pub fn encode(&self) -> (out: Vec<u8>)
        ensures
            out@ == spec_encode_point(spec_point_to_wire(*self)),
    {
        WirePoint::from(*self).write_ewkb()
    }
}

impl GeogPointZ {
    /// Decodes a column value; see `GeogPoint::decode`.
    pub fn decode(bytes: Option<&[u8]>) -> (r: Result<GeogPointZ, DecodeError>)
        ensures
            match bytes {
                None => r == Err::<GeogPointZ, DecodeError>(DecodeError::Absent(GeomKind::PointZ)),
                Some(b) => match spec_decode_pointz(b@) {
                    Some(w) => r == Ok::<GeogPointZ, DecodeError>(spec_pointz_from_wire(w)),
                    None => r == Err::<GeogPointZ, DecodeError>(
                        DecodeError::Malformed(GeomKind::PointZ),
                    ),
                },
            },
    {
        match bytes {
            None => Err(DecodeError::Absent(GeomKind::PointZ)),
            Some(b) => match WirePointZ::read_ewkb(b) {
                Ok(w) => Ok(GeogPointZ::from(w)),
                Err(e) => Err(e),
            },
        }
    }

    /// Encodes this point as its wire blob; a pure transform that cannot
    /// fail.
    pub fn encode(&self) -> (out: Vec<u8>)
        ensures
            out@ == spec_encode_pointz(spec_pointz_to_wire(*self)),
    {
        WirePointZ::from(*self).write_ewkb()
    }
}

impl GeogLineString {
    /// Decodes a column value; the wrapper-level SRID of the blob becomes
    /// the canonical one and is stamped into every point.
    pub fn decode(bytes: Option<&[u8]>) -> (r: Result<GeogLineString, DecodeError>)
        ensures
            match bytes {
                None => r == Err::<GeogLineString, DecodeError>(
                    DecodeError::Absent(GeomKind::LineString),
                ),
                Some(b) => match spec_decode_linestring(b@) {
                    Some(pair) => r matches Ok(g) && g.points@ == spec_domain_points(
                        pair.0,
                        pair.1,
                    ) && g.srid == pair.1,
                    None => r == Err::<GeogLineString, DecodeError>(
                        DecodeError::Malformed(GeomKind::LineString),
                    ),
                },
            },
    {
        match bytes {
            None => Err(DecodeError::Absent(GeomKind::LineString)),
            Some(b) => match WireLineString::read_ewkb(b) {
                Ok(w) => Ok(GeogLineString::from(&w)),
                Err(e) => Err(e),
            },
        }
    }

    /// Encodes this line string as its wire blob, the canonical SRID
    /// overwriting every point-level SRID slot on the way out. The one
    /// bound is the wire format's 4-byte point count.
    pub fn encode(&self) -> (out: Vec<u8>)
        requires
            self.points@.len() <= 0xFFFF_FFFF,
        ensures
            out@ == spec_encode_linestring(
                spec_stamp_wire_points(self.points@, self.srid),
                self.srid,
            ),
    {
        WireLineString::from(self).write_ewkb()
    }
}

impl GeogLineStringZ {
    /// Decodes a column value; see `GeogLineString::decode`.
    pub fn decode(bytes: Option<&[u8]>) -> (r: Result<GeogLineStringZ, DecodeError>)
        ensures
            match bytes {
                None => r == Err::<GeogLineStringZ, DecodeError>(
                    DecodeError::Absent(GeomKind::LineStringZ),
                ),
                Some(b) => match spec_decode_linestring_z(b@) {
                    Some(pair) => r matches Ok(g) && g.points@ == spec_domain_points_z(
                        pair.0,
                        pair.1,
                    ) && g.srid == pair.1,
                    None => r == Err::<GeogLineStringZ, DecodeError>(
                        DecodeError::Malformed(GeomKind::LineStringZ),
                    ),
                },
            },
    {
        match bytes {
            None => Err(DecodeError::Absent(GeomKind::LineStringZ)),
            Some(b) => match WireLineStringZ::read_ewkb(b) {
                Ok(w) => Ok(GeogLineStringZ::from(&w)),
                Err(e) => Err(e),
            },
        }
    }

    /// Encodes this line string as its wire blob; see
    /// `GeogLineString::encode`.
    pub fn encode(&self) -> (out: Vec<u8>)
        requires
            self.points@.len() <= 0xFFFF_FFFF,
        ensures
            out@ == spec_encode_linestring_z(
                spec_stamp_wire_points_z(self.points@, self.srid),
                self.srid,
            ),
    {
        WireLineStringZ::from(self).write_ewkb()
    }
}

impl GeogPolygon {
    /// Decodes a column value; the wrapper-level SRID of the blob becomes
    /// the canonical one and is stamped into every ring and every point.
    pub fn decode(bytes: Option<&[u8]>) -> (r: Result<GeogPolygon, DecodeError>)
        ensures
            match bytes {
                None => r == Err::<GeogPolygon, DecodeError>(
                    DecodeError::Absent(GeomKind::Polygon),
                ),
                Some(b) => match spec_decode_polygon(b@) {
                    Some(pair) => r matches Ok(g) && g.srid == pair.1 && g.rings@.len()
                        == pair.0.len() && (forall|i: int|
                        0 <= i < pair.0.len() ==> (#[trigger] g.rings@[i]).points@
                            == spec_domain_points(pair.0[i], pair.1)) && (forall|i: int|
                        0 <= i < pair.0.len() ==> (#[trigger] g.rings@[i]).srid == pair.1),
                    None => r == Err::<GeogPolygon, DecodeError>(
                        DecodeError::Malformed(GeomKind::Polygon),
                    ),
                },
            },
    {
        match bytes {
            None => Err(DecodeError::Absent(GeomKind::Polygon)),
            Some(b) => match WirePolygon::read_ewkb(b) {
                Ok(w) => Ok(GeogPolygon::from(&w)),
                Err(e) => Err(e),
            },
        }
    }

    /// Encodes this polygon as its wire blob, the polygon's canonical SRID
    /// overwriting every ring-level and point-level SRID slot on the way
    /// out. The bounds are the wire format's 4-byte counts.
    pub fn encode(&self) -> (out: Vec<u8>)
        requires
            self.rings@.len() <= 0xFFFF_FFFF,
            forall|i: int|
                0 <= i < self.rings@.len() ==> (#[trigger] self.rings@[i]).points@.len()
                    <= 0xFFFF_FFFF,
        ensures
            out@ == spec_encode_polygon(spec_stamp_wire_rings(self.rings@, self.srid), self.srid),
    {
        let w = WirePolygon::from(self);
        let out = w.write_ewkb();
        proof {
            assert(crate::codec::spec_rings_view(w.rings@) =~= spec_stamp_wire_rings(
                self.rings@,
                self.srid,
            ));
        }
        out
    }
}

} // verus!
