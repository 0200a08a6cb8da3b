//! The wire-side value model and the SRID propagator.
//!
//! The wire representation attaches an SRID slot to every point, while the
//! domain model keeps one canonical SRID per feature. The conversions here
//! bridge the two:
//!
//! - domain to wire: the composite's top-level SRID overwrites every
//!   contained point's SRID (last-write-wins, never a validation step);
//! - wire to domain: the wrapper-level SRID is taken as canonical, any
//!   per-point heterogeneity is discarded, and the same value is stamped
//!   into every constructed domain point's own SRID slot.
//!
//! For polygons the policy is deliberately polygon-authoritative: the outer
//! polygon's SRID overwrites each ring's own SRID slot as well as every
//! point's, in both directions, so a converted value is always internally
//! consistent.

use vstd::prelude::*;

use crate::geom::{GeogLineString, GeogLineStringZ, GeogPoint, GeogPointZ, GeogPolygon};

verus! {

/// A two-dimensional point as the wire representation carries it: the SRID
/// slot is per point, a storage artifact of the wire format.
#[derive(Debug, Copy, Clone, PartialEq)]
pub struct WirePoint {
    pub x: u64,
    pub y: u64,
    pub srid: Option<i32>,
}

/// A three-dimensional point of the wire representation.
#[derive(Debug, Copy, Clone, PartialEq)]
pub struct WirePointZ {
    pub x: u64,
    pub y: u64,
    pub z: u64,
    pub srid: Option<i32>,
}

/// A line string of the wire representation: per-point SRID slots beside a
/// wrapper-level one.
#[derive(Debug, Clone, PartialEq)]
pub struct WireLineString {
    pub points: Vec<WirePoint>,
    pub srid: Option<i32>,
}

/// A three-dimensional line string of the wire representation.
#[derive(Debug, Clone, PartialEq)]
pub struct WireLineStringZ {
    pub points: Vec<WirePointZ>,
    pub srid: Option<i32>,
}

/// A polygon of the wire representation.
#[derive(Debug, Clone, PartialEq)]
pub struct WirePolygon {
    pub rings: Vec<WireLineString>,
    pub srid: Option<i32>,
}

/// A domain point as a wire point: a 1:1 passthrough.
pub open spec fn spec_point_to_wire(p: GeogPoint) -> WirePoint {
    WirePoint { x: p.x, y: p.y, srid: p.srid }
}

/// A wire point as a domain point: a 1:1 passthrough.
pub open spec fn spec_point_from_wire(w: WirePoint) -> GeogPoint {
    GeogPoint { x: w.x, y: w.y, srid: w.srid }
}

/// A three-dimensional domain point as a wire point.
pub open spec fn spec_pointz_to_wire(p: GeogPointZ) -> WirePointZ {
    WirePointZ { x: p.x, y: p.y, z: p.z, srid: p.srid }
}

/// A three-dimensional wire point as a domain point.
pub open spec fn spec_pointz_from_wire(w: WirePointZ) -> GeogPointZ {
    GeogPointZ { x: w.x, y: w.y, z: w.z, srid: w.srid }
}

/// Domain points mapped to wire points, every SRID slot overwritten with
/// the composite's canonical `srid`.
pub open spec fn spec_stamp_wire_points(ps: Seq<GeogPoint>, srid: Option<i32>) -> Seq<WirePoint> {
    Seq::new(ps.len(), |i: int| WirePoint { x: ps[i].x, y: ps[i].y, srid })
}

/// Domain points mapped to wire points, three-dimensional variant.
pub open spec fn spec_stamp_wire_points_z(
    ps: Seq<GeogPointZ>,
    srid: Option<i32>,
) -> Seq<WirePointZ> {
    Seq::new(ps.len(), |i: int| WirePointZ { x: ps[i].x, y: ps[i].y, z: ps[i].z, srid })
}

/// Wire points mapped to domain points, every per-point SRID discarded in
/// favour of the wrapper-level `srid`.
pub open spec fn spec_domain_points(ws: Seq<WirePoint>, srid: Option<i32>) -> Seq<GeogPoint> {
    Seq::new(ws.len(), |i: int| GeogPoint { x: ws[i].x, y: ws[i].y, srid })
}

/// Wire points mapped to domain points, three-dimensional variant.
pub open spec fn spec_domain_points_z(
    ws: Seq<WirePointZ>,
    srid: Option<i32>,
) -> Seq<GeogPointZ> {
    Seq::new(ws.len(), |i: int| GeogPointZ { x: ws[i].x, y: ws[i].y, z: ws[i].z, srid })
}

/// A polygon's rings mapped to wire point sequences, every point's SRID
/// slot overwritten with the polygon's canonical `srid`.
pub open spec fn spec_stamp_wire_rings(
    rs: Seq<GeogLineString>,
    srid: Option<i32>,
) -> Seq<Seq<WirePoint>> {
    Seq::new(rs.len(), |i: int| spec_stamp_wire_points(rs[i].points@, srid))
}

/// Builds the wire points of one composite: coordinates copied, every SRID
/// slot overwritten with the composite's `srid`.
fn stamp_wire_points(ps: &Vec<GeogPoint>, srid: Option<i32>) -> (r: Vec<WirePoint>)
    ensures
        r@ == spec_stamp_wire_points(ps@, srid),
{
    let mut out: Vec<WirePoint> = Vec::new();
    let mut i: usize = 0;
    while i < ps.len()
        invariant
            0 <= i <= ps@.len(),
            out@ == spec_stamp_wire_points(ps@, srid).take(i as int),
        decreases ps@.len() - i,
    {
        out.push(WirePoint { x: ps[i].x, y: ps[i].y, srid });
        i = i + 1;
        proof {
            assert(out@ =~= spec_stamp_wire_points(ps@, srid).take(i as int));
        }
    }
    proof {
        assert(out@ =~= spec_stamp_wire_points(ps@, srid));
    }
    out
}

/// Three-dimensional variant of `stamp_wire_points`.
fn stamp_wire_points_z(ps: &Vec<GeogPointZ>, srid: Option<i32>) -> (r: Vec<WirePointZ>)
    ensures
        r@ == spec_stamp_wire_points_z(ps@, srid),
{
    let mut out: Vec<WirePointZ> = Vec::new();
    let mut i: usize = 0;
    while i < ps.len()
        invariant
            0 <= i <= ps@.len(),
            out@ == spec_stamp_wire_points_z(ps@, srid).take(i as int),
        decreases ps@.len() - i,
    {
        out.push(WirePointZ { x: ps[i].x, y: ps[i].y, z: ps[i].z, srid });
        i = i + 1;
        proof {
            assert(out@ =~= spec_stamp_wire_points_z(ps@, srid).take(i as int));
        }
    }
    proof {
        assert(out@ =~= spec_stamp_wire_points_z(ps@, srid));
    }
    out
}

/// Builds the domain points of one decoded composite: coordinates copied,
/// the wrapper-level `srid` stamped into every point.
fn domain_points(ws: &Vec<WirePoint>, srid: Option<i32>) -> (r: Vec<GeogPoint>)
    ensures
        r@ == spec_domain_points(ws@, srid),
{
    let mut out: Vec<GeogPoint> = Vec::new();
    let mut i: usize = 0;
    while i < ws.len()
        invariant
            0 <= i <= ws@.len(),
            out@ == spec_domain_points(ws@, srid).take(i as int),
        decreases ws@.len() - i,
    {
        out.push(GeogPoint { x: ws[i].x, y: ws[i].y, srid });
        i = i + 1;
        proof {
            assert(out@ =~= spec_domain_points(ws@, srid).take(i as int));
        }
    }
    proof {
        assert(out@ =~= spec_domain_points(ws@, srid));
    }
    out
}

/// Three-dimensional variant of `domain_points`.
fn domain_points_z(ws: &Vec<WirePointZ>, srid: Option<i32>) -> (r: Vec<GeogPointZ>)
    ensures
        r@ == spec_domain_points_z(ws@, srid),
{
    let mut out: Vec<GeogPointZ> = Vec::new();
    let mut i: usize = 0;
    while i < ws.len()
        invariant
            0 <= i <= ws@.len(),
            out@ == spec_domain_points_z(ws@, srid).take(i as int),
        decreases ws@.len() - i,
    {
        out.push(GeogPointZ { x: ws[i].x, y: ws[i].y, z: ws[i].z, srid });
        i = i + 1;
        proof {
            assert(out@ =~= spec_domain_points_z(ws@, srid).take(i as int));
        }
    }
    proof {
        assert(out@ =~= spec_domain_points_z(ws@, srid));
    }
    out
}

impl GeogPoint {
    /// Wire to domain: a 1:1 passthrough, the SRID carried unchanged.
    pub fn from(w: WirePoint) -> (r: GeogPoint)
        ensures
            r == (GeogPoint { x: w.x, y: w.y, srid: w.srid }),
    {
        GeogPoint { x: w.x, y: w.y, srid: w.srid }
    }
}

impl WirePoint {
    /// Domain to wire: a 1:1 passthrough, the SRID carried unchanged.
    pub fn from(p: GeogPoint) -> (r: WirePoint)
        ensures
            r == (WirePoint { x: p.x, y: p.y, srid: p.srid }),
    {
        WirePoint { x: p.x, y: p.y, srid: p.srid }
    }
}

impl GeogPointZ {
    /// Wire to domain: a 1:1 passthrough, the SRID carried unchanged.
    pub fn from(w: WirePointZ) -> (r: GeogPointZ)
        ensures
            r == (GeogPointZ { x: w.x, y: w.y, z: w.z, srid: w.srid }),
    {
        GeogPointZ { x: w.x, y: w.y, z: w.z, srid: w.srid }
    }
}

impl WirePointZ {
    /// Domain to wire: a 1:1 passthrough, the SRID carried unchanged.
    pub fn from(p: GeogPointZ) -> (r: WirePointZ)
        ensures
            r == (WirePointZ { x: p.x, y: p.y, z: p.z, srid: p.srid }),
    {
        WirePointZ { x: p.x, y: p.y, z: p.z, srid: p.srid }
    }
}

impl GeogLineString {
    /// Wire to domain: the wrapper-level SRID becomes the canonical one and
    /// is stamped into every constructed domain point, discarding any
    /// per-point heterogeneity the wire value held.
    pub fn from(w: &WireLineString) -> (r: GeogLineString)
        ensures
            r.points@ == spec_domain_points(w.points@, w.srid),
            r.srid == w.srid,
            r.points@.len() == w.points@.len(),
    {
        GeogLineString { points: domain_points(&w.points, w.srid), srid: w.srid }
    }
}

impl WireLineString {
    /// Domain to wire: the line string's top-level SRID overwrites every
    /// contained point's SRID slot, last-write-wins, regardless of what each
    /// point's own slot held beforehand.
    pub fn from(g: &GeogLineString) -> (r: WireLineString)
        ensures
            r.points@ == spec_stamp_wire_points(g.points@, g.srid),
            r.srid == g.srid,
            r.points@.len() == g.points@.len(),
            forall|i: int| 0 <= i < r.points@.len() ==> r.points@[i].srid == g.srid,
    {
        WireLineString { points: stamp_wire_points(&g.points, g.srid), srid: g.srid }
    }
}

impl GeogLineStringZ {
    /// Wire to domain, three-dimensional variant.
    pub fn from(w: &WireLineStringZ) -> (r: GeogLineStringZ)
        ensures
            r.points@ == spec_domain_points_z(w.points@, w.srid),
            r.srid == w.srid,
            r.points@.len() == w.points@.len(),
    {
        GeogLineStringZ { points: domain_points_z(&w.points, w.srid), srid: w.srid }
    }
}

impl WireLineStringZ {
    /// Domain to wire, three-dimensional variant: top-level SRID overwrites
    /// every contained point's SRID slot.
    pub fn from(g: &GeogLineStringZ) -> (r: WireLineStringZ)
        ensures
            r.points@ == spec_stamp_wire_points_z(g.points@, g.srid),
            r.srid == g.srid,
            r.points@.len() == g.points@.len(),
            forall|i: int| 0 <= i < r.points@.len() ==> r.points@[i].srid == g.srid,
    {
        WireLineStringZ { points: stamp_wire_points_z(&g.points, g.srid), srid: g.srid }
    }
}

impl GeogPolygon {
    /// Wire to domain: the outer polygon's SRID is canonical and is stamped
    /// into every ring and every point of every ring.
    pub fn from(w: &WirePolygon) -> (r: GeogPolygon)
        ensures
            r.srid == w.srid,
            r.rings@.len() == w.rings@.len(),
            forall|i: int|
                0 <= i < w.rings@.len() ==> (#[trigger] r.rings@[i]).points@
                    == spec_domain_points(w.rings@[i].points@, w.srid),
            forall|i: int| 0 <= i < w.rings@.len() ==> (#[trigger] r.rings@[i]).srid == w.srid,
    {
        let mut rings: Vec<GeogLineString> = Vec::new();
        let mut i: usize = 0;
        while i < w.rings.len()
            invariant
                0 <= i <= w.rings@.len(),
                rings@.len() == i,
                forall|j: int|
                    0 <= j < i ==> (#[trigger] rings@[j]).points@
                        == spec_domain_points(w.rings@[j].points@, w.srid),
                forall|j: int| 0 <= j < i ==> (#[trigger] rings@[j]).srid == w.srid,
            decreases w.rings@.len() - i,
        {
            let ring = GeogLineString {
                points: domain_points(&w.rings[i].points, w.srid),
                srid: w.srid,
            };
            rings.push(ring);
            i = i + 1;
        }
        GeogPolygon { rings, srid: w.srid }
    }
}

impl WirePolygon {
    /// Domain to wire, polygon-authoritative: the outer polygon's SRID
    /// overwrites each ring's own SRID slot and every point's SRID slot, so
    /// the produced wire value is internally consistent even when the rings
    /// were built with differing SRIDs.
    pub fn from(g: &GeogPolygon) -> (r: WirePolygon)
        ensures
            r.srid == g.srid,
            r.rings@.len() == g.rings@.len(),
            forall|i: int|
                0 <= i < g.rings@.len() ==> (#[trigger] r.rings@[i]).points@
                    == spec_stamp_wire_points(g.rings@[i].points@, g.srid),
            forall|i: int| 0 <= i < g.rings@.len() ==> (#[trigger] r.rings@[i]).srid == g.srid,
    {
        let mut rings: Vec<WireLineString> = Vec::new();
        let mut i: usize = 0;
        while i < g.rings.len()
            invariant
                0 <= i <= g.rings@.len(),
                rings@.len() == i,
                forall|j: int|
                    0 <= j < i ==> (#[trigger] rings@[j]).points@
                        == spec_stamp_wire_points(g.rings@[j].points@, g.srid),
                forall|j: int| 0 <= j < i ==> (#[trigger] rings@[j]).srid == g.srid,
            decreases g.rings@.len() - i,
        {
            let ring = WireLineString {
                points: stamp_wire_points(&g.rings[i].points, g.srid),
                srid: g.srid,
            };
            rings.push(ring);
            i = i + 1;
        }
        WirePolygon { rings, srid: g.srid }
    }
}

} // verus!
