//! The value model: five geometry variants as plain immutable data, and the
//! decode-side error taxonomy.
//!
//! A composite's `srid` field is the single canonical reference system for
//! the whole feature; the `srid` slot that each point carries is a storage
//! artifact of the wire representation, derived from the composite's `srid`
//! at the codec boundary and never authoritative on its own.

use vstd::prelude::*;

verus! {

/// Which geometry variant a decode was asked for; decode errors carry it.
#[derive(Debug, Copy, Clone, PartialEq, Eq, Structural)]
pub enum GeomKind {
    Point,
    PointZ,
    LineString,
    LineStringZ,
    Polygon,
}

/// Why a decode failed: the column value was absent (SQL NULL where a
/// geography value was expected), or the bytes do not form a well-formed
/// geometry of the expected kind (truncation, bad byte-order marker, bad
/// type tag, trailing bytes).
#[derive(Debug, Copy, Clone, PartialEq, Eq, Structural)]
pub enum DecodeError {
    Absent(GeomKind),
    Malformed(GeomKind),
}

/// A two-dimensional point. Coordinates are carried as their 8-byte wire
/// representation (IEEE-754 double bit pattern); the codec never interprets
/// them, and equality is exact bit equality.
#[derive(Debug, Copy, Clone, PartialEq)]
pub struct GeogPoint {
    /// Longitude, as its stored bit pattern.
    pub x: u64,
    /// Latitude, as its stored bit pattern.
    pub y: u64,
    pub srid: Option<i32>,
}

/// A three-dimensional point: adds an elevation coordinate.
#[derive(Debug, Copy, Clone, PartialEq)]
pub struct GeogPointZ {
    pub x: u64,
    pub y: u64,
    /// Elevation, as its stored bit pattern.
    pub z: u64,
    pub srid: Option<i32>,
}

/// An ordered sequence of two-dimensional points with one canonical SRID.
#[derive(Debug, Clone, PartialEq)]
pub struct GeogLineString {
    pub points: Vec<GeogPoint>,
    pub srid: Option<i32>,
}

/// An ordered sequence of three-dimensional points with one canonical SRID.
#[derive(Debug, Clone, PartialEq)]
pub struct GeogLineStringZ {
    pub points: Vec<GeogPointZ>,
    pub srid: Option<i32>,
}

/// An ordered sequence of rings with one canonical SRID. Ring order and
/// point order within a ring are significant and preserved; no structural
/// validation (closure, winding) is performed.
#[derive(Debug, Clone, PartialEq)]
pub struct GeogPolygon {
    pub rings: Vec<GeogLineString>,
    pub srid: Option<i32>,
}

} // verus!
