//! Codec between a geographic value model (points, line strings, polygons,
//! optionally carrying an elevation coordinate and a spatial reference
//! identifier) and the little-endian, SRID-flagged extended well-known
//! binary wire encoding used by a "geography" database column.
//!
//! Coordinates are carried as their 8-byte wire representation (the bit
//! pattern of an IEEE-754 double), which the codec never interprets:
//! equality of shapes is exact, bit-for-bit equality of every coordinate
//! and of the SRID field.

pub mod adapter;
pub mod codec;
pub mod geom;
pub mod laws;
pub mod wire;
