//! The verified core of a minimal reverse geocoder: which divisions of an
//! Overture batch become places and under what name, and how places are
//! merged into the table that the spatial index points into.
pub mod batch;
pub mod columns;
pub mod naming;
pub mod place;
pub mod table;
