//! Deep memory accounting of value graphs that may share and cycle, with a
//! generator for the per-type accounting glue and a structural exporter.

pub mod derive;
pub mod export;
pub mod graph;
pub mod laws;
pub mod tracker;
