//! Turning CSV event tables into Turtle and finding the time-interval
//! relations between the events of an RDF graph.

pub mod text;
pub mod csv_to_rdf;
pub mod oxi_db;
