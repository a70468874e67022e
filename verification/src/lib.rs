//! Upload ingestion for keyed 3D point records: the decisions of an upload
//! request, the naming of the stored files, and the compact inline form in
//! which a set of points is written back out.

pub mod decimal;
pub mod http;
pub mod inline;
pub mod lossless;
pub mod naming;
pub mod point;
pub mod points_map;
pub mod traces;
pub mod upload;
