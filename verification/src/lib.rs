//! Serving engine of a price-list service: the in-memory catalog with its
//! versioned sweep, the bounded connection queue, request validation, per-item
//! derivation and the four file formats.

pub mod archive;
pub mod cache;
pub mod data;
pub mod decimal;
pub mod fastcgi;
pub mod format_json;
pub mod format_php;
pub mod format_xlsx;
pub mod format_xml;
pub mod go;
pub mod log;
pub mod param;
pub mod price;
pub mod queue;
pub mod read_json;
pub mod read_php;
pub mod serve;
pub mod show;
pub mod sweep;
pub mod text;
pub mod worker;
pub mod xlsx_parts;
