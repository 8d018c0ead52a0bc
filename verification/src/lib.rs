//! Planning logic for pushing NDC function calls down into a query engine:
//! predicate query trees, the resolution of a command selection against
//! metadata, and the extraction of a function's result rows from an NDC
//! response.

pub mod connector_types;
pub mod field;
pub mod json;
pub mod metadata;
pub mod names;
pub mod pushdown;
pub mod query_plan;
pub mod response;
pub mod sorted_map;
