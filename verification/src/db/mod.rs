//! The activity store: rows and their values, what the queries give back, the
//! search index, the schema.

pub mod fts;
pub mod labels;
pub mod load;
pub mod rows;
pub mod schema;
pub mod sql;
pub mod statements;
