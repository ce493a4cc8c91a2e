pub mod bimap_map;
pub mod generate;
pub mod imports;
pub mod laws;
pub mod merge;
pub mod paths;
pub mod plan;
pub mod schema;
pub mod scope;
