//! Data and query layer of a tagged media-archive catalog: the facet
//! registry, the search-string compiler, the facet predicate builder, the
//! search ordering and pagination rules, the relation synchronizer and the
//! archive writer's decisions.
pub mod archive;
pub mod predicate;
pub mod query;
pub mod registry;
pub mod render;
pub mod search;
pub mod sync;
pub mod text;
