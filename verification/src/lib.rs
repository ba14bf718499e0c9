//! Artchiver's verified core: tag selection, work and tag galleries, plugin SDK data types,
//! data-path layout and the decisions that drive the application's background work.
pub mod text;
pub mod num;
pub mod sdk;
pub mod db;
pub mod tag_set;
pub mod gallery;
pub mod navigation;
pub mod work_table;
pub mod work_view;
pub mod tag_view;
pub mod plugin_state;
pub mod throttle;
pub mod data_path;
pub mod tag_names;
pub mod ux_shell;
pub mod media;
pub mod environment;
pub mod tag_row;
pub mod work;
pub mod keyed;
pub mod met;
pub mod query_cache;
pub mod db_writer;
pub mod nga;
pub mod tag_tally;
pub mod podcast;
pub mod demo;
