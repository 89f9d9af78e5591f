//! A local metadata catalog for tabular datasets, keyed by
//! `project/dataset/table`: a document store over a snapshot of the data
//! directory, and a search engine over the stored documents.
//!
//! The library decides and computes; reading the data directory into a
//! [`Store`] and writing the files that an operation names is left to the
//! program around it.

pub mod catalog;
pub mod cli;
pub mod config;
pub mod error;
pub mod ident;
pub mod laws;
pub mod models;
pub mod paths;
pub mod ranking;
pub mod render;
pub mod search;
pub mod storage;
pub mod text;

pub use crate::catalog::{
    create_table_metadata, edit_column_description, export_table_metadata, import_table_metadata,
};
pub use crate::cli::parse_table_spec;
pub use crate::config::{
    get_config_path, get_config_value, get_data_dir, get_data_path, init_data_directory,
    load_config, set_config_value,
};
pub use crate::error::{ErrorKind, StoreError};
pub use crate::models::{
    ColumnInfo, Config, MatchType, OutputFormat, SearchResult, TableInfo, TableMetadata,
};
pub use crate::paths::get_table_path;
pub use crate::render::list_config;
pub use crate::search::{matches_pattern, search_tables, SearchOptions};
pub use crate::storage::{
    delete_table_metadata, list_tables, load_table_metadata, save_table_metadata, FileContent,
    Store,
};
