//! Dependency diffs between two states of a crate's dependencies: the
//! request modes, the workspace graph queries and the nested-graph differ.

pub mod text;
pub mod version;
pub mod package_source;
pub mod package_id_info;
pub mod crate_diff_info;
pub mod nested_diff;
pub mod cargo_meta;
pub mod crate_info;
pub mod crate_diff_request;
pub mod paths;
pub mod registry_manager;
pub mod crate_diff_builder;
pub mod dependency_diff;
pub mod diff_report;
pub mod cli;
pub mod field_size;
pub mod report_printers;
pub mod merged_view;
