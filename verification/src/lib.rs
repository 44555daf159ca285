//! Budgeted, bounded search planning and result shaping around ripgrep.
pub mod text;
pub mod json;
pub mod budget;
pub mod scope;
pub mod paths;
pub mod process;
pub mod regexes;
pub mod ordering;
pub mod find;
pub mod scan;
pub mod files_only;
pub mod files;
pub mod symbol;
pub mod records;
pub mod datasearch;
pub mod ops;
