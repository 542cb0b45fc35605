//! The command kernel of a desktop file-processing service: request routing,
//! the tool registry, resource paths and the update pipeline, as functions on
//! plain values.

pub mod archive;
pub mod binary;
pub mod command_names;
pub mod config;
pub mod digest;
pub mod download;
pub mod errors;
pub mod file_commands;
pub mod functions;
pub mod json;
pub mod leaf_commands;
pub mod order;
pub mod params;
pub mod path_commands;
pub mod paths;
pub mod pattern;
pub mod registry;
pub mod resource;
pub mod result;
pub mod router;
pub mod scan;
pub mod shell;
pub mod support;
pub mod task;
pub mod text;
pub mod text_commands;
pub mod tools;
pub mod updater;
pub mod version;
