//! Turns a Code::Blocks project description into a ninja build graph, a
//! compilation database and a merged clangd configuration.

pub mod cli;
pub mod config;
pub mod generator;
pub mod graph;
pub mod host;
pub mod laws;
pub mod merge;
pub mod models;
pub mod ninja;
pub mod parser;
pub mod path_facts;
pub mod paths;
pub mod probe;
pub mod resolver;
pub mod text;
pub mod text_facts;
pub mod xml;

pub use cli::{interpret_arguments, CliArgs};
pub use config::ToolchainConfig;
pub use generator::{
    generate_build_script, generate_clangd_config, generate_clangd_fragment,
    generate_compile_commands,
};
pub use merge::merge_clangd_config;
pub use ninja::generate_ninja_build;
pub use parser::parse_cbp_file;
pub use paths::get_clean_absolute_path;
