//! rok — run one, know all: the verified core of a multi-step task runner.
pub mod text;
pub mod migrate;
pub mod orm;
pub mod casing;
pub mod paths;
pub mod error;
pub mod option_ext;
pub mod cache;
pub mod progress;
pub mod schema;
pub mod test_env;
pub mod refs;
pub mod json;
pub mod results;
pub mod record;
pub mod imports;
pub mod runner;
pub mod filters;
pub mod templates;
pub mod discovery;
pub mod lint;
pub mod boilerplate;
pub mod steps;
pub mod output;
pub mod cli;
pub mod config;
pub mod codegen;
pub mod docs;
pub mod preview;
pub mod compare;
