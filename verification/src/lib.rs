pub mod balance;
pub mod config_file;
pub mod daemon;
pub mod diagnostics;
pub mod grammar;
pub mod handlers;
pub mod hints;
pub mod parser;
pub mod plan;
pub mod report;
pub mod respond;
pub mod text;
pub mod types;
pub mod uri;
pub mod validate;
