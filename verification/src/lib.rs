//! The logic of `docker-control`, a command line tool that manages containerised
//! web projects: every rule the tool decides by, with its contract.
pub mod assets;
pub mod commands;
pub mod dispatch;
pub mod dispatch_laws;
pub mod docker;
pub mod docker_laws;
pub mod edit;
pub mod git;
pub mod json;
pub mod lines;
pub mod number;
pub mod order;
pub mod paths;
pub mod shell;
pub mod ssh;
pub mod table;
pub mod template;
pub mod text;
pub mod text_laws;
pub mod ui;
pub mod utils;
