//! The desktop front end's logic: its data model, alias parser, AWS config
//! reader and CLI helpers.
pub mod model;
pub mod parser;
pub mod aws;
pub mod commands;
pub mod pty;
pub mod sessions;
pub mod aws_config;
