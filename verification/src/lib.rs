//! An MCP proxy: what the command line asks for, which servers it names, how
//! requests are forwarded and how the HTTP client is set up.
//!
//! - `cli` and `startup`: from the parsed command line to a plan for client or
//!   server mode.
//! - `config_loader`: named stdio servers from a JSON configuration file.
//! - `http_client`: the client for a remote server, and its OAuth2 grant.
//! - `proxy_server`: routing, forwarding, and the relay of progress.
//! - `table`, `text`, `json`, `headers` and `files`: what these are built on.

pub mod cli;
pub mod config_loader;
pub mod files;
pub mod headers;
pub mod http_client;
pub mod json;
pub mod proxy_server;
pub mod startup;
pub mod table;
pub mod text;
