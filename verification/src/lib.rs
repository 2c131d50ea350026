//! The core of a game client's bootstrapper: it tells which files make up
//! the published version of a release channel and where each of them is to
//! be installed.

pub mod archive;
pub mod config;
pub mod install;
pub mod layout;
pub mod lines;
pub mod manifest;
pub mod number;
pub mod pass;
pub mod probe;
pub mod protocol;
pub mod remote;
pub mod routes;
pub mod text;
