//! The logic of `nexus-ctl`, a command line tool that wraps the PowerShell commands by which
//! trading instances on a Windows machine are started, stopped, watched and read out.
pub mod cli;
pub mod commands;
pub mod config;
pub mod dotenv;
pub mod failure;
pub mod laws;
pub mod powershell;
pub mod promises;
pub mod session;
pub mod step;
pub mod text;
