//! The command line of the compose tool: global options and one
//! subcommand with its arguments.

use vstd::prelude::*;
use std::path::PathBuf;

verus! {

/// Global options and the subcommand.
#[derive(Debug, Clone)]
pub struct Cli {
    /// Compose files (`-f`).
    pub files: Vec<PathBuf>,
    /// Project name (`-p`).
    pub project_name: Option<String>,
    /// Environment files (`--env-file`).
    pub env_files: Vec<PathBuf>,
    pub command: Commands,
}

/// The subcommands.
#[derive(Debug, Clone)]
pub enum Commands {
    Up(UpArgs),
    Down(DownArgs),
    Start(ServiceArgs),
    Stop(ServiceArgs),
    Restart(ServiceArgs),
    Ps(PsArgs),
    Logs(LogsArgs),
    Exec(ExecArgs),
    Config(ConfigArgs),
}

/// `up [-d] [--build] [--remove-orphans] [services...]`.
#[derive(Debug, Clone)]
pub struct UpArgs {
    pub detach: bool,
    pub build: bool,
    pub remove_orphans: bool,
    pub services: Vec<String>,
}

/// `down [-v] [--remove-orphans] [services...]`.
#[derive(Debug, Clone)]
pub struct DownArgs {
    pub volumes: bool,
    pub remove_orphans: bool,
    pub services: Vec<String>,
}

/// `start|stop|restart [services...]`.
#[derive(Debug, Clone)]
pub struct ServiceArgs {
    pub services: Vec<String>,
}

/// `ps [services...]`.
#[derive(Debug, Clone)]
pub struct PsArgs {
    pub services: Vec<String>,
}

/// `logs [--tail n] [services...]`.
#[derive(Debug, Clone)]
pub struct LogsArgs {
    pub tail: Option<u32>,
    pub services: Vec<String>,
}

/// `exec <service> [cmd...] [workdir]`.
#[derive(Debug, Clone)]
pub struct ExecArgs {
    pub service: String,
    pub cmd: Vec<String>,
    pub workdir: Option<String>,
}

/// `config`.
#[derive(Debug, Clone)]
pub struct ConfigArgs {}

} // verus!
