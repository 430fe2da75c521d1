//! Compose-file model, `.env` parsing and interpolation, dependency ordering
//! and container CLI argument building for a Docker-Compose-like tool.

pub mod strs;
pub mod strmap;
pub mod text;
pub mod orchestrate;
pub mod error;
pub mod digest;
pub mod args;
pub mod entities;
pub mod types;
pub mod compose;
pub mod backend;
pub mod service;
pub mod container_cli;
pub mod config;
pub mod workload;
pub mod testing;
pub mod commands;
pub mod cli;
pub mod codegen;
pub mod installer;
pub mod swift;
pub mod widget;
pub mod emit;
pub mod env;
pub mod json;
pub mod up;
pub mod down;
