//! # jev-cli
//!
//! The verified core of an agent-facing command line for Jev, a System One
//! model reached through `jev-sdk`: agents and shell scripts ask typed,
//! probabilistic questions (predict, choose, score, ask) before acting.
//!
//! This crate holds the decisions: which configuration variables files may
//! set and how they layer under the real environment, how the evaluation
//! state is chosen and bounded, how command options are parsed and checked,
//! how a request document is validated, and how results are rendered as
//! text. The `jev-cli` program around it performs the IO.
pub mod config;
pub mod env;
pub mod error;
pub mod input;
pub mod json;
pub mod output;
pub mod outside;
pub mod run;
pub mod spec;
pub mod text;

pub use error::CliError;
pub use input::{StateInput, MAX_STATE_BYTES};
pub use output::OutputFormat;
pub use run::{
    build_client, parse_option_specs, AskOptions, OptionSpec, Outcome, ScoreOptions, EXIT_ERROR,
    EXIT_NOT_MET, EXIT_OK,
};
