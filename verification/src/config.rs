//! The options that govern linting and output.

use vstd::prelude::*;
use crate::cli::Cli;

verus! {

/// What is printed.
#[derive(Debug, Clone, Copy, PartialEq, Eq)]
pub struct OutputConfig {
    /// Print nothing.
    pub quiet: bool,
    /// Print progress information.
    pub verbose: bool,
}

impl OutputConfig {
    /// The output options with the given flags.
    pub fn new(quiet: bool, verbose: bool) -> (r: Self)
        ensures
            r.quiet == quiet,
            r.verbose == verbose,
    {
        Self { quiet, verbose }
    }
}

impl Default for OutputConfig {
    fn default() -> (r: Self)
        ensures
            !r.quiet,
            !r.verbose,
    {
        Self { quiet: false, verbose: false }
    }
}

/// The options of a lint run.
#[derive(Debug, Clone, Copy, PartialEq, Eq)]
pub struct Config {
    pub output: OutputConfig,
    /// Report only pass or fail, not each error.
    pub skip_detail: bool,
    /// Do not repeat the input in the error report.
    pub hide_input: bool,
    /// Remove git's comment lines (and verbose diff) before linting.
    pub strip_comments: bool,
    /// Check that the header is at most this many bytes long.
    pub max_header_length: Option<usize>,
}

impl Default for Config {
    fn default() -> (r: Self)
        ensures
            !r.output.quiet,
            !r.output.verbose,
            !r.skip_detail,
            !r.hide_input,
            !r.strip_comments,
            r.max_header_length is None,
    {
        Self {
            output: OutputConfig::default(),
            skip_detail: false,
            hide_input: false,
            strip_comments: false,
            max_header_length: None,
        }
    }
}

impl Config {
    /// The options given on the command line; comments are kept.
    pub fn from_cli(args: &Cli) -> (r: Self)
        ensures
            r.output.quiet == args.quiet,
            r.output.verbose == args.verbose,
            r.skip_detail == args.skip_detail,
            r.hide_input == args.hide_input,
            !r.strip_comments,
            r.max_header_length == args.max_header_length,
    {
        Self {
            output: OutputConfig::new(args.quiet, args.verbose),
            skip_detail: args.skip_detail,
            hide_input: args.hide_input,
            strip_comments: false,
            max_header_length: args.max_header_length,
        }
    }
}

} // verus!
