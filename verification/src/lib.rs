//! Declare a script's command line in a few compact descriptions, parse the
//! script's arguments against it, and get shell assignments back.
//!
//! The descriptions are decoded ([`descriptor`]), assembled into a grammar
//! ([`grammar`]), the tokens scanned and bound ([`scanner`], [`matcher`]), and
//! the bindings written out ([`serializer`]).
pub mod cli;
pub mod descriptor;
pub mod grammar;
pub mod laws;
pub mod matcher;
pub mod result;
pub mod scanner;
pub mod serializer;
pub mod text;
pub mod usage;

pub use crate::cli::CliBuilder;
pub use crate::descriptor::{get_arg_data, ArgumentDescriptor, ArgumentKind};
pub use crate::grammar::{Grammar, KindGroups};
pub use crate::matcher::{match_tokens, parse_args};
pub use crate::result::{ArgValue, Error, ErrorKind, MatchResult, Outcome};
pub use crate::serializer::{output_flags, output_values, serialize};
