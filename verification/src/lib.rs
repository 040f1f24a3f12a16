//! Lints the scripts embedded in a maskfile.
//!
//! A maskfile is a tree of named commands, each of which may carry a script
//! in some language. The library writes down which files the scripts become,
//! which analyzer is run on each, and how the analyzers' output is turned
//! into findings. It does no input or output of its own: a caller performs
//! each [`run::Action`] and reports back with a [`run::Event`].

pub mod maskfile;
pub mod text;
pub mod handlers;
pub mod walker;
pub mod run;
pub mod guarantees;
