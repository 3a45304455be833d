//! A template-driven, line-oriented state machine that turns semi-structured
//! text into records of named values.
//!
//! A template declares values, each with the pattern that captures it, and
//! states, each with its rules. [`compile`] turns the text of a template into a
//! table of states; [`interpret`] runs a machine over that table and the lines
//! of an input, and returns a [`DataRecord`] for each place where a rule says
//! so. A [`TextFSM`] is such a machine, for those who hand it its lines one by one.

pub mod cli_table;
pub mod compiler;
pub mod engine;
pub mod fsm;
pub mod grammar;
pub mod laws;
pub mod record;
pub mod template;
pub mod text;
pub mod varsubst;

pub use crate::compiler::{compile, StateCompiled, StateRuleCompiled, TextFSMParser};
pub use crate::engine::MultiRegex;
pub use crate::fsm::{interpret, DataRecordConversion, TextFSM};
pub use crate::record::{DataRecord, Value};
pub use crate::template::{
    CompileError, FsmError, LineAction, NextState, RecordAction, RuleTransition, StateRule,
    ValueDefinition,
};
