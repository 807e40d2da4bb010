//! A layered configuration reader: command-line arguments, environment variables and
//! defaults, resolved per program option with a fixed precedence.
use vstd::prelude::*;

pub mod text;
pub mod str_to_bool;
pub mod parse_env;
pub mod program_option;
pub mod lazybuf;
pub mod parsed_args;
pub mod error;
pub mod conf_context;
pub mod error_render;
pub mod find_parameter;
pub mod naming;
pub mod shell;
pub mod password;
pub mod duration;
pub mod state_machine;
pub mod styles;
pub mod outside_types;
pub mod parser;
pub mod error_order;
pub mod error_report;
pub mod derive_attrs;
pub mod derive_fields;
pub mod derive_struct;
pub mod derive_enum;
pub mod initialize;
pub mod document;
pub mod laws;

verus! {
}
