//! Signature parsing, shape deduction and scoped name resolution for a
//! pipeline-oriented shell language.

pub mod alias;
pub mod alias_save;
pub mod command;
pub mod commands;
pub mod deduction;
pub mod default_context;
pub mod directory_specific_environment;
pub mod errors;
pub mod hir;
pub mod lex;
pub mod name_map;
pub mod order;
pub mod palette;
pub mod plugins;
pub mod param_flag_list;
pub mod parse_lib;
pub mod primitives;
pub mod ps;
pub mod scope;
pub mod shape;
pub mod signature;
pub mod span;
pub mod start;
pub mod text;
pub mod token_split;
pub mod value;
