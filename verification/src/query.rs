//! Cypher query front end: syntax tree, values, validation and planning.
pub mod ast;
pub mod bindings;
pub mod error;
pub mod evaluator;
pub mod expand;
pub mod functions;
pub mod identifiers;
pub mod logic;
pub mod match_anchor;
pub mod merge_set;
pub mod plan;
pub mod planner;
pub mod prepared;
pub mod procedures;
pub mod render;
pub mod syntax_text;
pub mod temporal;
pub mod type_validation;
pub mod value;
pub mod where_laws;
pub mod where_validation;
pub mod write_check;
