//! Front end of a compiler for a small imperative language: a table-driven
//! lexer, a predictive parser with semantic actions, and a generator of
//! three-address code.

pub mod text;
pub mod token;
pub mod symbol_declaration;
pub mod statement_tree;
pub mod semantic_model;
pub mod semantic_analysis;
pub mod symbol_table;
pub mod tac;
pub mod tac_program_builder;
pub mod intermediate_code_generation;
pub mod labels;
pub mod non_terminals;
pub mod semantic_actions;
pub mod productions;
pub mod first_set;
pub mod follow_set;
pub mod ll1_table;
pub mod stack;
pub mod syntax_analysis;
pub mod syntax_semantic_analysis;
pub mod dfa;
pub mod table_model;
pub mod transition_table;
pub mod token_buffer;
pub mod lexical_analysis;
