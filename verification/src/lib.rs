//! The core of `aish`, an interactive shell: the lexer and parser of its
//! command language, the tree of executable nodes they build, the rules of
//! the built-in commands and of alias expansion, and the decisions each node
//! takes while it runs. Process and file handling is left to the program that
//! embeds this library; every function here works on plain values.

pub mod alias;
pub mod builtins;
pub mod command;
pub mod errors;
pub mod node;
pub mod openai_client;
pub mod parser;
pub mod parsing;
pub mod pipeline;
pub mod redirect;
pub mod runnable;
pub mod sequence;
pub mod shell;
pub mod suggestions;
pub mod table;
pub mod text;
pub mod token;
