//! A small interactive-shell core: a quoting/escaping tokenizer, a search-path
//! resolver for external commands, and a registry of builtin commands that all
//! report their behaviour as data, so that every decision the shell makes is
//! stated and proved here. Reading lines, listing directories and spawning
//! processes are left to the surrounding driver.

pub mod algebra;
pub mod command;
pub mod effect;
pub mod resolver;
pub mod strutil;
pub mod tokenizer;

pub use resolver::find_cmd_in_path;
pub use tokenizer::parse_input;
