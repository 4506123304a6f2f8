//! Translator core for the nand2tetris stack VM language.
//!
//! The crate turns VM commands (`push constant 7`, `add`, `call Foo.main 0`,
//! ...) into Hack symbolic assembly text.  It covers the command emitters,
//! the symbol manager that mints unique labels, the code writer that drives
//! them, and the parser that cleans and tokenizes VM source lines; the
//! `machine` module holds a model of the Hack machine and proves that the
//! emitted arithmetic, comparison and calling-convention fragments compute
//! what the VM operations promise.

pub mod dec;
pub mod text;
pub mod symbol_manager;
pub mod converter;
pub mod code_writer;
pub mod vmlines;
pub mod parser;
pub mod translate;
pub mod machine;
