//! A compiler for a small scripting language about a turn-based text
//! adventure: it reads a script, checks it, and writes the source text of
//! a program that plays the adventure out.

pub mod compile;
pub mod emit;
pub mod generator;
pub mod message;
pub mod node;
pub mod parser;
pub mod text;
pub mod tokenizer;
pub mod type_checker;
pub mod uid;

pub use compile::{compile, compile_with_config, CompileError, Config};
pub use generator::Generator;
pub use node::{Node, NodeType, SBFunction};
pub use parser::Parser;
pub use tokenizer::{rm_comments, Token, TokenType, Tokenizer};
pub use type_checker::TypeChecker;
pub use uid::generate_uid;
