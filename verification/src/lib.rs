//! Hone: the language core of a small statically typed scripting language.

pub mod archmod;
pub mod ast;
pub mod builtins;
pub mod bundle;
pub mod bytes;
pub mod checker;
pub mod cli;
pub mod codegen;
pub mod error;
pub mod gunzip;
pub mod interp;
pub mod lexer;
pub mod memory;
pub mod parser;
pub mod pluginmod;
pub mod ptrmod;
pub mod scan;
pub mod srvmod;
pub mod table;
pub mod text;
pub mod texts;
pub mod value;
pub mod words;
