//! A playground engine for a small scripting language: a multi-pass front
//! end (lex, parse, resolve, type-check, generate bytecode) feeding a
//! persistent virtual machine that is bootstrapped once with native builtin
//! functions, together with an append-only output sink and a request/response
//! worker boundary that routes each response to its originating request.

pub mod ast;
pub mod codegen;
pub mod fmt;
pub mod lexer;
pub mod parser;
pub mod resolve;
pub mod runner;
pub mod session;
pub mod sink;
pub mod source;
pub mod time;
pub mod types;
pub mod vm;
