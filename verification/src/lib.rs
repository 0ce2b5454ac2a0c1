pub mod alike;
pub mod ast;
pub mod floats;
pub mod grammar;
pub mod layout;
pub mod lexer;
pub mod parser;
pub mod runtime;
pub mod scope;
pub mod spacing;
pub mod util;
