pub mod compiler;
pub mod lexer;
pub mod location;
pub mod repl;
pub mod scanner;
pub mod text;
