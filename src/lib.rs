// A small statically typed scripting language: source text is scanned into tokens
// (`lexer`), parsed with declaration-time type recording (`parser`) into statements
// (`ast`), and run by a tree-walking evaluator (`interpreter`) whose behaviour is the
// big-step semantics in `semantics`. `laws` states general properties of the pipeline.
pub mod token;
pub mod lexer;
pub mod ast;
pub mod table;
pub mod value;
pub mod semantics;
pub mod interpreter;
pub mod parser;
pub mod laws;
