//! An embeddable, dynamically typed scripting language — lexer, statement and
//! expression parsers, an abstract syntax tree, a tree-walking evaluator with
//! classes, closures, operator overloading and a module/export system — plus
//! the tiling-grid state that a window-managing host drives from scripts.

mod ast;
mod class;
mod dynamic;
mod expression;
mod formatter;
mod interpreter;
mod expr_parser;
mod lexer;
mod module;
mod method;
mod operator;
mod strutil;
mod tile;
mod token;
mod parser;
mod scope;
mod tile_grid;

pub use ast::Ast;
pub use ast::AstV;
pub use ast::ClassMember;
pub use ast::ClassMemberV;
pub use expression::Expression;
pub use expression::ExpressionV;
pub use class::Class;
pub use class::Function;
pub use dynamic::clone_ast;
pub use dynamic::clone_asts;
pub use dynamic::clone_dynamic;
pub use dynamic::clone_expr;
pub use dynamic::Callback;
pub use dynamic::Dynamic;
pub use dynamic::DynamicV;
pub use dynamic::EvalError;
pub use expr_parser::ExprParser;
pub use formatter::expression_to_source;
pub use expr_parser::ParseError;
pub use parser::Parser;
pub use scope::lemma_inner_definitions_invisible;
pub use scope::spec_lookup;
pub use scope::Scope;
pub use scope::ScopeArena;
pub use scope::ScopeV;
pub use parser::Program;
pub use interpreter::Flow;
pub use interpreter::Interpreter;
pub use interpreter::NativeHost;
pub use lexer::lex;
pub use method::Builtin;
pub use module::lemma_export_idempotent;
pub use module::spec_add_export;
pub use module::Module;
pub use module::ModuleState;
pub use method::Method;
pub use operator::Operator;
pub use lexer::lex_chars;
pub use lexer::LexError;
pub use tile::Tile;
pub use token::Token;
pub use tile::Window;
pub use tile_grid::SplitDirection;
pub use tile_grid::TileGrid;
