//! Symbol resolution for Java sources: a syntax mirror of each document, a
//! workspace index of declarations, and the lookup rules that map an
//! identifier under the cursor to one definition.

pub mod ast;
pub mod backend;
pub mod completion;
pub mod document;
pub mod index_laws;
pub mod indexer;
pub mod inference;
pub mod lang;
pub mod library;
pub mod lower;
pub mod offsets;
pub mod outline;
pub mod resolve;
pub mod resolver_laws;
pub mod rope;
pub mod scope;
pub mod state;
pub mod syntax;
pub mod text;
pub mod textscan;
pub mod uri;
pub mod utils;
