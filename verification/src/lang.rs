//! Language services: what the server asks of a language.

use vstd::prelude::*;
use ropey::Rope;
use tree_sitter::Language;
use crate::completion::CompletionItem;
use crate::outline::DocumentSymbol;
use crate::state::{GlobalIndex, Location, Position};
use crate::syntax::SyntaxTree;

pub mod java;

verus! {

/// `tree_sitter::Language`, opaque to the verifier.
#[verifier::external_type_specification]
#[verifier::external_body]
pub struct ExLanguage(Language);

/// What a language offers the server.
pub trait LanguageService {
    /// The grammar to parse documents of the language with.
    fn language(&self) -> Language;

    /// The outline of a document.
    fn document_symbol(&self, tree: &SyntaxTree, rope: &Rope) -> Vec<DocumentSymbol>;

    /// What to propose at `position`.
    fn completion(
        &self,
        tree: &SyntaxTree,
        rope: &Rope,
        position: Position,
        index: &GlobalIndex,
        current_uri: &str,
        keywords: &[String],
    ) -> Option<Vec<CompletionItem>>;

    /// Where the name under `position` is defined.
    fn goto_definition(
        &self,
        tree: &SyntaxTree,
        rope: &Rope,
        position: Position,
        index: &GlobalIndex,
        current_uri: &str,
    ) -> Option<Location>;
}

} // verus!
