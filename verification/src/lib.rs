//! A small markup-language front end: a whitespace normalizer, a lexical
//! scanner that turns text into a flat token sequence, and a stack-based
//! tree builder that turns the tokens into a rooted element tree.
//!
//! [`Document`] is the facade: it runs the scanner and the builder over a
//! text and wraps the resulting root element.

pub mod nodes;
pub mod parser;
pub mod tokenizer;

use vstd::prelude::*;

use crate::nodes::{Element, ElementModel};
use crate::parser::{parse, spec_parse, ParseError, ParseErrorModel};
use crate::tokenizer::{spec_tokenize, tokenize, tokens_model, LexError};

verus! {

/// A failure of building a document from text: either the scanner or the
/// tree builder stopped, each with its own inspectable cause.
#[derive(Debug, PartialEq)]
pub enum DocumentError {
    Lex(LexError),
    Parse(ParseError),
}

/// The mathematical value of a [`DocumentError`].
pub enum DocumentErrorModel {
    Lex(LexError),
    Parse(ParseErrorModel),
}

impl View for DocumentError {
    type V = DocumentErrorModel;

    open spec fn view(&self) -> DocumentErrorModel {
        match self {
            DocumentError::Lex(e) => DocumentErrorModel::Lex(*e),
            DocumentError::Parse(e) => DocumentErrorModel::Parse(e@),
        }
    }
}

/// The text of a document failure report: the stage's own report.
pub open spec fn document_error_message(e: DocumentErrorModel) -> Seq<char> {
    match e {
        DocumentErrorModel::Lex(le) => crate::tokenizer::lex_error_message(le),
        DocumentErrorModel::Parse(pe) => crate::parser::parse_error_message(pe),
    }
}

impl DocumentError {
    /// The failure, as a line of text from the failing stage.
    pub fn message(&self) -> (result: String)
        ensures
            result@ == document_error_message(self@),
    {
        match self {
            DocumentError::Lex(e) => e.message(),
            DocumentError::Parse(e) => e.message(),
        }
    }
}

/// The tree that the text describes: what the builder returns on the
/// scanner's tokens, or the first failure of either stage.
pub open spec fn spec_document(s: Seq<char>) -> Result<ElementModel, DocumentErrorModel> {
    match spec_tokenize(s) {
        Err(le) => Err(DocumentErrorModel::Lex(le)),
        Ok(toks) => match spec_parse(toks) {
            Err(pe) => Err(DocumentErrorModel::Parse(pe)),
            Ok(e) => Ok(e),
        },
    }
}

/// A parsed document: wraps exactly one root element.
pub struct Document {
    root: Element,
}

impl View for Document {
    type V = ElementModel;

    closed spec fn view(&self) -> ElementModel {
        self.root@
    }
}

impl Document {
    /// An empty document: its root is a fresh element named `root`.
    pub fn new() -> (result: Document)
        ensures
            result@ == (ElementModel {
                name: "root"@,
                attributes: Seq::empty(),
                children: Seq::empty(),
                empty: false,
            }),
    {
        Document { root: Element::new("root") }
    }

    /// A document wrapping `e` as its root element.
    pub fn from_element(e: Element) -> (result: Document)
        ensures
            result@ == e@,
    {
        Document { root: e }
    }

    /// Scans and parses `s` and wraps the resulting tree: exactly the
    /// composition of the scanner and the builder, with the first failure
    /// of either stage surfaced.
    pub fn from_string(s: &str) -> (result: Result<Document, DocumentError>)
        ensures
            match result {
                Ok(d) => spec_document(s@) == Ok::<ElementModel, DocumentErrorModel>(d@),
                Err(e) => spec_document(s@) == Err::<ElementModel, DocumentErrorModel>(e@),
            },
    {
        let tokens = match tokenize(s) {
            Ok(tokens) => tokens,
            Err(e) => {
                return Err(DocumentError::Lex(e));
            },
        };
        match parse(tokens) {
            Ok(element) => Ok(Document::from_element(element)),
            Err(e) => Err(DocumentError::Parse(e)),
        }
    }

    /// The document's root element.
    pub fn get_root(&self) -> (result: &Element)
        ensures
            result@ == self@,
    {
        &self.root
    }
}

} // verus!
