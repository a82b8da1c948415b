//! Parsing configuration text with a Tree-sitter grammar.

use vstd::prelude::*;
use tree_sitter::{Language, LanguageError, Parser, Tree};

verus! {

/// Tree-sitter's grammar handle, carried through as an opaque value.
#[verifier::external_type_specification]
#[verifier::external_body]
pub struct ExLanguage(Language);

/// Tree-sitter's parser, carried through as an opaque value.
#[verifier::external_type_specification]
#[verifier::external_body]
pub struct ExParser(Parser);

/// Tree-sitter's syntax tree, carried through as an opaque value.
#[verifier::external_type_specification]
#[verifier::external_body]
pub struct ExTree(Tree);

/// Tree-sitter's error for a grammar it cannot use, carried through as an opaque value.
#[verifier::external_type_specification]
#[verifier::external_body]
pub struct ExLanguageError(LanguageError);

/// Why a source could not be parsed.
#[derive(Debug)]
pub enum TreeSitterError {
    /// The parser cannot use the grammar (an incompatible ABI version, or not parseable).
    Language(LanguageError),
    /// The parser produced no tree.
    ParseFailed,
}

/// The ABI versions of grammars that this Tree-sitter can parse with, and whether the grammar
/// can be used for parsing at all: what decides whether a parser accepts a grammar.
pub open spec fn grammar_usable(abi_version: usize, parseable: bool) -> bool {
    13 <= abi_version <= 15 && parseable
}

/// A Tree-sitter grammar, with the ABI version it was generated for and whether it can be used
/// for parsing, as the grammar itself reports them. `Grammar::new` is the only way to make one,
/// so the two facts are always those of the grammar held.
pub struct Grammar {
    language: Language,
    abi_version: usize,
    parseable: bool,
}

impl Grammar {
    /// The ABI version the grammar was generated for.
    pub closed spec fn abi(self) -> usize {
        self.abi_version
    }

    /// Whether the grammar can be used for parsing.
    pub closed spec fn can_parse(self) -> bool {
        self.parseable
    }

    /// The grammar `language`, with the facts it reports about itself.
    pub fn new(language: Language) -> Grammar {
        let abi_version = language_abi_version(&language);
        let parseable = language_is_parseable(&language);
        Grammar { language, abi_version, parseable }
    }

    /// The ABI version the grammar was generated for.
    pub fn abi_version(&self) -> (v: usize)
        ensures
            v == self.abi(),
    {
        self.abi_version
    }

    /// Whether the grammar can be used for parsing.
    pub fn is_parseable(&self) -> (b: bool)
        ensures
            b == self.can_parse(),
    {
        self.parseable
    }
}

/// A parser that has been given a grammar; `set_parser_language` is the only way to make one.
pub struct GrammarParser {
    parser: Parser,
}

/// Calls `tree_sitter::Language::abi_version`. Nothing is stated of the number here: the
/// grammar is opaque; `Grammar` keeps the number beside the grammar it came from.
#[verifier::external_body]
fn language_abi_version(language: &Language) -> usize {
    language.abi_version()
}

/// Calls `tree_sitter::Language::is_parseable`. Nothing is stated of the answer here: the
/// grammar is opaque; `Grammar` keeps it beside the grammar it came from.
#[verifier::external_body]
fn language_is_parseable(language: &Language) -> bool {
    language.is_parseable()
}

/// Calls `tree_sitter::Parser::new`. Nothing is stated of the parser: it is opaque here.
#[verifier::external_body]
fn new_parser() -> Parser {
    Parser::new()
}

/// Calls `tree_sitter::Parser::set_language` with the grammar's language. The contract claims
/// what that function's source shows: it succeeds exactly when the grammar's ABI version lies
/// in `MIN_COMPATIBLE_LANGUAGE_VERSION..=LANGUAGE_VERSION` (13 to 15 in this version) and the
/// grammar is parseable. (A third, Wasm-store failure exists only with the crate's `wasm`
/// feature, which is off.) On success the parser is handed back as a `GrammarParser`.
#[verifier::external_body]
fn set_parser_language(parser: Parser, grammar: &Grammar) -> (res: Result<
    GrammarParser,
    LanguageError,
>)
    ensures
        res is Ok <==> grammar_usable(grammar.abi(), grammar.can_parse()),
{
    let mut parser = parser;
    match parser.set_language(&grammar.language) {
        Ok(()) => Ok(GrammarParser { parser }),
        Err(e) => Err(e),
    }
}

/// Calls `tree_sitter::Parser::parse` on the whole of `source`, with no earlier tree. The
/// contract claims that a tree comes back: the parser has a language, no progress callback is
/// set that could cancel the parse, and without the `wasm` feature no external scanner can
/// fail. A syntax error in `source` shows as error nodes in the tree, not as a missing tree.
#[verifier::external_body]
fn parse_source(parser: &mut GrammarParser, source: &str) -> (res: Option<Tree>)
    ensures
        res is Some,
{
    parser.parser.parse(source, None)
}

/// The outcome of a parse from the tree the parser gave back: the tree, or
/// `TreeSitterError::ParseFailed` when there is none.
pub fn tree_or_error(parsed: Option<Tree>) -> (res: Result<Tree, TreeSitterError>)
    ensures
        match parsed {
            Some(t) => res == Ok::<Tree, TreeSitterError>(t),
            None => res matches Err(TreeSitterError::ParseFailed),
        },
{
    match parsed {
        Some(tree) => Ok(tree),
        None => Err(TreeSitterError::ParseFailed),
    }
}

/// Parse `source` with the Tree-sitter grammar `grammar`. A grammar the parser cannot use gives
/// `TreeSitterError::Language` with the parser's error; with a usable grammar every source
/// parses, syntax errors showing as error nodes in the tree.
pub fn parse_with_language(source: &str, grammar: &Grammar) -> (res: Result<
    Tree,
    TreeSitterError,
>)
    ensures
        res is Ok <==> grammar_usable(grammar.abi(), grammar.can_parse()),
        res is Err ==> res matches Err(TreeSitterError::Language(_)),
{
    let parser = new_parser();
    let mut parser = match set_parser_language(parser, grammar) {
        Ok(p) => p,
        Err(e) => {
            return Err(TreeSitterError::Language(e));
        },
    };
    tree_or_error(parse_source(&mut parser, source))
}

} // verus!
