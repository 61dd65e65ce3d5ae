//! The whole way from the text of a script to the text of its program.

use crate::emit::{program_head_text, program_tail_text};
use crate::generator::{
    fragment, fragments, joined, lemma_fragments_each, lemma_fragments_of_all, program,
    GenerateError, Generator, DEFAULT_MAX_CHAR,
};
use crate::node::{nodes_view, Node, NodeView};
use crate::parser::{
    body_spec, holds, script_spec, statement_spec, PState, ParseError, ParseErrorView, Parser,
};
use crate::tokenizer::{
    rm_comments, tokens_of, without_comments, LexError, TokenType, TokenView, Tokenizer,
};
use crate::type_checker::{check_nodes, well_typed, TypeChecker, TypeError};
use vstd::prelude::*;

verus! {

/// What a compilation can be told.
#[derive(Debug, Clone, Copy)]
pub struct Config {
    /// The greatest number of actors that the program allows.
    pub max_char: usize,
    /// Whether a message about a failure is to tell its cause as well.
    pub verbose: bool,
}

impl Default for Config {
    fn default() -> (r: Self)
        ensures
            r.max_char == DEFAULT_MAX_CHAR,
            !r.verbose,
    {
        Config { max_char: DEFAULT_MAX_CHAR, verbose: false }
    }
}

impl Config {
    /// Whether more actors are allowed than the game is meant for. Such a
    /// bound is honoured all the same.
    pub fn is_cheating(&self) -> (r: bool)
        ensures
            r == (self.max_char > DEFAULT_MAX_CHAR),
    {
        self.max_char > DEFAULT_MAX_CHAR
    }
}

/// Why a script has no program.
#[derive(Debug, Clone, PartialEq, Eq)]
pub enum CompileError {
    /// The text is no sequence of tokens.
    Lex(LexError),
    /// The tokens are no script, or a name is used before it is declared.
    Parse(ParseError),
    /// The script is not well typed.
    Type(TypeError),
    /// A statement has no text.
    Generate(GenerateError),
}

/// An error as a mathematical value.
pub enum CompileErrorView {
    Lex(Seq<char>),
    Parse(ParseErrorView),
    Type(TypeError),
    Generate(GenerateError),
}

impl View for CompileError {
    type V = CompileErrorView;

    open spec fn view(&self) -> CompileErrorView {
        match *self {
            CompileError::Lex(e) => CompileErrorView::Lex(e.found@),
            CompileError::Parse(e) => CompileErrorView::Parse(e@),
            CompileError::Type(e) => CompileErrorView::Type(e),
            CompileError::Generate(e) => CompileErrorView::Generate(e),
        }
    }
}

/// The state of a parser before its first token.
pub open spec fn start() -> PState {
    PState { pos: 0, ids: Seq::empty(), last_id: 0 }
}

/// The program of the script `code` for at most `max_char` actors, or
/// the first fault of the script: the comments go, the rest is read as
/// tokens, the tokens as statements, the statements are checked, and the
/// program is written only for a script that is well typed.
pub open spec fn compiled(code: Seq<char>, max_char: usize) -> Result<Seq<char>, CompileErrorView> {
    match tokens_of(without_comments(code)) {
        Err(chunk) => Err(CompileErrorView::Lex(chunk)),
        Ok(tokens) => match script_spec(tokens, start()) {
            Err(e) => Err(CompileErrorView::Parse(e)),
            Ok((nodes, _)) => match check_nodes(nodes, Map::empty()) {
                Err(e) => Err(CompileErrorView::Type(e)),
                Ok(_) => match program(nodes, max_char) {
                    Err(e) => Err(CompileErrorView::Generate(e)),
                    Ok(text) => Ok(text),
                },
            },
        },
    }
}

/// Reads the statements of the script `code`.
pub fn read_script(code: &str) -> (r: Result<Vec<Node>, CompileError>)
    ensures
        match tokens_of(without_comments(code@)) {
            Err(chunk) => r is Err && r->Err_0@ == CompileErrorView::Lex(chunk),
            Ok(tokens) => match script_spec(tokens, start()) {
                Err(e) => r is Err && r->Err_0@ == CompileErrorView::Parse(e),
                Ok((nodes, _)) => r is Ok && nodes_view(r->Ok_0@) == nodes,
            },
        },
{
    let plain = rm_comments(code);
    let mut tokenizer = Tokenizer::new(plain.as_str());
    let mut tokens = match tokenizer.tokenize() {
        Ok(t) => t,
        Err(e) => {
            return Err(CompileError::Lex(e));
        },
    };
    let mut parser = Parser::new(&mut tokens);
    match parser.parse() {
        Ok(nodes) => Ok(nodes),
        Err(e) => Err(CompileError::Parse(e)),
    }
}

/// Compiles the script `code` as `conf` says.
pub fn compile_with_config(code: &str, conf: Config) -> (r: Result<String, CompileError>)
    ensures
        match compiled(code@, conf.max_char) {
            Ok(text) => r is Ok && r->Ok_0@ == text,
            Err(e) => r is Err && r->Err_0@ == e,
        },
{
    let nodes = read_script(code)?;
    let mut checker = TypeChecker::new(&nodes);
    match checker.check_types() {
        Ok(()) => {},
        Err(e) => {
            return Err(CompileError::Type(e));
        },
    }
    let generator = Generator::with_max_chars(&nodes, conf.max_char);
    match generator.generate() {
        Ok(text) => Ok(text),
        Err(e) => Err(CompileError::Generate(e)),
    }
}

/// Compiles the script `code` for at most ten actors.
pub fn compile(code: &str) -> (r: Result<String, CompileError>)
    ensures
        match compiled(code@, DEFAULT_MAX_CHAR) {
            Ok(text) => r is Ok && r->Ok_0@ == text,
            Err(e) => r is Err && r->Err_0@ == e,
        },
{
    compile_with_config(code, Config { max_char: DEFAULT_MAX_CHAR, verbose: false })
}

/// One statement with a fragment before statements with fragments gives
/// statements with fragments.
proof fn lemma_fragments_of_run(node: NodeView, more: Seq<NodeView>)
    requires
        fragment(node) is Ok,
        fragments(more) is Ok,
    ensures
        fragments(seq![node] + more) is Ok,
{
    let all = seq![node] + more;
    lemma_fragments_each(more);
    assert forall|i: int| 0 <= i < all.len() implies fragment(#[trigger] all[i]) is Ok by {
        if i > 0 {
            assert(all[i] == more[i - 1]);
        }
    }
    lemma_fragments_of_all(all);
}

/// Every statement that the parser reads has a fragment: a spell that
/// needs a target has one, and a `time_warp` has its body.
pub proof fn lemma_parsed_statement_has_text(toks: Seq<TokenView>, st: PState)
    ensures
        statement_spec(toks, st) is Ok ==> fragment(statement_spec(toks, st)->Ok_0.0) is Ok,
    decreases toks.len() - st.pos, 3int,
{
    let p = st.pos;
    if statement_spec(toks, st) is Ok && toks[p].0 == TokenType::Identifier {
        let after = st.at(p + 1);
        if toks[p + 1].0 == TokenType::FnUses {
            let user = toks[p].1;
            let q = after.pos;
            if holds(toks, q + 2, TokenType::FnCasting) && toks[q + 3].0
                == TokenType::SbFnTimeWarp {
                let at = after.at(q + 3);
                lemma_parsed_body_has_text(toks, at.at(at.pos + 4));
            }
        }
    }
}

/// The statements of a body that the parser reads have fragments.
pub proof fn lemma_parsed_body_has_text(toks: Seq<TokenView>, st: PState)
    ensures
        body_spec(toks, st) is Ok ==> fragments(body_spec(toks, st)->Ok_0.0) is Ok,
    decreases toks.len() - st.pos, 4int,
{
    if body_spec(toks, st) is Ok && toks[st.pos].0 != TokenType::End {
        lemma_parsed_statement_has_text(toks, st);
        let (node, next) = statement_spec(toks, st)->Ok_0;
        lemma_parsed_body_has_text(toks, next);
        lemma_fragments_of_run(node, body_spec(toks, next)->Ok_0.0);
    }
}

/// The statements of a script that the parser reads have fragments.
pub proof fn lemma_parsed_script_has_text(toks: Seq<TokenView>, st: PState)
    ensures
        script_spec(toks, st) is Ok ==> fragments(script_spec(toks, st)->Ok_0.0) is Ok,
    decreases toks.len() - st.pos,
{
    if script_spec(toks, st) is Ok && 0 <= st.pos < toks.len() {
        lemma_parsed_statement_has_text(toks, st);
        let (node, next) = statement_spec(toks, st)->Ok_0;
        lemma_parsed_script_has_text(toks, next);
        lemma_fragments_of_run(node, script_spec(toks, next)->Ok_0.0);
    }
}

/// A script that is read and well typed has a program: writing it fails
/// only for trees that the parser never builds.
pub proof fn lemma_compiled_has_text(code: Seq<char>, max_char: usize)
    ensures
        !(compiled(code, max_char) is Err && compiled(code, max_char)->Err_0 is Generate),
{
    match tokens_of(without_comments(code)) {
        Ok(tokens) => {
            lemma_parsed_script_has_text(tokens, start());
        },
        Err(_) => {},
    }
}

/// The program of a script that compiles is the support code and the
/// start of `main`, then the fragments of its statements, one on each
/// line in the order of the script, then the end of `main`; and the script
/// is well typed.
pub proof fn lemma_compiled_is_checked_and_whole(code: Seq<char>, max_char: usize)
    requires
        compiled(code, max_char) is Ok,
    ensures
        ({
            let tokens = tokens_of(without_comments(code))->Ok_0;
            let nodes = script_spec(tokens, start())->Ok_0.0;
            &&& well_typed(nodes)
            &&& fragments(nodes) is Ok
            &&& fragments(nodes)->Ok_0.len() == nodes.len()
            &&& compiled(code, max_char)->Ok_0 == program_head_text(max_char) + joined(
                fragments(nodes)->Ok_0,
            ) + program_tail_text()
        }),
{
    let tokens = tokens_of(without_comments(code))->Ok_0;
    let nodes = script_spec(tokens, start())->Ok_0.0;
    lemma_fragments_each(nodes);
}

} // verus!
