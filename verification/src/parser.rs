//! Parsing: from tokens to statements.
//!
//! The parser reads statements one after the other. A declaration binds
//! its name to a fresh identifier; an action looks up every name it
//! mentions, so a name must be declared before it is used. The grammar is
//! written down once, as functions from tokens and a state to a statement
//! and the state after it, and the parser is proved to compute exactly
//! what they say.

use crate::node::{
    count_up, lemma_nodes_view_push, node_ids, node_view, nodes_ids, nodes_view, Char, FnAttacks, FnBody, FnBuys, FnShouts,
    FnShoutsSpeak, FnUses, FnUsesCasting, FnWhispers, FnWhispersSpeak, Merchant, Node, NodeType,
    NodeView, Potion, SBFunction, SpellBook, Zombie,
};
use crate::text::{
    find_i32_fault, find_u32_fault, i32_fault, parse_i32, parse_i32_spec, parse_u32,
    parse_u32_spec, u32_fault, NumberFault,
};
use crate::tokenizer::{token_views, Token, TokenType, TokenView};
use crate::uid::{generate_uid, next_uid};
use vstd::prelude::*;

verus! {

/// What a name was expected to stand for where it was not found.
#[derive(Debug, Clone, Copy, PartialEq, Eq, Structural)]
pub enum Role {
    Character,
    Item,
    Merchant,
    ItemOrSpellbook,
    Potion,
    Zombie,
    CharacterOrZombie,
    Spellbook,
}

/// The numbers that declarations hold.
#[derive(Debug, Clone, Copy, PartialEq, Eq, Structural)]
pub enum Number {
    CharHealth,
    CharAttack,
    ZombieHealth,
    ZombieAttack,
    PotionValue,
}

/// Why a sequence of tokens is no script.
#[derive(Debug, Clone, PartialEq, Eq)]
pub enum ParseError {
    /// The tokens end where one of kind `expected` has to stand.
    UnexpectedEnd { expected: TokenType },
    /// A token of kind `found` stands where one of kind `expected` has to.
    UnexpectedToken { expected: TokenType, found: TokenType },
    /// No statement starts with a token of this kind.
    BadStatementStart { found: TokenType },
    /// The tokens end after the name that starts a statement.
    MissingAction { name: String },
    /// `casting` stands where an action has to.
    CastingAlone,
    /// A token of kind `found` stands where an action has to.
    BadAction { name: String, found: TokenType },
    /// The tokens end after `casting`.
    MissingSpell,
    /// A token of kind `found` stands where a spell has to.
    BadSpell { found: TokenType },
    /// The tokens end where a statement, or the `end` of a `time_warp`, has
    /// to stand.
    MissingEnd,
    /// A number of the declaration of `name` is no value of its type.
    BadNumber { number: Number, name: String, fault: NumberFault },
    /// `name` is used and was not declared before.
    UnboundName { name: String, role: Role },
    /// No identifier is left to give out.
    TooManyIds,
}


/// An error as a mathematical value: names are sequences of characters.
pub enum ParseErrorView {
    UnexpectedEnd { expected: TokenType },
    UnexpectedToken { expected: TokenType, found: TokenType },
    BadStatementStart { found: TokenType },
    MissingAction { name: Seq<char> },
    CastingAlone,
    BadAction { name: Seq<char>, found: TokenType },
    MissingSpell,
    BadSpell { found: TokenType },
    MissingEnd,
    BadNumber { number: Number, name: Seq<char>, fault: NumberFault },
    UnboundName { name: Seq<char>, role: Role },
    TooManyIds,
}

impl View for ParseError {
    type V = ParseErrorView;

    open spec fn view(&self) -> ParseErrorView {
        match *self {
            ParseError::UnexpectedEnd { expected } => ParseErrorView::UnexpectedEnd { expected },
            ParseError::UnexpectedToken { expected, found } => ParseErrorView::UnexpectedToken {
                expected,
                found,
            },
            ParseError::BadStatementStart { found } => ParseErrorView::BadStatementStart { found },
            ParseError::MissingAction { name } => ParseErrorView::MissingAction { name: name@ },
            ParseError::CastingAlone => ParseErrorView::CastingAlone,
            ParseError::BadAction { name, found } => ParseErrorView::BadAction {
                name: name@,
                found,
            },
            ParseError::MissingSpell => ParseErrorView::MissingSpell,
            ParseError::BadSpell { found } => ParseErrorView::BadSpell { found },
            ParseError::MissingEnd => ParseErrorView::MissingEnd,
            ParseError::BadNumber { number, name, fault } => ParseErrorView::BadNumber {
                number,
                name: name@,
                fault,
            },
            ParseError::UnboundName { name, role } => ParseErrorView::UnboundName {
                name: name@,
                role,
            },
            ParseError::TooManyIds => ParseErrorView::TooManyIds,
        }
    }
}


/// Where the parser stands: the position of the next token, the names
/// bound so far with their identifiers, and the last identifier given out.
pub struct PState {
    pub pos: int,
    pub ids: Seq<(Seq<char>, usize)>,
    pub last_id: usize,
}

impl PState {
    /// This state at another position.
    pub open spec fn at(self, pos: int) -> PState {
        PState { pos, ids: self.ids, last_id: self.last_id }
    }

    /// This state at another position, after one more identifier was given
    /// out.
    pub open spec fn issued(self, pos: int) -> PState {
        PState { pos, ids: self.ids, last_id: (self.last_id + 1) as usize }
    }

    /// This state at another position, after `name` was bound to one more
    /// identifier.
    pub open spec fn bound(self, pos: int, name: Seq<char>) -> PState {
        PState {
            pos,
            ids: self.ids.push((name, (self.last_id + 1) as usize)),
            last_id: (self.last_id + 1) as usize,
        }
    }

    /// The identifier that is given out next, if one is left.
    pub open spec fn fresh(self) -> Option<usize> {
        next_uid(self.last_id)
    }
}

/// What parsing one statement gives: its tree and the state after it.
pub type Parsed = Result<(NodeView, PState), ParseErrorView>;

/// What parsing a run of statements gives.
pub type ParsedRun = Result<(Seq<NodeView>, PState), ParseErrorView>;

/// The identifier of the first entry of `ids` with the name `name`.
pub open spec fn lookup(ids: Seq<(Seq<char>, usize)>, name: Seq<char>) -> Option<usize>
    decreases ids.len(),
{
    if ids.len() == 0 {
        None
    } else if ids[0].0 == name {
        Some(ids[0].1)
    } else {
        lookup(ids.skip(1), name)
    }
}

/// The error, if any, of asking for a token of kind `t` at `pos`.
pub open spec fn expect(toks: Seq<TokenView>, pos: int, t: TokenType) -> Option<ParseErrorView> {
    if pos < 0 || pos >= toks.len() {
        Some(ParseErrorView::UnexpectedEnd { expected: t })
    } else if toks[pos].0 != t {
        Some(ParseErrorView::UnexpectedToken { expected: t, found: toks[pos].0 })
    } else {
        None
    }
}

/// Whether a token of kind `t` stands at `pos`.
pub open spec fn holds(toks: Seq<TokenView>, pos: int, t: TokenType) -> bool {
    0 <= pos < toks.len() && toks[pos].0 == t
}

/// The error for a name that was not declared.
pub open spec fn unbound(name: Seq<char>, role: Role) -> ParseErrorView {
    ParseErrorView::UnboundName { name, role }
}

/// `char name = (health, attack)`
pub open spec fn char_spec(toks: Seq<TokenView>, st: PState) -> Parsed {
    let p = st.pos;
    if let Some(e) = expect(toks, p, TokenType::Char) {
        Err(e)
    } else if let Some(e) = expect(toks, p + 1, TokenType::Identifier) {
        Err(e)
    } else if let Some(e) = expect(toks, p + 2, TokenType::Equals) {
        Err(e)
    } else if let Some(e) = expect(toks, p + 3, TokenType::OParen) {
        Err(e)
    } else if let Some(e) = expect(toks, p + 4, TokenType::Integer) {
        Err(e)
    } else if parse_u32_spec(toks[p + 4].1) is None {
        Err(
            ParseErrorView::BadNumber {
                number: Number::CharHealth,
                name: toks[p + 1].1,
                fault: u32_fault(toks[p + 4].1),
            },
        )
    } else if let Some(e) = expect(toks, p + 5, TokenType::Comma) {
        Err(e)
    } else if let Some(e) = expect(toks, p + 6, TokenType::Integer) {
        Err(e)
    } else if parse_u32_spec(toks[p + 6].1) is None {
        Err(
            ParseErrorView::BadNumber {
                number: Number::CharAttack,
                name: toks[p + 1].1,
                fault: u32_fault(toks[p + 6].1),
            },
        )
    } else if let Some(e) = expect(toks, p + 7, TokenType::CParen) {
        Err(e)
    } else {
        match st.fresh() {
            None => Err(ParseErrorView::TooManyIds),
            Some(id) => Ok(
                (
                    NodeView::Char {
                        id,
                        name: toks[p + 1].1,
                        health: parse_u32_spec(toks[p + 4].1)->Some_0,
                        attack: parse_u32_spec(toks[p + 6].1)->Some_0,
                    },
                    st.bound(p + 8, toks[p + 1].1),
                ),
            ),
        }
    }
}

/// `zombie name = (health, attack)`
pub open spec fn zombie_spec(toks: Seq<TokenView>, st: PState) -> Parsed {
    let p = st.pos;
    if let Some(e) = expect(toks, p, TokenType::Zombie) {
        Err(e)
    } else if let Some(e) = expect(toks, p + 1, TokenType::Identifier) {
        Err(e)
    } else if let Some(e) = expect(toks, p + 2, TokenType::Equals) {
        Err(e)
    } else if let Some(e) = expect(toks, p + 3, TokenType::OParen) {
        Err(e)
    } else if let Some(e) = expect(toks, p + 4, TokenType::Integer) {
        Err(e)
    } else if parse_i32_spec(toks[p + 4].1) is None {
        Err(
            ParseErrorView::BadNumber {
                number: Number::ZombieHealth,
                name: toks[p + 1].1,
                fault: i32_fault(toks[p + 4].1),
            },
        )
    } else if let Some(e) = expect(toks, p + 5, TokenType::Comma) {
        Err(e)
    } else if let Some(e) = expect(toks, p + 6, TokenType::Integer) {
        Err(e)
    } else if parse_u32_spec(toks[p + 6].1) is None {
        Err(
            ParseErrorView::BadNumber {
                number: Number::ZombieAttack,
                name: toks[p + 1].1,
                fault: u32_fault(toks[p + 6].1),
            },
        )
    } else if let Some(e) = expect(toks, p + 7, TokenType::CParen) {
        Err(e)
    } else {
        match st.fresh() {
            None => Err(ParseErrorView::TooManyIds),
            Some(id) => Ok(
                (
                    NodeView::Zombie {
                        id,
                        name: toks[p + 1].1,
                        health: parse_i32_spec(toks[p + 4].1)->Some_0,
                        attack: parse_u32_spec(toks[p + 6].1)->Some_0,
                    },
                    st.bound(p + 8, toks[p + 1].1),
                ),
            ),
        }
    }
}

/// The error, if any, of `keyword name = ()` at the position of `st`.
pub open spec fn plain_declaration(toks: Seq<TokenView>, st: PState, keyword: TokenType) -> Option<
    ParseErrorView,
> {
    let p = st.pos;
    if let Some(e) = expect(toks, p, keyword) {
        Some(e)
    } else if let Some(e) = expect(toks, p + 1, TokenType::Identifier) {
        Some(e)
    } else if let Some(e) = expect(toks, p + 2, TokenType::Equals) {
        Some(e)
    } else if let Some(e) = expect(toks, p + 3, TokenType::OParen) {
        Some(e)
    } else if let Some(e) = expect(toks, p + 4, TokenType::CParen) {
        Some(e)
    } else if st.fresh() is None {
        Some(ParseErrorView::TooManyIds)
    } else {
        None
    }
}

/// `merchant name = ()`
pub open spec fn merchant_spec(toks: Seq<TokenView>, st: PState) -> Parsed {
    let p = st.pos;
    match plain_declaration(toks, st, TokenType::Merchant) {
        Some(e) => Err(e),
        None => Ok(
            (
                NodeView::Merchant { id: st.fresh()->Some_0, name: toks[p + 1].1 },
                st.bound(p + 5, toks[p + 1].1),
            ),
        ),
    }
}

/// `spellbook name = ()`
pub open spec fn spellbook_spec(toks: Seq<TokenView>, st: PState) -> Parsed {
    let p = st.pos;
    match plain_declaration(toks, st, TokenType::SpellBook) {
        Some(e) => Err(e),
        None => Ok(
            (
                NodeView::SpellBook { id: st.fresh()->Some_0, name: toks[p + 1].1 },
                st.bound(p + 5, toks[p + 1].1),
            ),
        ),
    }
}

/// `potion name = (value)`
pub open spec fn potion_spec(toks: Seq<TokenView>, st: PState) -> Parsed {
    let p = st.pos;
    if let Some(e) = expect(toks, p, TokenType::Potion) {
        Err(e)
    } else if let Some(e) = expect(toks, p + 1, TokenType::Identifier) {
        Err(e)
    } else if let Some(e) = expect(toks, p + 2, TokenType::Equals) {
        Err(e)
    } else if let Some(e) = expect(toks, p + 3, TokenType::OParen) {
        Err(e)
    } else if let Some(e) = expect(toks, p + 4, TokenType::Integer) {
        Err(e)
    } else if parse_u32_spec(toks[p + 4].1) is None {
        Err(
            ParseErrorView::BadNumber {
                number: Number::PotionValue,
                name: toks[p + 1].1,
                fault: u32_fault(toks[p + 4].1),
            },
        )
    } else if let Some(e) = expect(toks, p + 5, TokenType::CParen) {
        Err(e)
    } else {
        match st.fresh() {
            None => Err(ParseErrorView::TooManyIds),
            Some(id) => Ok(
                (
                    NodeView::Potion {
                        id,
                        name: toks[p + 1].1,
                        value: parse_u32_spec(toks[p + 4].1)->Some_0,
                    },
                    st.bound(p + 6, toks[p + 1].1),
                ),
            ),
        }
    }
}

/// `buys item from merchant`, after the name `user`.
pub open spec fn buys_spec(toks: Seq<TokenView>, st: PState, user: Seq<char>) -> Parsed {
    let p = st.pos;
    if let Some(e) = expect(toks, p, TokenType::FnBuys) {
        Err(e)
    } else if let Some(e) = expect(toks, p + 1, TokenType::Identifier) {
        Err(e)
    } else if let Some(e) = expect(toks, p + 2, TokenType::From) {
        Err(e)
    } else if let Some(e) = expect(toks, p + 3, TokenType::Identifier) {
        Err(e)
    } else {
        match lookup(st.ids, user) {
            None => Err(unbound(user, Role::Character)),
            Some(u) => match lookup(st.ids, toks[p + 1].1) {
                None => Err(unbound(toks[p + 1].1, Role::Item)),
                Some(i) => match lookup(st.ids, toks[p + 3].1) {
                    None => Err(unbound(toks[p + 3].1, Role::Merchant)),
                    Some(m) => match st.fresh() {
                        None => Err(ParseErrorView::TooManyIds),
                        Some(id) => Ok(
                            (
                                NodeView::FnBuys { id, user: u, item: i, merchant: m },
                                st.issued(p + 4),
                            ),
                        ),
                    },
                },
            },
        }
    }
}

/// `attacks name`, after the name `attacker`.
pub open spec fn attacks_spec(toks: Seq<TokenView>, st: PState, attacker: Seq<char>) -> Parsed {
    let p = st.pos;
    if let Some(e) = expect(toks, p, TokenType::FnAttacks) {
        Err(e)
    } else if let Some(e) = expect(toks, p + 1, TokenType::Identifier) {
        Err(e)
    } else {
        match lookup(st.ids, attacker) {
            None => Err(unbound(attacker, Role::Character)),
            Some(a) => match lookup(st.ids, toks[p + 1].1) {
                None => Err(unbound(toks[p + 1].1, Role::Character)),
                Some(b) => match st.fresh() {
                    None => Err(ParseErrorView::TooManyIds),
                    Some(id) => Ok(
                        (NodeView::FnAttacks { id, attacked: b, attacker: a }, st.issued(p + 2)),
                    ),
                },
            },
        }
    }
}

/// Whether `name casting speak` stands at `pos`, as far as the two
/// tokens behind the name show it.
pub open spec fn speaks(toks: Seq<TokenView>, pos: int) -> bool {
    holds(toks, pos + 1, TokenType::FnCasting) && holds(toks, pos + 2, TokenType::SbFnSpeak)
}

/// The error, if any, of `spellbook casting speak()` at `pos`, and the
/// identifier of the spellbook.
pub open spec fn speak_spec(toks: Seq<TokenView>, st: PState, pos: int) -> Result<
    usize,
    ParseErrorView,
> {
    if let Some(e) = expect(toks, pos, TokenType::Identifier) {
        Err(e)
    } else {
        match lookup(st.ids, toks[pos].1) {
            None => Err(unbound(toks[pos].1, Role::Spellbook)),
            Some(sb) => if let Some(e) = expect(toks, pos + 3, TokenType::OParen) {
                Err(e)
            } else if let Some(e) = expect(toks, pos + 4, TokenType::CParen) {
                Err(e)
            } else if st.fresh() is None {
                Err(ParseErrorView::TooManyIds)
            } else {
                Ok(sb)
            },
        }
    }
}

/// `shouts`, alone or with `spellbook casting speak()`, after the name
/// `user`.
pub open spec fn shouts_spec(toks: Seq<TokenView>, st: PState, user: Seq<char>) -> Parsed {
    let p = st.pos;
    if let Some(e) = expect(toks, p, TokenType::FnShouts) {
        Err(e)
    } else {
        match lookup(st.ids, user) {
            None => Err(unbound(user, Role::Character)),
            Some(u) => if speaks(toks, p + 1) {
                match speak_spec(toks, st, p + 1) {
                    Err(e) => Err(e),
                    Ok(sb) => Ok(
                        (
                            NodeView::FnShoutsSpeak {
                                id: st.fresh()->Some_0,
                                user: u,
                                spell_book: sb,
                            },
                            st.issued(p + 6),
                        ),
                    ),
                }
            } else {
                match st.fresh() {
                    None => Err(ParseErrorView::TooManyIds),
                    Some(id) => Ok((NodeView::FnShouts { id, user: u }, st.issued(p + 1))),
                }
            },
        }
    }
}

/// `whispers`, alone or with `spellbook casting speak()`, after the name
/// `user`.
pub open spec fn whispers_spec(toks: Seq<TokenView>, st: PState, user: Seq<char>) -> Parsed {
    let p = st.pos;
    if let Some(e) = expect(toks, p, TokenType::FnWhispers) {
        Err(e)
    } else {
        match lookup(st.ids, user) {
            None => Err(unbound(user, Role::Character)),
            Some(u) => if speaks(toks, p + 1) {
                match speak_spec(toks, st, p + 1) {
                    Err(e) => Err(e),
                    Ok(sb) => Ok(
                        (
                            NodeView::FnWhispersSpeak {
                                id: st.fresh()->Some_0,
                                user: u,
                                spell_book: sb,
                            },
                            st.issued(p + 6),
                        ),
                    ),
                }
            } else {
                match st.fresh() {
                    None => Err(ParseErrorView::TooManyIds),
                    Some(id) => Ok((NodeView::FnWhispers { id, user: u }, st.issued(p + 1))),
                }
            },
        }
    }
}

/// A cast of the spell `function`, without a body.
pub open spec fn cast(
    st: PState,
    pos: int,
    user: usize,
    sb: usize,
    function: SBFunction,
    parameter: Option<usize>,
) -> Parsed {
    match st.fresh() {
        None => Err(ParseErrorView::TooManyIds),
        Some(id) => Ok(
            (
                NodeView::FnUsesCasting {
                    id,
                    user,
                    spell_book: sb,
                    function,
                    parameter,
                    body: None,
                },
                st.issued(pos),
            ),
        ),
    }
}

/// A spell without an argument: `keyword()`.
pub open spec fn spell_plain_spec(
    toks: Seq<TokenView>,
    st: PState,
    user: usize,
    sb: usize,
    keyword: TokenType,
    function: SBFunction,
) -> Parsed {
    let p = st.pos;
    if let Some(e) = expect(toks, p, keyword) {
        Err(e)
    } else if let Some(e) = expect(toks, p + 1, TokenType::OParen) {
        Err(e)
    } else if let Some(e) = expect(toks, p + 2, TokenType::CParen) {
        Err(e)
    } else {
        cast(st, p + 3, user, sb, function, None)
    }
}

/// A spell whose name is looked up before its bracket closes:
/// `keyword(name)`.
pub open spec fn spell_early_spec(
    toks: Seq<TokenView>,
    st: PState,
    user: usize,
    sb: usize,
    keyword: TokenType,
    function: SBFunction,
    role: Role,
) -> Parsed {
    let p = st.pos;
    if let Some(e) = expect(toks, p, keyword) {
        Err(e)
    } else if let Some(e) = expect(toks, p + 1, TokenType::OParen) {
        Err(e)
    } else if let Some(e) = expect(toks, p + 2, TokenType::Identifier) {
        Err(e)
    } else {
        match lookup(st.ids, toks[p + 2].1) {
            None => Err(unbound(toks[p + 2].1, role)),
            Some(target) => if let Some(e) = expect(toks, p + 3, TokenType::CParen) {
                Err(e)
            } else {
                cast(st, p + 4, user, sb, function, Some(target))
            },
        }
    }
}

/// The error, if any, of `keyword(name)` at the position of `st`, and the
/// identifier of the name, which is looked up after the bracket closes.
pub open spec fn spell_late_target(toks: Seq<TokenView>, st: PState, keyword: TokenType, role: Role)
    -> Result<usize, ParseErrorView> {
    let p = st.pos;
    if let Some(e) = expect(toks, p, keyword) {
        Err(e)
    } else if let Some(e) = expect(toks, p + 1, TokenType::OParen) {
        Err(e)
    } else if let Some(e) = expect(toks, p + 2, TokenType::Identifier) {
        Err(e)
    } else if let Some(e) = expect(toks, p + 3, TokenType::CParen) {
        Err(e)
    } else {
        match lookup(st.ids, toks[p + 2].1) {
            None => Err(unbound(toks[p + 2].1, role)),
            Some(target) => Ok(target),
        }
    }
}

/// `confuse(name)`
pub open spec fn confuse_spec(toks: Seq<TokenView>, st: PState, user: usize, sb: usize) -> Parsed {
    match spell_late_target(toks, st, TokenType::SbFnConfuse, Role::CharacterOrZombie) {
        Err(e) => Err(e),
        Ok(target) => cast(st, st.pos + 4, user, sb, SBFunction::Confuse, Some(target)),
    }
}

/// `time_warp(name)`, the statements of its body, and `end`. The body may
/// declare names; they stay bound after it.
pub open spec fn time_warp_spec(toks: Seq<TokenView>, st: PState, user: usize, sb: usize) -> Parsed
    decreases toks.len() - st.pos, 0int,
{
    match spell_late_target(toks, st, TokenType::SbFnTimeWarp, Role::Character) {
        Err(e) => Err(e),
        Ok(target) => match body_spec(toks, st.at(st.pos + 4)) {
            Err(e) => Err(e),
            Ok((body, after)) => if after.last_id >= usize::MAX - 1 {
                Err(ParseErrorView::TooManyIds)
            } else {
                Ok(
                    (
                        NodeView::FnUsesCasting {
                            id: (after.last_id + 1) as usize,
                            user,
                            spell_book: sb,
                            function: SBFunction::TimeWarp,
                            parameter: Some(target),
                            body: Some(((after.last_id + 2) as usize, body)),
                        },
                        PState {
                            pos: after.pos + 1,
                            ids: after.ids,
                            last_id: (after.last_id + 2) as usize,
                        },
                    ),
                )
            },
        },
    }
}

/// The statements up to the next `end`, which is left in place. (A
/// statement always ends behind its start and inside the tokens, so the
/// inner test always holds.)
pub open spec fn body_spec(toks: Seq<TokenView>, st: PState) -> ParsedRun
    decreases toks.len() - st.pos, 4int,
{
    if st.pos < 0 || st.pos >= toks.len() {
        Err(ParseErrorView::MissingEnd)
    } else if toks[st.pos].0 == TokenType::End {
        Ok((Seq::empty(), st))
    } else {
        match statement_spec(toks, st) {
            Err(e) => Err(e),
            Ok((node, next)) => if st.pos < next.pos <= toks.len() {
                match body_spec(toks, next) {
                    Err(e) => Err(e),
                    Ok((more, after)) => Ok((seq![node] + more, after)),
                }
            } else {
                Err(ParseErrorView::MissingEnd)
            },
        }
    }
}

/// `uses item`, alone or with `casting` and a spell, after the name
/// `user`.
pub open spec fn uses_spec(toks: Seq<TokenView>, st: PState, user: Seq<char>) -> Parsed
    decreases toks.len() - st.pos, 1int,
{
    let p = st.pos;
    if let Some(e) = expect(toks, p, TokenType::FnUses) {
        Err(e)
    } else {
        match lookup(st.ids, user) {
            None => Err(unbound(user, Role::Character)),
            Some(u) => if let Some(e) = expect(toks, p + 1, TokenType::Identifier) {
                Err(e)
            } else {
                match lookup(st.ids, toks[p + 1].1) {
                    None => Err(unbound(toks[p + 1].1, Role::ItemOrSpellbook)),
                    Some(it) => if holds(toks, p + 2, TokenType::FnCasting) {
                        if p + 3 >= toks.len() {
                            Err(ParseErrorView::MissingSpell)
                        } else {
                            let at = st.at(p + 3);
                            match toks[p + 3].0 {
                                TokenType::SbFnUnZombify => spell_early_spec(
                                    toks,
                                    at,
                                    u,
                                    it,
                                    TokenType::SbFnUnZombify,
                                    SBFunction::UnZombify,
                                    Role::Zombie,
                                ),
                                TokenType::SbFnConfuse => confuse_spec(toks, at, u, it),
                                TokenType::SbFnGodSpeech => spell_plain_spec(
                                    toks,
                                    at,
                                    u,
                                    it,
                                    TokenType::SbFnGodSpeech,
                                    SBFunction::GodSpeech,
                                ),
                                TokenType::SbFnTimeWarp => time_warp_spec(toks, at, u, it),
                                TokenType::SbFnShift => spell_plain_spec(
                                    toks,
                                    at,
                                    u,
                                    it,
                                    TokenType::SbFnShift,
                                    SBFunction::Shift,
                                ),
                                TokenType::SbFnCreatePotion => spell_early_spec(
                                    toks,
                                    at,
                                    u,
                                    it,
                                    TokenType::SbFnCreatePotion,
                                    SBFunction::CreatePot,
                                    Role::Potion,
                                ),
                                other => Err(ParseErrorView::BadSpell { found: other }),
                            }
                        }
                    } else {
                        match st.fresh() {
                            None => Err(ParseErrorView::TooManyIds),
                            Some(id) => Ok(
                                (NodeView::FnUses { id, user: u, item: it }, st.issued(p + 2)),
                            ),
                        }
                    },
                }
            },
        }
    }
}

/// A statement that starts with a name: the name and an action.
pub open spec fn identifier_spec(toks: Seq<TokenView>, st: PState) -> Parsed
    decreases toks.len() - st.pos, 2int,
{
    let p = st.pos;
    if let Some(e) = expect(toks, p, TokenType::Identifier) {
        Err(e)
    } else if p + 1 >= toks.len() {
        Err(ParseErrorView::MissingAction { name: toks[p].1 })
    } else {
        let name = toks[p].1;
        let after = st.at(p + 1);
        match toks[p + 1].0 {
            TokenType::FnBuys => buys_spec(toks, after, name),
            TokenType::FnAttacks => attacks_spec(toks, after, name),
            TokenType::FnShouts => shouts_spec(toks, after, name),
            TokenType::FnWhispers => whispers_spec(toks, after, name),
            TokenType::FnUses => uses_spec(toks, after, name),
            TokenType::FnCasting => Err(ParseErrorView::CastingAlone),
            other => Err(ParseErrorView::BadAction { name, found: other }),
        }
    }
}

/// The statement at the position of `st`. It is chosen by the kind of the
/// token that stands there: one of the five keywords starts a declaration,
/// a name starts an action.
pub open spec fn statement_spec(toks: Seq<TokenView>, st: PState) -> Parsed
    decreases toks.len() - st.pos, 3int,
{
    if st.pos < 0 || st.pos >= toks.len() {
        Err(ParseErrorView::MissingEnd)
    } else {
        match toks[st.pos].0 {
            TokenType::Char => char_spec(toks, st),
            TokenType::Zombie => zombie_spec(toks, st),
            TokenType::Merchant => merchant_spec(toks, st),
            TokenType::Potion => potion_spec(toks, st),
            TokenType::SpellBook => spellbook_spec(toks, st),
            TokenType::Identifier => identifier_spec(toks, st),
            other => Err(ParseErrorView::BadStatementStart { found: other }),
        }
    }
}

/// The statements from the position of `st` to the end of the tokens. (A
/// statement always ends behind its start and inside the tokens, so the
/// inner test always holds.)
pub open spec fn script_spec(toks: Seq<TokenView>, st: PState) -> ParsedRun
    decreases toks.len() - st.pos,
{
    if st.pos < 0 || st.pos >= toks.len() {
        Ok((Seq::empty(), st))
    } else {
        match statement_spec(toks, st) {
            Err(e) => Err(e),
            Ok((node, next)) => if st.pos < next.pos <= toks.len() {
                match script_spec(toks, next) {
                    Err(e) => Err(e),
                    Ok((more, after)) => Ok((seq![node] + more, after)),
                }
            } else {
                Err(ParseErrorView::MissingEnd)
            },
        }
    }
}

/// Whether the result `r` and the state `end` are what `want` says.
pub open spec fn agrees(r: Result<Node, ParseError>, end: PState, want: Parsed) -> bool {
    match want {
        Ok((v, st)) => r is Ok && node_view(r->Ok_0) == v && end == st,
        Err(e) => r is Err && r->Err_0@ == e,
    }
}

/// `done`, followed by what `rest` gives.
pub open spec fn continued(done: Seq<NodeView>, rest: ParsedRun) -> ParsedRun {
    match rest {
        Ok((more, after)) => Ok((done + more, after)),
        Err(e) => Err(e),
    }
}

/// The names bound so far as mathematical values.
pub open spec fn id_views(ids: Seq<(String, usize)>) -> Seq<(Seq<char>, usize)> {
    ids.map_values(|p: (String, usize)| (p.0@, p.1))
}

/// Reads statements off a sequence of tokens and binds their names.
pub struct Parser {
    tokens: Vec<Token>,
    /// The position of the next token.
    pos: usize,
    /// The names bound so far, each with its identifier.
    ids: Vec<(String, usize)>,
    /// The last identifier given out; zero while none was.
    last_id: usize,
}

impl Parser {
    /// The tokens that this parser reads.
    pub closed spec fn tokens(&self) -> Seq<TokenView> {
        token_views(self.tokens@)
    }

    /// Where this parser stands.
    pub closed spec fn state(&self) -> PState {
        PState { pos: self.pos as int, ids: id_views(self.ids@), last_id: self.last_id }
    }

    /// The position is inside the tokens or at their end.
    pub open spec fn wf(&self) -> bool {
        0 <= self.state().pos <= self.tokens().len()
    }

    /// This parser has read on from `before` with the result `r`, as `want`
    /// says, and a statement that was read is not empty. After a failure
    /// every name that was bound before is bound as it was, and no
    /// identifier was taken back; statements of a body that were read
    /// before the failure may have bound further names.
    pub open spec fn parsed_as(self, before: Parser, r: Result<Node, ParseError>, want: Parsed)
        -> bool {
        &&& self.wf()
        &&& self.tokens() == before.tokens()
        &&& agrees(r, self.state(), want)
        &&& r is Ok ==> before.state().pos < self.state().pos
        &&& r is Err ==> extends(before.state(), self.state())
    }

    /// The same for a statement without a body: after a failure the names
    /// bound and the last identifier given out are what they were before.
    pub open spec fn parsed_simply(
        self,
        before: Parser,
        r: Result<Node, ParseError>,
        want: Parsed,
    ) -> bool {
        &&& self.parsed_as(before, r, want)
        &&& r is Err ==> same_bindings(before.state(), self.state())
    }

    /// A parser at the start of the tokens in `tokens`, with no name bound.
    /// The tokens go over to the parser; none is left in `tokens`.
    pub fn new(tokens: &mut Vec<Token>) -> (r: Self)
        ensures
            r.wf(),
            r.tokens() == token_views(old(tokens)@),
            r.state() == (PState { pos: 0, ids: Seq::empty(), last_id: 0 }),
            final(tokens)@ == Seq::<Token>::empty(),
    {
        let mut taken: Vec<Token> = Vec::new();
        core::mem::swap(tokens, &mut taken);
        Self::starting_after(taken, 0)
    }

    /// A parser at the start of `tokens`, with no name bound, that gives out
    /// the identifiers after `last_id`.
    pub fn starting_after(tokens: Vec<Token>, last_id: usize) -> (r: Self)
        ensures
            r.wf(),
            r.tokens() == token_views(tokens@),
            r.state() == (PState { pos: 0, ids: Seq::empty(), last_id }),
    {
        let r = Self { tokens, pos: 0, ids: Vec::new(), last_id };
        assert(id_views(r.ids@) =~= Seq::empty());
        r
    }

    /// Whether `name` is bound.
    pub fn is_bound(&self, name: &str) -> (r: bool)
        ensures
            r == lookup(self.state().ids, name@) is Some,
    {
        let owned = String::from_str(name);
        match self.resolve(&owned, Role::Character) {
            Ok(_) => true,
            Err(_) => false,
        }
    }

    /// The last identifier that was given out; zero where none was.
    pub fn last_id(&self) -> (r: usize)
        ensures
            r == self.state().last_id,
    {
        self.last_id
    }

    /// Reads every statement up to the end of the tokens.
    pub fn parse(&mut self) -> (r: Result<Vec<Node>, ParseError>)
        requires
            old(self).wf(),
        ensures
            final(self).wf(),
            final(self).tokens() == old(self).tokens(),
            match script_spec(old(self).tokens(), old(self).state()) {
                Ok((views, st)) => r is Ok && nodes_view(r->Ok_0@) == views && final(self).state()
                    == st,
                Err(e) => r is Err && r->Err_0@ == e,
            },
            r is Err ==> extends(old(self).state(), final(self).state()),
    {
        let mut nodes: Vec<Node> = Vec::new();
        proof {
            lemma_extends_self(self.state());
        }
        let ghost toks = self.tokens();
        let ghost entry = self.state();
        proof {
            assert(Seq::<NodeView>::empty() + script_spec(toks, entry)->Ok_0.0 =~= script_spec(
                toks,
                entry,
            )->Ok_0.0);
        }
        while self.pos < self.tokens.len()
            invariant
                self.wf(),
                self.tokens() == toks,
                toks == old(self).tokens(),
                entry == old(self).state(),
                extends(entry, self.state()),
                script_spec(toks, entry) == continued(
                    nodes_view(nodes@),
                    script_spec(toks, self.state()),
                ),
            decreases self.tokens.len() - self.pos,
        {
            let ghost before = self.state();
            let ghost done = nodes@;
            let node = match self.parse_next_statement() {
                Ok(n) => n,
                Err(e) => {
                    proof {
                        lemma_extends_trans(entry, before, self.state());
                    }
                    return Err(e);
                },
            };
            nodes.push(node);
            proof {
                lemma_statement_advances(toks, before);
                lemma_extends_trans(entry, before, self.state());
                lemma_nodes_view_push(done, node);
                match script_spec(toks, self.state()) {
                    Ok((more, after)) => {
                        assert(nodes_view(done) + (seq![node_view(node)] + more) =~= nodes_view(
                            nodes@,
                        ) + more);
                    },
                    Err(e) => {},
                }
            }
        }
        proof {
            assert(nodes_view(nodes@) + Seq::<NodeView>::empty() =~= nodes_view(nodes@));
        }
        Ok(nodes)
    }

    /// Reads the statement at the next token.
    pub fn parse_next_statement(&mut self) -> (r: Result<Node, ParseError>)
        requires
            old(self).wf(),
        ensures
            final(self).parsed_as(
                *old(self),
                r,
                statement_spec(old(self).tokens(), old(self).state()),
            ),
        decreases old(self).tokens().len() - old(self).state().pos, 3int,
    {
        proof {
            lemma_extends_self(self.state());
        }
        match self.peek_type(0) {
            None => Err(ParseError::MissingEnd),
            Some(TokenType::Char) => self.parse_char(),
            Some(TokenType::Zombie) => self.parse_zombie(),
            Some(TokenType::Merchant) => self.parse_merchant(),
            Some(TokenType::Potion) => self.parse_potion(),
            Some(TokenType::SpellBook) => self.parse_spellbook(),
            Some(TokenType::Identifier) => self.parse_identifier(),
            Some(other) => Err(ParseError::BadStatementStart { found: other }),
        }
    }

    fn parse_char(&mut self) -> (r: Result<Node, ParseError>)
        requires
            old(self).wf(),
        ensures
            final(self).parsed_simply(*old(self), r, char_spec(old(self).tokens(), old(self).state())),
    {
        proof {
            lemma_extends_self(self.state());
        }
        self.consume(TokenType::Char)?;
        let name = self.consume(TokenType::Identifier)?.value;
        self.consume(TokenType::Equals)?;
        self.consume(TokenType::OParen)?;
        let health_text = self.consume(TokenType::Integer)?.value;
        let health: u32 = match parse_u32(health_text.as_str()) {
            Some(h) => h,
            None => {
                return Err(
                    ParseError::BadNumber {
                        number: Number::CharHealth,
                        name,
                        fault: find_u32_fault(health_text.as_str()),
                    },
                );
            },
        };
        self.consume(TokenType::Comma)?;
        let attack_text = self.consume(TokenType::Integer)?.value;
        let attack: u32 = match parse_u32(attack_text.as_str()) {
            Some(a) => a,
            None => {
                return Err(
                    ParseError::BadNumber {
                        number: Number::CharAttack,
                        name,
                        fault: find_u32_fault(attack_text.as_str()),
                    },
                );
            },
        };
        self.consume(TokenType::CParen)?;
        let id: usize = self.bind(&name)?;
        Ok(Node::Char(Char { id, name, health, attack }))
    }

    fn parse_zombie(&mut self) -> (r: Result<Node, ParseError>)
        requires
            old(self).wf(),
        ensures
            final(self).parsed_simply(
                *old(self),
                r,
                zombie_spec(old(self).tokens(), old(self).state()),
            ),
    {
        proof {
            lemma_extends_self(self.state());
        }
        self.consume(TokenType::Zombie)?;
        let name = self.consume(TokenType::Identifier)?.value;
        self.consume(TokenType::Equals)?;
        self.consume(TokenType::OParen)?;
        let health_text = self.consume(TokenType::Integer)?.value;
        let health: i32 = match parse_i32(health_text.as_str()) {
            Some(h) => h,
            None => {
                return Err(
                    ParseError::BadNumber {
                        number: Number::ZombieHealth,
                        name,
                        fault: find_i32_fault(health_text.as_str()),
                    },
                );
            },
        };
        self.consume(TokenType::Comma)?;
        let attack_text = self.consume(TokenType::Integer)?.value;
        let attack: u32 = match parse_u32(attack_text.as_str()) {
            Some(a) => a,
            None => {
                return Err(
                    ParseError::BadNumber {
                        number: Number::ZombieAttack,
                        name,
                        fault: find_u32_fault(attack_text.as_str()),
                    },
                );
            },
        };
        self.consume(TokenType::CParen)?;
        let id: usize = self.bind(&name)?;
        Ok(Node::Zombie(Zombie { id, name, health, attack }))
    }

    /// Reads `keyword name = ()` and binds the name.
    fn parse_plain_declaration(&mut self, keyword: TokenType) -> (r: Result<
        (usize, String),
        ParseError,
    >)
        requires
            old(self).wf(),
        ensures
            final(self).wf(),
            final(self).tokens() == old(self).tokens(),
            match plain_declaration(old(self).tokens(), old(self).state(), keyword) {
                Some(e) => r is Err && r->Err_0@ == e && same_bindings(
                    old(self).state(),
                    final(self).state(),
                ),
                None => r is Ok && r->Ok_0.0 == old(self).state().fresh()->Some_0 && r->Ok_0.1@
                    == old(self).tokens()[old(self).state().pos + 1].1 && final(self).state()
                    == old(self).state().bound(old(self).state().pos + 5, r->Ok_0.1@),
            },
    {
        self.consume(keyword)?;
        let name = self.consume(TokenType::Identifier)?.value;
        self.consume(TokenType::Equals)?;
        self.consume(TokenType::OParen)?;
        self.consume(TokenType::CParen)?;
        let id: usize = self.bind(&name)?;
        Ok((id, name))
    }

    fn parse_merchant(&mut self) -> (r: Result<Node, ParseError>)
        requires
            old(self).wf(),
        ensures
            final(self).parsed_simply(
                *old(self),
                r,
                merchant_spec(old(self).tokens(), old(self).state()),
            ),
    {
        proof {
            lemma_extends_self(self.state());
        }
        let (id, name) = self.parse_plain_declaration(TokenType::Merchant)?;
        Ok(Node::Merchant(Merchant { id, name }))
    }

    fn parse_spellbook(&mut self) -> (r: Result<Node, ParseError>)
        requires
            old(self).wf(),
        ensures
            final(self).parsed_simply(
                *old(self),
                r,
                spellbook_spec(old(self).tokens(), old(self).state()),
            ),
    {
        proof {
            lemma_extends_self(self.state());
        }
        let (id, name) = self.parse_plain_declaration(TokenType::SpellBook)?;
        Ok(Node::SpellBook(SpellBook { id, name }))
    }

    fn parse_potion(&mut self) -> (r: Result<Node, ParseError>)
        requires
            old(self).wf(),
        ensures
            final(self).parsed_simply(
                *old(self),
                r,
                potion_spec(old(self).tokens(), old(self).state()),
            ),
    {
        proof {
            lemma_extends_self(self.state());
        }
        self.consume(TokenType::Potion)?;
        let name = self.consume(TokenType::Identifier)?.value;
        self.consume(TokenType::Equals)?;
        self.consume(TokenType::OParen)?;
        let value_text = self.consume(TokenType::Integer)?.value;
        let value: u32 = match parse_u32(value_text.as_str()) {
            Some(v) => v,
            None => {
                return Err(
                    ParseError::BadNumber {
                        number: Number::PotionValue,
                        name,
                        fault: find_u32_fault(value_text.as_str()),
                    },
                );
            },
        };
        self.consume(TokenType::CParen)?;
        let id: usize = self.bind(&name)?;
        Ok(Node::Potion(Potion { id, name, value }))
    }

    /// Reads a statement that starts with a name.
    fn parse_identifier(&mut self) -> (r: Result<Node, ParseError>)
        requires
            old(self).wf(),
        ensures
            final(self).parsed_as(
                *old(self),
                r,
                identifier_spec(old(self).tokens(), old(self).state()),
            ),
        decreases old(self).tokens().len() - old(self).state().pos, 2int,
    {
        proof {
            lemma_extends_self(self.state());
        }
        let ident = self.consume(TokenType::Identifier)?;
        match self.peek_type(0) {
            None => Err(ParseError::MissingAction { name: ident.value }),
            Some(TokenType::FnBuys) => self.parse_fn_buys(&ident),
            Some(TokenType::FnAttacks) => self.parse_fn_attacks(&ident),
            Some(TokenType::FnShouts) => self.parse_fn_shouts(&ident),
            Some(TokenType::FnWhispers) => self.parse_fn_whispers(&ident),
            Some(TokenType::FnUses) => self.parse_fn_uses(&ident),
            Some(TokenType::FnCasting) => Err(ParseError::CastingAlone),
            Some(other) => Err(ParseError::BadAction { name: ident.value, found: other }),
        }
    }

    /// Reads `buys item from merchant`.
    fn parse_fn_buys(&mut self, ident: &Token) -> (r: Result<Node, ParseError>)
        requires
            old(self).wf(),
        ensures
            final(self).parsed_simply(
                *old(self),
                r,
                buys_spec(old(self).tokens(), old(self).state(), ident.value@),
            ),
    {
        proof {
            lemma_extends_self(self.state());
        }
        self.consume(TokenType::FnBuys)?;
        let item = self.consume(TokenType::Identifier)?.value;
        self.consume(TokenType::From)?;
        let merchant = self.consume(TokenType::Identifier)?.value;
        let user_id: usize = self.resolve(&ident.value, Role::Character)?;
        let item_id: usize = self.resolve(&item, Role::Item)?;
        let merchant_id: usize = self.resolve(&merchant, Role::Merchant)?;
        let id: usize = self.fresh_id()?;
        Ok(Node::FnBuys(FnBuys { id, user: user_id, item: item_id, merchant: merchant_id }))
    }

    /// Reads `attacks name`.
    fn parse_fn_attacks(&mut self, ident: &Token) -> (r: Result<Node, ParseError>)
        requires
            old(self).wf(),
        ensures
            final(self).parsed_simply(
                *old(self),
                r,
                attacks_spec(old(self).tokens(), old(self).state(), ident.value@),
            ),
    {
        proof {
            lemma_extends_self(self.state());
        }
        self.consume(TokenType::FnAttacks)?;
        let attacked = self.consume(TokenType::Identifier)?.value;
        let attacker_id: usize = self.resolve(&ident.value, Role::Character)?;
        let attacked_id: usize = self.resolve(&attacked, Role::Character)?;
        let id: usize = self.fresh_id()?;
        Ok(Node::FnAttacks(FnAttacks { id, attacked: attacked_id, attacker: attacker_id }))
    }

    /// Reads `uses item`, and the spell where one follows.
    fn parse_fn_uses(&mut self, ident: &Token) -> (r: Result<Node, ParseError>)
        requires
            old(self).wf(),
        ensures
            final(self).parsed_as(
                *old(self),
                r,
                uses_spec(old(self).tokens(), old(self).state(), ident.value@),
            ),
        decreases old(self).tokens().len() - old(self).state().pos, 1int,
    {
        proof {
            lemma_extends_self(self.state());
        }
        self.consume(TokenType::FnUses)?;
        let user_id: usize = self.resolve(&ident.value, Role::Character)?;
        let item_or_sb = self.consume(TokenType::Identifier)?.value;
        let item_or_sb_id: usize = self.resolve(&item_or_sb, Role::ItemOrSpellbook)?;
        let is_casting: bool = match self.peek(TokenType::FnCasting, 0) {
            Ok(b) => b,
            Err(_) => false,
        };
        if is_casting {
            self.consume(TokenType::FnCasting)?;
            return match self.peek_type(0) {
                None => Err(ParseError::MissingSpell),
                Some(TokenType::SbFnUnZombify) => self.parse_spell_un_zombify(
                    user_id,
                    item_or_sb_id,
                ),
                Some(TokenType::SbFnConfuse) => self.parse_spell_confuse(user_id, item_or_sb_id),
                Some(TokenType::SbFnGodSpeech) => self.parse_spell_god_speech(
                    user_id,
                    item_or_sb_id,
                ),
                Some(TokenType::SbFnTimeWarp) => self.parse_spell_time_warp(
                    user_id,
                    item_or_sb_id,
                ),
                Some(TokenType::SbFnShift) => self.parse_spell_shift(user_id, item_or_sb_id),
                Some(TokenType::SbFnCreatePotion) => self.parse_spell_pot(user_id, item_or_sb_id),
                Some(other) => Err(ParseError::BadSpell { found: other }),
            };
        }
        let id: usize = self.fresh_id()?;
        Ok(Node::FnUses(FnUses { id, user: user_id, item: item_or_sb_id }))
    }

    /// Reads a spell without an argument.
    fn parse_spell_plain(
        &mut self,
        user: usize,
        sb: usize,
        keyword: TokenType,
        function: SBFunction,
    ) -> (r: Result<Node, ParseError>)
        requires
            old(self).wf(),
        ensures
            final(self).parsed_simply(
                *old(self),
                r,
                spell_plain_spec(
                    old(self).tokens(),
                    old(self).state(),
                    user,
                    sb,
                    keyword,
                    function,
                ),
            ),
    {
        proof {
            lemma_extends_self(self.state());
        }
        self.consume(keyword)?;
        self.consume(TokenType::OParen)?;
        self.consume(TokenType::CParen)?;
        self.finish_cast(user, sb, function, None)
    }

    /// Reads a spell whose name is looked up before its bracket closes.
    fn parse_spell_early(
        &mut self,
        user: usize,
        sb: usize,
        keyword: TokenType,
        function: SBFunction,
        role: Role,
    ) -> (r: Result<Node, ParseError>)
        requires
            old(self).wf(),
        ensures
            final(self).parsed_simply(
                *old(self),
                r,
                spell_early_spec(
                    old(self).tokens(),
                    old(self).state(),
                    user,
                    sb,
                    keyword,
                    function,
                    role,
                ),
            ),
    {
        proof {
            lemma_extends_self(self.state());
        }
        self.consume(keyword)?;
        self.consume(TokenType::OParen)?;
        let name = self.consume(TokenType::Identifier)?.value;
        let target: usize = self.resolve(&name, role)?;
        self.consume(TokenType::CParen)?;
        self.finish_cast(user, sb, function, Some(target))
    }

    /// Reads `keyword(name)` and looks the name up after the bracket.
    fn parse_late_target(&mut self, keyword: TokenType, role: Role) -> (r: Result<
        usize,
        ParseError,
    >)
        requires
            old(self).wf(),
        ensures
            final(self).wf(),
            final(self).tokens() == old(self).tokens(),
            match spell_late_target(old(self).tokens(), old(self).state(), keyword, role) {
                Ok(target) => r is Ok && r->Ok_0 == target,
                Err(e) => r is Err && r->Err_0@ == e,
            },
            r is Ok ==> final(self).state() == old(self).state().at(old(self).state().pos + 4),
            r is Err ==> same_bindings(old(self).state(), final(self).state()),
    {
        self.consume(keyword)?;
        self.consume(TokenType::OParen)?;
        let name = self.consume(TokenType::Identifier)?.value;
        self.consume(TokenType::CParen)?;
        self.resolve(&name, role)
    }

    /// Gives the cast of a spell without a body its identifier.
    fn finish_cast(
        &mut self,
        user: usize,
        sb: usize,
        function: SBFunction,
        parameter: Option<usize>,
    ) -> (r: Result<Node, ParseError>)
        requires
            old(self).wf(),
        ensures
            final(self).wf(),
            final(self).tokens() == old(self).tokens(),
            agrees(
                r,
                final(self).state(),
                cast(old(self).state(), old(self).state().pos, user, sb, function, parameter),
            ),
            r is Err ==> same_bindings(old(self).state(), final(self).state()),
    {
        let id: usize = self.fresh_id()?;
        Ok(
            Node::FnUsesCasting(
                FnUsesCasting { id, user, spell_book: sb, function, parameter, body: None },
            ),
        )
    }

    fn parse_spell_pot(&mut self, user: usize, sb: usize) -> (r: Result<Node, ParseError>)
        requires
            old(self).wf(),
        ensures
            final(self).parsed_simply(
                *old(self),
                r,
                spell_early_spec(
                    old(self).tokens(),
                    old(self).state(),
                    user,
                    sb,
                    TokenType::SbFnCreatePotion,
                    SBFunction::CreatePot,
                    Role::Potion,
                ),
            ),
    {
        proof {
            lemma_extends_self(self.state());
        }
        self.parse_spell_early(
            user,
            sb,
            TokenType::SbFnCreatePotion,
            SBFunction::CreatePot,
            Role::Potion,
        )
    }

    fn parse_spell_shift(&mut self, user: usize, sb: usize) -> (r: Result<Node, ParseError>)
        requires
            old(self).wf(),
        ensures
            final(self).parsed_simply(
                *old(self),
                r,
                spell_plain_spec(
                    old(self).tokens(),
                    old(self).state(),
                    user,
                    sb,
                    TokenType::SbFnShift,
                    SBFunction::Shift,
                ),
            ),
    {
        proof {
            lemma_extends_self(self.state());
        }
        self.parse_spell_plain(user, sb, TokenType::SbFnShift, SBFunction::Shift)
    }

    fn parse_spell_un_zombify(&mut self, user: usize, sb: usize) -> (r: Result<Node, ParseError>)
        requires
            old(self).wf(),
        ensures
            final(self).parsed_simply(
                *old(self),
                r,
                spell_early_spec(
                    old(self).tokens(),
                    old(self).state(),
                    user,
                    sb,
                    TokenType::SbFnUnZombify,
                    SBFunction::UnZombify,
                    Role::Zombie,
                ),
            ),
    {
        proof {
            lemma_extends_self(self.state());
        }
        self.parse_spell_early(
            user,
            sb,
            TokenType::SbFnUnZombify,
            SBFunction::UnZombify,
            Role::Zombie,
        )
    }

    fn parse_spell_confuse(&mut self, user: usize, sb: usize) -> (r: Result<Node, ParseError>)
        requires
            old(self).wf(),
        ensures
            final(self).parsed_simply(
                *old(self),
                r,
                confuse_spec(old(self).tokens(), old(self).state(), user, sb),
            ),
    {
        proof {
            lemma_extends_self(self.state());
        }
        let target: usize = self.parse_late_target(
            TokenType::SbFnConfuse,
            Role::CharacterOrZombie,
        )?;
        self.finish_cast(user, sb, SBFunction::Confuse, Some(target))
    }

    fn parse_spell_god_speech(&mut self, user: usize, sb: usize) -> (r: Result<Node, ParseError>)
        requires
            old(self).wf(),
        ensures
            final(self).parsed_simply(
                *old(self),
                r,
                spell_plain_spec(
                    old(self).tokens(),
                    old(self).state(),
                    user,
                    sb,
                    TokenType::SbFnGodSpeech,
                    SBFunction::GodSpeech,
                ),
            ),
    {
        proof {
            lemma_extends_self(self.state());
        }
        self.parse_spell_plain(user, sb, TokenType::SbFnGodSpeech, SBFunction::GodSpeech)
    }

    /// Whether a statement of a body stands at the next token: `Ok(false)`
    /// at `end`, and an error at the end of the tokens.
    fn more_body(&self) -> (r: Result<bool, ParseError>)
        requires
            self.wf(),
        ensures
            match r {
                Ok(more) => self.state().pos < self.tokens().len() && more == (
                self.tokens()[self.state().pos].0 != TokenType::End),
                Err(e) => self.state().pos >= self.tokens().len() && e@
                    == ParseErrorView::MissingEnd,
            },
    {
        match self.peek(TokenType::End, 0) {
            Ok(is_end) => Ok(!is_end),
            Err(_) => Err(ParseError::MissingEnd),
        }
    }

    /// Reads `time_warp(name)`, the statements of its body, and `end`.
    fn parse_spell_time_warp(&mut self, user: usize, sb: usize) -> (r: Result<Node, ParseError>)
        requires
            old(self).wf(),
        ensures
            final(self).parsed_as(
                *old(self),
                r,
                time_warp_spec(old(self).tokens(), old(self).state(), user, sb),
            ),
        decreases old(self).tokens().len() - old(self).state().pos, 0int,
    {
        proof {
            lemma_extends_self(self.state());
        }
        let consumed_id: usize = self.parse_late_target(TokenType::SbFnTimeWarp, Role::Character)?;
        let ghost toks = self.tokens();
        let ghost entry = self.state();
        let mut body: Vec<Node> = Vec::new();
        let mut more: bool = self.more_body()?;
        proof {
            assert(Seq::<NodeView>::empty() + body_spec(toks, entry)->Ok_0.0 =~= body_spec(
                toks,
                entry,
            )->Ok_0.0);
        }
        while more
            invariant
                self.wf(),
                self.tokens() == toks,
                toks == old(self).tokens(),
                entry == old(self).state().at(old(self).state().pos + 4),
                spell_late_target(
                    toks,
                    old(self).state(),
                    TokenType::SbFnTimeWarp,
                    Role::Character,
                ) == Ok::<usize, ParseErrorView>(consumed_id),
                entry.pos <= self.state().pos,
                extends(old(self).state(), self.state()),
                self.state().pos < toks.len(),
                more == (toks[self.state().pos].0 != TokenType::End),
                body_spec(toks, entry) == continued(
                    nodes_view(body@),
                    body_spec(toks, self.state()),
                ),
            decreases toks.len() - self.state().pos,
        {
            let ghost done = body@;
            let ghost before = self.state();
            let node = match self.parse_next_statement() {
                Ok(n) => n,
                Err(e) => {
                    proof {
                        lemma_extends_trans(old(self).state(), before, self.state());
                    }
                    return Err(e);
                },
            };
            body.push(node);
            proof {
                lemma_statement_advances(toks, before);
                lemma_extends_trans(old(self).state(), before, self.state());
                lemma_nodes_view_push(done, node);
                match body_spec(toks, self.state()) {
                    Ok((rest, after)) => {
                        assert(nodes_view(done) + (seq![node_view(node)] + rest) =~= nodes_view(
                            body@,
                        ) + rest);
                    },
                    Err(e) => {},
                }
            }
            more = self.more_body()?;
        }
        proof {
            assert(nodes_view(body@) + Seq::<NodeView>::empty() =~= nodes_view(body@));
        }
        self.consume(TokenType::End)?;
        let id: usize = self.fresh_id()?;
        let body_id: usize = self.fresh_id()?;
        Ok(
            Node::FnUsesCasting(
                FnUsesCasting {
                    id,
                    user,
                    spell_book: sb,
                    function: SBFunction::TimeWarp,
                    parameter: Some(consumed_id),
                    body: Some(FnBody { id: body_id, body }),
                },
            ),
        )
    }

    /// Reads `spellbook casting speak()` and gives its statement an
    /// identifier.
    fn parse_speak(&mut self) -> (r: Result<(usize, usize), ParseError>)
        requires
            old(self).wf(),
            speaks(old(self).tokens(), old(self).state().pos),
        ensures
            final(self).wf(),
            final(self).tokens() == old(self).tokens(),
            match speak_spec(old(self).tokens(), old(self).state(), old(self).state().pos) {
                Err(e) => r is Err && r->Err_0@ == e && same_bindings(
                    old(self).state(),
                    final(self).state(),
                ),
                Ok(sb) => r == Ok::<(usize, usize), ParseError>(
                    (old(self).state().fresh()->Some_0, sb),
                ) && final(self).state() == old(self).state().issued(old(self).state().pos + 5),
            },
    {
        let spellbook = self.consume(TokenType::Identifier)?.value;
        let sb_id: usize = self.resolve(&spellbook, Role::Spellbook)?;
        self.consume(TokenType::FnCasting)?;
        self.consume(TokenType::SbFnSpeak)?;
        self.consume(TokenType::OParen)?;
        self.consume(TokenType::CParen)?;
        let id: usize = self.fresh_id()?;
        Ok((id, sb_id))
    }

    /// Whether `name casting speak` stands at the next token, as far as the
    /// two tokens behind the name show it.
    fn peek_speak(&self) -> (r: bool)
        requires
            self.wf(),
        ensures
            r == speaks(self.tokens(), self.state().pos),
    {
        match self.peek(TokenType::FnCasting, 1) {
            Ok(is_casting) => match self.peek(TokenType::SbFnSpeak, 2) {
                Ok(is_speak) => is_casting && is_speak,
                Err(_) => false,
            },
            Err(_) => false,
        }
    }

    /// Reads `shouts`, alone or with a spellbook that speaks.
    fn parse_fn_shouts(&mut self, ident: &Token) -> (r: Result<Node, ParseError>)
        requires
            old(self).wf(),
        ensures
            final(self).parsed_simply(
                *old(self),
                r,
                shouts_spec(old(self).tokens(), old(self).state(), ident.value@),
            ),
    {
        proof {
            lemma_extends_self(self.state());
        }
        self.consume(TokenType::FnShouts)?;
        let user_id: usize = self.resolve(&ident.value, Role::Character)?;
        if self.peek_speak() {
            let (id, sb_id) = self.parse_speak()?;
            return Ok(Node::FnShoutsSpeak(FnShoutsSpeak { id, user: user_id, spell_book: sb_id }));
        }
        let id: usize = self.fresh_id()?;
        Ok(Node::FnShouts(FnShouts { id, user: user_id }))
    }

    /// Reads `whispers`, alone or with a spellbook that speaks.
    fn parse_fn_whispers(&mut self, ident: &Token) -> (r: Result<Node, ParseError>)
        requires
            old(self).wf(),
        ensures
            final(self).parsed_simply(
                *old(self),
                r,
                whispers_spec(old(self).tokens(), old(self).state(), ident.value@),
            ),
    {
        proof {
            lemma_extends_self(self.state());
        }
        self.consume(TokenType::FnWhispers)?;
        let user_id: usize = self.resolve(&ident.value, Role::Character)?;
        if self.peek_speak() {
            let (id, sb_id) = self.parse_speak()?;
            return Ok(
                Node::FnWhispersSpeak(FnWhispersSpeak { id, user: user_id, spell_book: sb_id }),
            );
        }
        let id: usize = self.fresh_id()?;
        Ok(Node::FnWhispers(FnWhispers { id, user: user_id }))
    }

    /// Takes the next token, which has to be of kind `expected_type`.
    fn consume(&mut self, expected_type: TokenType) -> (r: Result<Token, ParseError>)
        requires
            old(self).wf(),
        ensures
            final(self).wf(),
            final(self).tokens() == old(self).tokens(),
            match expect(old(self).tokens(), old(self).state().pos, expected_type) {
                Some(e) => r is Err && r->Err_0@ == e && final(self).state() == old(self).state(),
                None => r is Ok && r->Ok_0@ == old(self).tokens()[old(self).state().pos]
                    && final(self).state() == old(self).state().at(old(self).state().pos + 1),
            },
    {
        if self.pos >= self.tokens.len() {
            return Err(ParseError::UnexpectedEnd { expected: expected_type });
        }
        let found: TokenType = self.tokens[self.pos].ttype;
        if found == expected_type {
            let token = Token::new(found, self.tokens[self.pos].value.clone());
            self.pos = self.pos + 1;
            Ok(token)
        } else {
            Err(ParseError::UnexpectedToken { expected: expected_type, found })
        }
    }

    /// The kind of the token `offset` places after the next one, if there
    /// is one.
    fn peek_type(&self, offset: usize) -> (r: Option<TokenType>)
        requires
            self.wf(),
        ensures
            r == if self.state().pos + offset < self.tokens().len() {
                Some(self.tokens()[self.state().pos + offset].0)
            } else {
                None
            },
    {
        if offset < self.tokens.len() - self.pos {
            Some(self.tokens[self.pos + offset].ttype)
        } else {
            None
        }
    }

    /// Whether the token `offset` places after the next one is of kind
    /// `expected_type`; an error where no token stands there.
    fn peek(&self, expected_type: TokenType, offset: usize) -> (r: Result<bool, String>)
        requires
            self.wf(),
        ensures
            match r {
                Ok(b) => b == holds(self.tokens(), self.state().pos + offset, expected_type)
                    && self.state().pos + offset < self.tokens().len(),
                Err(s) => self.state().pos + offset >= self.tokens().len() && s@
                    == "Incomplete syntax"@,
            },
    {
        match self.peek_type(offset) {
            Some(t) => Ok(t == expected_type),
            None => Err(String::from_str("Incomplete syntax")),
        }
    }

    /// The identifier that `name` is bound to.
    fn resolve(&self, name: &String, role: Role) -> (r: Result<usize, ParseError>)
        ensures
            match lookup(self.state().ids, name@) {
                Some(id) => r is Ok && r->Ok_0 == id,
                None => r is Err && r->Err_0@ == unbound(name@, role),
            },
    {
        let mut i: usize = 0;
        let ghost ids = id_views(self.ids@);
        assert(ids.skip(0) =~= ids);
        while i < self.ids.len()
            invariant
                i <= self.ids.len(),
                ids == id_views(self.ids@),
                lookup(ids, name@) == lookup(ids.skip(i as int), name@),
            decreases self.ids.len() - i,
        {
            if self.ids[i].0 == *name {
                return Ok(self.ids[i].1);
            }
            proof {
                assert(ids.skip(i as int).skip(1) =~= ids.skip(i + 1));
            }
            i += 1;
        }
        Err(ParseError::UnboundName { name: name.clone(), role })
    }

    /// Gives out the next identifier.
    fn fresh_id(&mut self) -> (r: Result<usize, ParseError>)
        requires
            old(self).wf(),
        ensures
            final(self).wf(),
            final(self).tokens() == old(self).tokens(),
            match old(self).state().fresh() {
                None => r is Err && r->Err_0@ == ParseErrorView::TooManyIds && final(self).state()
                    == old(self).state(),
                Some(id) => r == Ok::<usize, ParseError>(id)
                    && final(self).state() == old(self).state().issued(old(self).state().pos),
            },
    {
        match generate_uid(&mut self.last_id) {
            Some(id) => Ok(id),
            None => Err(ParseError::TooManyIds),
        }
    }

    /// Binds `name` to the next identifier.
    fn bind(&mut self, name: &String) -> (r: Result<usize, ParseError>)
        requires
            old(self).wf(),
        ensures
            final(self).wf(),
            final(self).tokens() == old(self).tokens(),
            match old(self).state().fresh() {
                None => r is Err && r->Err_0@ == ParseErrorView::TooManyIds && final(self).state()
                    == old(self).state(),
                Some(id) => r == Ok::<usize, ParseError>(id)
                    && final(self).state() == old(self).state().bound(
                    old(self).state().pos,
                    name@,
                ),
            },
    {
        let id: usize = self.fresh_id()?;
        let ghost before = self.ids@;
        self.ids.push((name.clone(), id));
        assert(id_views(self.ids@) =~= id_views(before).push((name@, id)));
        Ok(id)
    }
}

/// Whether two states hold the same names, bound to the same identifiers,
/// and gave out the same last identifier.
pub open spec fn same_bindings(a: PState, b: PState) -> bool {
    a.ids == b.ids && a.last_id == b.last_id
}

/// Every state may follow itself.
pub proof fn lemma_extends_self(st: PState)
    ensures
        extends(st, st),
{
    assert(st.ids.take(st.ids.len() as int) =~= st.ids);
}

/// Whether `after` may follow `before`: every name bound in `before` is
/// bound in `after` at the same place, and no identifier was taken back.
pub open spec fn extends(before: PState, after: PState) -> bool {
    &&& before.ids.len() <= after.ids.len()
    &&& after.ids.take(before.ids.len() as int) == before.ids
    &&& before.last_id <= after.last_id
}

/// What holds of a statement that was read from `st` on and of the state
/// `next` after it: it holds at least one token, its identifier is new and
/// not zero, and what was bound stays bound.
pub open spec fn advances(toks: Seq<TokenView>, st: PState, r: Parsed) -> bool {
    match r {
        Ok((node, next)) => {
            &&& 0 <= st.pos < next.pos <= toks.len()
            &&& extends(st, next)
            &&& st.last_id < node.id() <= next.last_id
        },
        Err(_) => true,
    }
}

/// The declaration at the position of `st`, if one of the five keywords
/// stands there.
pub open spec fn declaration_spec(toks: Seq<TokenView>, st: PState) -> Option<Parsed> {
    if st.pos < 0 || st.pos >= toks.len() {
        None
    } else {
        match toks[st.pos].0 {
            TokenType::Char => Some(char_spec(toks, st)),
            TokenType::Zombie => Some(zombie_spec(toks, st)),
            TokenType::Merchant => Some(merchant_spec(toks, st)),
            TokenType::Potion => Some(potion_spec(toks, st)),
            TokenType::SpellBook => Some(spellbook_spec(toks, st)),
            _ => None,
        }
    }
}

/// A name that is bound stays bound to the same identifier when more
/// names are bound after it.
pub proof fn lemma_lookup_persists(ids: Seq<(Seq<char>, usize)>, k: int, name: Seq<char>)
    requires
        0 <= k <= ids.len(),
        lookup(ids.take(k), name) is Some,
    ensures
        lookup(ids, name) == lookup(ids.take(k), name),
    decreases k,
{
    if k > 0 {
        if ids[0].0 != name {
            assert(ids.take(k).skip(1) =~= ids.skip(1).take(k - 1));
            lemma_lookup_persists(ids.skip(1), k - 1, name);
        }
    }
}

/// A name that is bound last is bound: to the identifier it had before
/// where it had one, and to the new one otherwise.
pub proof fn lemma_lookup_after_bind(ids: Seq<(Seq<char>, usize)>, name: Seq<char>, id: usize)
    ensures
        lookup(ids.push((name, id)), name) == match lookup(ids, name) {
            Some(first) => Some(first),
            None => Some(id),
        },
    decreases ids.len(),
{
    let all = ids.push((name, id));
    if ids.len() == 0 {
        assert(all.skip(1) =~= Seq::empty());
    } else {
        assert(all.skip(1) =~= ids.skip(1).push((name, id)));
        if ids[0].0 != name {
            lemma_lookup_after_bind(ids.skip(1), name, id);
        }
    }
}

/// A declaration that parses binds its name to a fresh identifier: the
/// identifier is one more than the last one given out, so it is not zero
/// and greater than every earlier one, and the name can be looked up
/// afterwards. Where the name was bound before, the first binding stays the
/// one that is found.
pub proof fn lemma_declaration_binds(toks: Seq<TokenView>, st: PState)
    requires
        declaration_spec(toks, st) is Some,
        declaration_spec(toks, st)->Some_0 is Ok,
    ensures
        ({
            let (node, next) = declaration_spec(toks, st)->Some_0->Ok_0;
            let name = toks[st.pos + 1].1;
            &&& statement_spec(toks, st) == declaration_spec(toks, st)->Some_0
            &&& node.is_declaration()
            &&& node.id() == st.last_id + 1
            &&& node.id() != 0
            &&& next.last_id == node.id()
            &&& next.ids == st.ids.push((name, node.id()))
            &&& lookup(next.ids, name) == match lookup(st.ids, name) {
                Some(first) => Some(first),
                None => Some(node.id()),
            }
            &&& advances(toks, st, Ok((node, next)))
        }),
{
    let (node, next) = declaration_spec(toks, st)->Some_0->Ok_0;
    let name = toks[st.pos + 1].1;
    lemma_lookup_after_bind(st.ids, name, node.id());
    assert(next.ids.take(st.ids.len() as int) =~= st.ids);
}

/// An action without a body adds no name: the state after it is the state
/// before it with one more identifier given out.
proof fn lemma_simple_action(toks: Seq<TokenView>, st: PState, from: PState, r: Parsed)
    requires
        0 <= from.pos < st.pos,
        from.ids == st.ids,
        from.last_id == st.last_id,
        r is Ok ==> r->Ok_0.1.ids == st.ids && r->Ok_0.1.last_id == st.last_id + 1 && st.pos
            <= r->Ok_0.1.pos <= toks.len() && r->Ok_0.0.id() == st.last_id + 1,
    ensures
        advances(toks, from, r),
{
    if r is Ok {
        assert(st.ids.take(st.ids.len() as int) =~= st.ids);
    }
}

/// What holds of the statements of a body that was read from `st` on and
/// of the state `after` it: `end` stands at the position of `after`, and
/// what was bound stays bound.
pub open spec fn body_advances(toks: Seq<TokenView>, st: PState, r: ParsedRun) -> bool {
    match r {
        Ok((nodes, after)) => {
            &&& 0 <= st.pos <= after.pos < toks.len()
            &&& toks[after.pos].0 == TokenType::End
            &&& extends(st, after)
        },
        Err(_) => true,
    }
}

/// `extends` goes on from state to state.
pub proof fn lemma_extends_trans(a: PState, b: PState, c: PState)
    requires
        extends(a, b),
        extends(b, c),
    ensures
        extends(a, c),
{
    assert(c.ids.take(a.ids.len() as int) =~= b.ids.take(a.ids.len() as int));
}

/// Every statement that parses holds at least one token, has a new
/// identifier that is not zero, and leaves bound what was bound.
pub proof fn lemma_statement_advances(toks: Seq<TokenView>, st: PState)
    ensures
        advances(toks, st, statement_spec(toks, st)),
    decreases toks.len() - st.pos, 3int,
{
    if 0 <= st.pos < toks.len() {
        if declaration_spec(toks, st) is Some {
            if declaration_spec(toks, st)->Some_0 is Ok {
                lemma_declaration_binds(toks, st);
            }
        } else if toks[st.pos].0 == TokenType::Identifier {
            lemma_identifier_advances(toks, st);
        }
    }
}

proof fn lemma_identifier_advances(toks: Seq<TokenView>, st: PState)
    ensures
        advances(toks, st, identifier_spec(toks, st)),
    decreases toks.len() - st.pos, 2int,
{
    let p = st.pos;
    if expect(toks, p, TokenType::Identifier) is None && p + 1 < toks.len() {
        let name = toks[p].1;
        let after = st.at(p + 1);
        match toks[p + 1].0 {
            TokenType::FnBuys => lemma_simple_action(toks, after, st, buys_spec(toks, after, name)),
            TokenType::FnAttacks => lemma_simple_action(
                toks,
                after,
                st,
                attacks_spec(toks, after, name),
            ),
            TokenType::FnShouts => lemma_simple_action(
                toks,
                after,
                st,
                shouts_spec(toks, after, name),
            ),
            TokenType::FnWhispers => lemma_simple_action(
                toks,
                after,
                st,
                whispers_spec(toks, after, name),
            ),
            TokenType::FnUses => lemma_uses_advances(toks, after, st, name),
            _ => {},
        }
    }
}

proof fn lemma_uses_advances(toks: Seq<TokenView>, st: PState, from: PState, user: Seq<char>)
    requires
        0 <= from.pos < st.pos,
        from.ids == st.ids,
        from.last_id == st.last_id,
    ensures
        advances(toks, from, uses_spec(toks, st, user)),
    decreases toks.len() - st.pos, 1int,
{
    let p = st.pos;
    let r = uses_spec(toks, st, user);
    if r is Ok {
        let u = lookup(st.ids, user)->Some_0;
        let it = lookup(st.ids, toks[p + 1].1)->Some_0;
        if holds(toks, p + 2, TokenType::FnCasting) {
            let at = st.at(p + 3);
            if toks[p + 3].0 == TokenType::SbFnTimeWarp {
                lemma_time_warp_advances(toks, at, from, u, it);
            } else {
                lemma_simple_action(toks, at, from, r);
            }
        } else {
            lemma_simple_action(toks, st, from, r);
        }
    }
}

proof fn lemma_time_warp_advances(
    toks: Seq<TokenView>,
    st: PState,
    from: PState,
    user: usize,
    sb: usize,
)
    requires
        0 <= from.pos < st.pos,
        from.ids == st.ids,
        from.last_id == st.last_id,
    ensures
        advances(toks, from, time_warp_spec(toks, st, user, sb)),
    decreases toks.len() - st.pos, 0int,
{
    if time_warp_spec(toks, st, user, sb) is Ok {
        let entry = st.at(st.pos + 4);
        lemma_body_advances(toks, entry);
        let after = body_spec(toks, entry)->Ok_0.1;
        assert(after.ids.take(from.ids.len() as int) =~= from.ids);
    }
}

/// The body of a `time_warp` that parses ends at an `end`, and leaves
/// bound what was bound.
pub proof fn lemma_body_advances(toks: Seq<TokenView>, st: PState)
    ensures
        body_advances(toks, st, body_spec(toks, st)),
    decreases toks.len() - st.pos, 4int,
{
    if 0 <= st.pos < toks.len() {
        if toks[st.pos].0 == TokenType::End {
            assert(st.ids.take(st.ids.len() as int) =~= st.ids);
        } else {
            lemma_statement_advances(toks, st);
            match statement_spec(toks, st) {
                Ok((node, next)) => {
                    lemma_body_advances(toks, next);
                    match body_spec(toks, next) {
                        Ok((more, after)) => {
                            lemma_extends_trans(st, next, after);
                        },
                        Err(_) => {},
                    }
                },
                Err(_) => {},
            }
        }
    }
}

/// The statements of a script that parses have identifiers that grow from
/// each to the next; none is zero, none comes twice, and all lie above the
/// last one given out before.
pub proof fn lemma_script_ids_increase(toks: Seq<TokenView>, st: PState)
    ensures
        match script_spec(toks, st) {
            Ok((nodes, end)) => {
                &&& extends(st, end)
                &&& forall|i: int| 0 <= i < nodes.len() ==> st.last_id < (#[trigger] nodes[i]).id()
                    <= end.last_id
                &&& forall|i: int, j: int|
                    0 <= i < j < nodes.len() ==> (#[trigger] nodes[i]).id() < (
                    #[trigger] nodes[j]).id()
            },
            Err(_) => true,
        },
    decreases toks.len() - st.pos,
{
    if 0 <= st.pos < toks.len() {
        lemma_statement_advances(toks, st);
        match statement_spec(toks, st) {
            Ok((node, next)) => {
                lemma_script_ids_increase(toks, next);
                match script_spec(toks, next) {
                    Ok((more, end)) => {
                        lemma_extends_trans(st, next, end);
                        let nodes = seq![node] + more;
                        assert forall|i: int| 0 <= i < nodes.len() implies st.last_id < (
                        #[trigger] nodes[i]).id() <= end.last_id by {
                            if i > 0 {
                                assert(nodes[i] == more[i - 1]);
                            }
                        }
                        assert forall|i: int, j: int| 0 <= i < j < nodes.len() implies (
                        #[trigger] nodes[i]).id() < (#[trigger] nodes[j]).id() by {
                            assert(nodes[j] == more[j - 1]);
                            if i > 0 {
                                assert(nodes[i] == more[i - 1]);
                            }
                        }
                    },
                    Err(_) => {},
                }
            },
            Err(_) => {},
        }
    } else {
        assert(st.ids.take(st.ids.len() as int) =~= st.ids);
    }
}

/// A name that a declaration has bound can be looked up by every later
/// statement of the script: it stays bound, to the same identifier, in
/// every state that follows.
pub proof fn lemma_bound_name_stays_resolvable(before: PState, after: PState, name: Seq<char>)
    requires
        extends(before, after),
        lookup(before.ids, name) is Some,
    ensures
        lookup(after.ids, name) == lookup(before.ids, name),
{
    lemma_lookup_persists(after.ids, before.ids.len() as int, name);
}

/// An action that names something that was never declared fails, and the
/// error names it: the actor of `shouts`, `whispers` and `uses`; the item
/// of `uses`; either side of `attacks`; the buyer, the item and the
/// merchant of `buys`. Where several names are unbound, the one that the
/// parser looks up first is named.
pub proof fn lemma_undeclared_name_is_reported(toks: Seq<TokenView>, st: PState)
    requires
        holds(toks, st.pos, TokenType::Identifier),
        st.pos + 1 < toks.len(),
    ensures
        ({
            let p = st.pos;
            let verb = toks[p + 1].0;
            let actor = toks[p].1;
            let second = toks[p + 2].1;
            let r = statement_spec(toks, st);
            &&& (verb == TokenType::FnShouts || verb == TokenType::FnWhispers || verb
                == TokenType::FnUses) && lookup(st.ids, actor) is None ==> r == Err::<
                (NodeView, PState),
                ParseErrorView,
            >(unbound(actor, Role::Character))
            &&& verb == TokenType::FnUses && lookup(st.ids, actor) is Some && holds(
                toks,
                p + 2,
                TokenType::Identifier,
            ) && lookup(st.ids, second) is None ==> r == Err::<(NodeView, PState), ParseErrorView>(
                unbound(second, Role::ItemOrSpellbook),
            )
            &&& verb == TokenType::FnAttacks && holds(toks, p + 2, TokenType::Identifier) ==> {
                &&& lookup(st.ids, actor) is None ==> r == Err::<
                    (NodeView, PState),
                    ParseErrorView,
                >(unbound(actor, Role::Character))
                &&& lookup(st.ids, actor) is Some && lookup(st.ids, second) is None ==> r == Err::<
                    (NodeView, PState),
                    ParseErrorView,
                >(unbound(second, Role::Character))
            }
            &&& verb == TokenType::FnBuys && holds(toks, p + 2, TokenType::Identifier) && holds(
                toks,
                p + 3,
                TokenType::From,
            ) && holds(toks, p + 4, TokenType::Identifier) ==> {
                &&& lookup(st.ids, actor) is None ==> r == Err::<
                    (NodeView, PState),
                    ParseErrorView,
                >(unbound(actor, Role::Character))
                &&& lookup(st.ids, actor) is Some && lookup(st.ids, second) is None ==> r == Err::<
                    (NodeView, PState),
                    ParseErrorView,
                >(unbound(second, Role::Item))
                &&& lookup(st.ids, actor) is Some && lookup(st.ids, second) is Some && lookup(
                    st.ids,
                    toks[p + 4].1,
                ) is None ==> r == Err::<(NodeView, PState), ParseErrorView>(
                    unbound(toks[p + 4].1, Role::Merchant),
                )
            }
        }),
{
}

/// Whether an error that says a name is unbound is true of the state `st`
/// and the tokens from its position on: the name is that of an identifier
/// among them, and it is not bound in `st`. Of every other error this
/// holds.
pub open spec fn truly_unbound(toks: Seq<TokenView>, st: PState, e: ParseErrorView) -> bool {
    match e {
        ParseErrorView::UnboundName { name, .. } => {
            &&& lookup(st.ids, name) is None
            &&& exists|i: int|
                st.pos <= i < toks.len() && #[trigger] toks[i] == (TokenType::Identifier, name)
        },
        _ => true,
    }
}

/// What is bound in neither of two states, of which one follows the
/// other, is not bound in the first.
proof fn lemma_unbound_before(
    toks: Seq<TokenView>,
    st: PState,
    next: PState,
    e: ParseErrorView,
)
    requires
        extends(st, next),
        st.pos <= next.pos,
        truly_unbound(toks, next, e),
    ensures
        truly_unbound(toks, st, e),
{
    match e {
        ParseErrorView::UnboundName { name, .. } => {
            if lookup(st.ids, name) is Some {
                lemma_lookup_persists(next.ids, st.ids.len() as int, name);
            }
        },
        _ => {},
    }
}

/// The error of a statement that says a name is unbound names an
/// identifier of the script that is not bound where the statement starts.
pub proof fn lemma_unbound_error_is_true(toks: Seq<TokenView>, st: PState)
    ensures
        statement_spec(toks, st) is Err ==> truly_unbound(
            toks,
            st,
            statement_spec(toks, st)->Err_0,
        ),
    decreases toks.len() - st.pos, 3int,
{
    let p = st.pos;
    if 0 <= p < toks.len() && toks[p].0 == TokenType::Identifier && p + 1 < toks.len() {
        let after = st.at(p + 1);
        if toks[p + 1].0 == TokenType::FnUses {
            lemma_uses_unbound_error_is_true(toks, after, st);
        }
    }
}

proof fn lemma_uses_unbound_error_is_true(toks: Seq<TokenView>, st: PState, from: PState)
    requires
        0 <= from.pos,
        from.pos + 1 == st.pos,
        st.pos < toks.len(),
        toks[from.pos].0 == TokenType::Identifier,
        from.ids == st.ids,
        from.last_id == st.last_id,
    ensures
        uses_spec(toks, st, toks[from.pos].1) is Err ==> truly_unbound(
            toks,
            from,
            uses_spec(toks, st, toks[from.pos].1)->Err_0,
        ),
    decreases toks.len() - st.pos, 1int,
{
    let p = st.pos;
    let user = toks[from.pos].1;
    let r = uses_spec(toks, st, user);
    if r is Err && lookup(st.ids, user) is Some && holds(toks, p + 1, TokenType::Identifier)
        && lookup(st.ids, toks[p + 1].1) is Some && holds(toks, p + 2, TokenType::FnCasting) && p
        + 3 < toks.len() && toks[p + 3].0 == TokenType::SbFnTimeWarp {
        let at = st.at(p + 3);
        let u = lookup(st.ids, user)->Some_0;
        let it = lookup(st.ids, toks[p + 1].1)->Some_0;
        if spell_late_target(toks, at, TokenType::SbFnTimeWarp, Role::Character) is Ok {
            let entry = at.at(at.pos + 4);
            lemma_body_unbound_error_is_true(toks, entry);
            if body_spec(toks, entry) is Err {
                assert(extends(from, entry)) by {
                    assert(entry.ids.take(from.ids.len() as int) =~= from.ids);
                }
                lemma_unbound_before(toks, from, entry, body_spec(toks, entry)->Err_0);
            }
        }
    }
}

proof fn lemma_body_unbound_error_is_true(toks: Seq<TokenView>, st: PState)
    ensures
        body_spec(toks, st) is Err ==> truly_unbound(toks, st, body_spec(toks, st)->Err_0),
    decreases toks.len() - st.pos, 4int,
{
    if 0 <= st.pos < toks.len() && toks[st.pos].0 != TokenType::End {
        lemma_unbound_error_is_true(toks, st);
        lemma_statement_advances(toks, st);
        match statement_spec(toks, st) {
            Ok((node, next)) => {
                lemma_body_unbound_error_is_true(toks, next);
                if body_spec(toks, next) is Err {
                    lemma_unbound_before(toks, st, next, body_spec(toks, next)->Err_0);
                }
            },
            Err(_) => {},
        }
    }
}

/// The error of a script that says a name is unbound names an identifier
/// of the script that was not declared before its use.
pub proof fn lemma_script_unbound_error_is_true(toks: Seq<TokenView>, st: PState)
    ensures
        script_spec(toks, st) is Err ==> truly_unbound(toks, st, script_spec(toks, st)->Err_0),
    decreases toks.len() - st.pos,
{
    if 0 <= st.pos < toks.len() {
        lemma_unbound_error_is_true(toks, st);
        lemma_statement_advances(toks, st);
        match statement_spec(toks, st) {
            Ok((node, next)) => {
                lemma_script_unbound_error_is_true(toks, next);
                if script_spec(toks, next) is Err {
                    lemma_unbound_before(toks, st, next, script_spec(toks, next)->Err_0);
                }
            },
            Err(_) => {},
        }
    }
}

/// Whether the identifiers of the one statement or of the statements that
/// were read from `st` on, nested ones and bodies included, are the
/// numbers after the last identifier of `st` up to the last identifier of
/// `next`, each once and in the order in which they were given out.
pub open spec fn ids_count_up(ids: Seq<int>, st: PState, next: PState) -> bool {
    st.last_id <= next.last_id && ids == count_up(st.last_id + 1, next.last_id - st.last_id)
}

/// Numbers that count up from one or more are not zero, and no two of them
/// are the same: a later one is greater.
pub proof fn lemma_counted_ids_differ(from: int, n: int, i: int, j: int)
    requires
        from >= 1,
        0 <= i < j < n,
    ensures
        count_up(from, n)[i] != 0,
        count_up(from, n)[j] != 0,
        count_up(from, n)[i] < count_up(from, n)[j],
{
}

/// Counting on from where a count has ended gives one count.
proof fn lemma_count_up_add(from: int, m: int, n: int)
    requires
        0 <= m,
        0 <= n,
    ensures
        count_up(from, m) + count_up(from + m, n) == count_up(from, m + n),
{
    assert(count_up(from, m) + count_up(from + m, n) =~= count_up(from, m + n));
}

/// The one identifier of an action without a body is the next one.
proof fn lemma_simple_ids(st: PState, r: Parsed)
    requires
        r is Ok ==> r->Ok_0.1.last_id == st.last_id + 1 && r->Ok_0.0.id() == st.last_id + 1 && !(
        r->Ok_0.0 is FnUsesCasting && r->Ok_0.0->body is Some),
    ensures
        r is Ok ==> ids_count_up(node_ids(r->Ok_0.0), st, r->Ok_0.1),
{
    if r is Ok {
        assert(node_ids(r->Ok_0.0) =~= count_up(st.last_id + 1, 1));
    }
}

/// The identifiers of a statement that parses, those of the statements of
/// its body and of the body itself included, are the numbers that follow
/// the last identifier given out before it, each once: the statements of a
/// body get theirs first, then the cast, then the body.
pub proof fn lemma_statement_ids_count_up(toks: Seq<TokenView>, st: PState)
    ensures
        statement_spec(toks, st) is Ok ==> ids_count_up(
            node_ids(statement_spec(toks, st)->Ok_0.0),
            st,
            statement_spec(toks, st)->Ok_0.1,
        ),
    decreases toks.len() - st.pos, 3int,
{
    let p = st.pos;
    if statement_spec(toks, st) is Ok {
        if declaration_spec(toks, st) is Some {
            lemma_declaration_binds(toks, st);
            lemma_simple_ids(st, statement_spec(toks, st));
        } else if p + 1 < toks.len() {
            let name = toks[p].1;
            let after = st.at(p + 1);
            if toks[p + 1].0 == TokenType::FnUses {
                lemma_uses_ids_count_up(toks, after, name);
            } else {
                lemma_simple_ids(st, statement_spec(toks, st));
            }
        }
    }
}

proof fn lemma_uses_ids_count_up(toks: Seq<TokenView>, st: PState, user: Seq<char>)
    requires
        0 < st.pos,
    ensures
        uses_spec(toks, st, user) is Ok ==> ids_count_up(
            node_ids(uses_spec(toks, st, user)->Ok_0.0),
            st,
            uses_spec(toks, st, user)->Ok_0.1,
        ),
    decreases toks.len() - st.pos, 1int,
{
    let p = st.pos;
    let r = uses_spec(toks, st, user);
    if r is Ok {
        let u = lookup(st.ids, user)->Some_0;
        let it = lookup(st.ids, toks[p + 1].1)->Some_0;
        if holds(toks, p + 2, TokenType::FnCasting) && toks[p + 3].0 == TokenType::SbFnTimeWarp {
            let at = st.at(p + 3);
            let entry = at.at(at.pos + 4);
            lemma_body_ids_count_up(toks, entry);
            lemma_body_advances(toks, entry);
            let (body, end) = body_spec(toks, entry)->Ok_0;
            let n = end.last_id - st.last_id;
            lemma_count_up_add(st.last_id + 1, n, 2);
            assert(seq![end.last_id + 1, end.last_id + 2] =~= count_up(st.last_id + 1 + n, 2));
        } else {
            lemma_simple_ids(st, r);
        }
    }
}

/// The identifiers of the statements of a body that parses are the numbers
/// that follow the last identifier given out before it, each once.
pub proof fn lemma_body_ids_count_up(toks: Seq<TokenView>, st: PState)
    ensures
        body_spec(toks, st) is Ok ==> ids_count_up(
            nodes_ids(body_spec(toks, st)->Ok_0.0),
            st,
            body_spec(toks, st)->Ok_0.1,
        ),
    decreases toks.len() - st.pos, 4int,
{
    if body_spec(toks, st) is Ok {
        if toks[st.pos].0 == TokenType::End {
            assert(nodes_ids(Seq::<NodeView>::empty()) =~= count_up(st.last_id + 1, 0));
        } else {
            lemma_statement_ids_count_up(toks, st);
            let (node, next) = statement_spec(toks, st)->Ok_0;
            lemma_body_ids_count_up(toks, next);
            let (more, after) = body_spec(toks, next)->Ok_0;
            let all = seq![node] + more;
            assert(all[0] == node);
            assert(all.skip(1) =~= more);
            lemma_count_up_add(
                st.last_id + 1,
                next.last_id - st.last_id,
                after.last_id - next.last_id,
            );
        }
    }
}

/// The identifiers of a script that parses, those of nested statements and
/// of bodies included, are the numbers that follow the last identifier
/// given out before it, each once and in the order of the script. From a
/// parser that starts at zero they count up from one: none is zero, no two
/// are the same, and a later declaration has a greater one.
pub proof fn lemma_script_ids_count_up(toks: Seq<TokenView>, st: PState)
    ensures
        script_spec(toks, st) is Ok ==> ids_count_up(
            nodes_ids(script_spec(toks, st)->Ok_0.0),
            st,
            script_spec(toks, st)->Ok_0.1,
        ),
    decreases toks.len() - st.pos,
{
    if script_spec(toks, st) is Ok {
        if 0 <= st.pos < toks.len() {
            lemma_statement_ids_count_up(toks, st);
            let (node, next) = statement_spec(toks, st)->Ok_0;
            lemma_script_ids_count_up(toks, next);
            let (more, after) = script_spec(toks, next)->Ok_0;
            let all = seq![node] + more;
            assert(all[0] == node);
            assert(all.skip(1) =~= more);
            lemma_count_up_add(
                st.last_id + 1,
                next.last_id - st.last_id,
                after.last_id - next.last_id,
            );
        } else {
            assert(nodes_ids(Seq::<NodeView>::empty()) =~= count_up(st.last_id + 1, 0));
        }
    }
}

/// The operands of a statement, in the order in which their names are
/// written. A declaration has none.
pub open spec fn operands(n: NodeView) -> Seq<usize> {
    match n {
        NodeView::FnBuys { user, item, merchant, .. } => seq![user, item, merchant],
        NodeView::FnAttacks { attacked, attacker, .. } => seq![attacker, attacked],
        NodeView::FnUses { user, item, .. } => seq![user, item],
        NodeView::FnShouts { user, .. } => seq![user],
        NodeView::FnWhispers { user, .. } => seq![user],
        NodeView::FnShoutsSpeak { user, spell_book, .. } => seq![user, spell_book],
        NodeView::FnWhispersSpeak { user, spell_book, .. } => seq![user, spell_book],
        NodeView::FnUsesCasting { user, spell_book, parameter, .. } => match parameter {
            Some(target) => seq![user, spell_book, target],
            None => seq![user, spell_book],
        },
        _ => Seq::empty(),
    }
}

/// Where the names of the operands of a statement stand among the tokens,
/// for a statement that starts at `p`: the one who acts at `p`, the next
/// name behind the verb, the merchant behind `from`, the target of a spell
/// inside its brackets.
pub open spec fn operand_places(n: NodeView, p: int) -> Seq<int> {
    match n {
        NodeView::FnBuys { .. } => seq![p, p + 2, p + 4],
        NodeView::FnAttacks { .. } => seq![p, p + 2],
        NodeView::FnUses { .. } => seq![p, p + 2],
        NodeView::FnShouts { .. } => seq![p],
        NodeView::FnWhispers { .. } => seq![p],
        NodeView::FnShoutsSpeak { .. } => seq![p, p + 2],
        NodeView::FnWhispersSpeak { .. } => seq![p, p + 2],
        NodeView::FnUsesCasting { parameter, .. } => match parameter {
            Some(_) => seq![p, p + 2, p + 6],
            None => seq![p, p + 2],
        },
        _ => Seq::empty(),
    }
}

/// Whether the operand `j` of the statement `node`, read from `st` on, is
/// the identifier that its name is bound to in `st`.
pub open spec fn operand_is_lookup(toks: Seq<TokenView>, st: PState, node: NodeView, j: int)
    -> bool {
    let q = operand_places(node, st.pos)[j];
    holds(toks, q, TokenType::Identifier) && lookup(st.ids, toks[q].1) == Some(
        operands(node)[j],
    )
}

/// Every operand of a statement that parses is the identifier that its
/// name is bound to where the statement starts.
pub proof fn lemma_operands_are_lookups(toks: Seq<TokenView>, st: PState)
    ensures
        statement_spec(toks, st) is Ok ==> {
            let node = statement_spec(toks, st)->Ok_0.0;
            &&& operands(node).len() == operand_places(node, st.pos).len()
            &&& forall|j: int|
                0 <= j < operands(node).len() ==> #[trigger] operand_is_lookup(toks, st, node, j)
        },
{
    if statement_spec(toks, st) is Ok {
        let node = statement_spec(toks, st)->Ok_0.0;
        assert forall|j: int| 0 <= j < operands(node).len() implies #[trigger] operand_is_lookup(
            toks,
            st,
            node,
            j,
        ) by {
            assert(j == 0 || j == 1 || j == 2);
        }
    }
}

/// An operand that is written with the name of an earlier declaration is
/// the identifier of that declaration. The declaration is read from `decl`
/// on and is the first of its name; the statement is read from `at` on,
/// which is a state that follows the declaration, at the top of the script
/// or inside a body.
pub proof fn lemma_operand_is_declared_id(
    toks: Seq<TokenView>,
    decl: PState,
    at: PState,
    j: int,
)
    requires
        declaration_spec(toks, decl) is Some,
        declaration_spec(toks, decl)->Some_0 is Ok,
        lookup(decl.ids, toks[decl.pos + 1].1) is None,
        extends(declaration_spec(toks, decl)->Some_0->Ok_0.1, at),
        statement_spec(toks, at) is Ok,
        0 <= j < operands(statement_spec(toks, at)->Ok_0.0).len(),
        toks[operand_places(statement_spec(toks, at)->Ok_0.0, at.pos)[j]].1 == toks[decl.pos
            + 1].1,
    ensures
        operands(statement_spec(toks, at)->Ok_0.0)[j] == declaration_spec(
            toks,
            decl,
        )->Some_0->Ok_0.0.id(),
{
    let name = toks[decl.pos + 1].1;
    let (declared, after) = declaration_spec(toks, decl)->Some_0->Ok_0;
    let node = statement_spec(toks, at)->Ok_0.0;
    lemma_declaration_binds(toks, decl);
    lemma_bound_name_stays_resolvable(after, at, name);
    lemma_operands_are_lookups(toks, at);
    assert(operand_is_lookup(toks, at, node, j));
}

/// The state before the statement `k` of a script that is read from `st`
/// on; statements are counted from zero, at the top of the script.
pub open spec fn state_before(toks: Seq<TokenView>, st: PState, k: nat) -> PState
    decreases k,
{
    if k == 0 {
        st
    } else {
        match statement_spec(toks, st) {
            Ok((_, next)) => state_before(toks, next, (k - 1) as nat),
            Err(_) => st,
        }
    }
}

/// The statement `k` of a script that parses is what is read from the
/// state before it, and that state follows the start of the script.
pub proof fn lemma_script_statement(toks: Seq<TokenView>, st: PState, k: nat)
    requires
        script_spec(toks, st) is Ok,
        k < script_spec(toks, st)->Ok_0.0.len(),
    ensures
        statement_spec(toks, state_before(toks, st, k)) == Ok::<
            (NodeView, PState),
            ParseErrorView,
        >((script_spec(toks, st)->Ok_0.0[k as int], state_before(toks, st, k + 1))),
        extends(st, state_before(toks, st, k)),
        extends(st, state_before(toks, st, k + 1)),
    decreases k,
{
    let (node, next) = statement_spec(toks, st)->Ok_0;
    let more = script_spec(toks, next)->Ok_0.0;
    let nodes = script_spec(toks, st)->Ok_0.0;
    assert(nodes =~= seq![node] + more);
    lemma_statement_advances(toks, st);
    lemma_extends_self(st);
    if k == 0 {
        assert(state_before(toks, st, 1) == state_before(toks, next, 0));
    } else {
        lemma_script_statement(toks, next, (k - 1) as nat);
        assert(nodes[k as int] == more[k - 1]);
        assert(state_before(toks, st, k + 1) == state_before(toks, next, k as nat));
        lemma_extends_trans(st, next, state_before(toks, next, (k - 1) as nat));
        lemma_extends_trans(st, next, state_before(toks, next, k as nat));
    }
}

/// In a script that parses, the state before a statement follows the
/// state before every earlier one: what an earlier statement has bound
/// stays bound.
pub proof fn lemma_script_states_extend(toks: Seq<TokenView>, st: PState, k: nat, m: nat)
    requires
        script_spec(toks, st) is Ok,
        k <= m <= script_spec(toks, st)->Ok_0.0.len(),
    ensures
        extends(state_before(toks, st, k), state_before(toks, st, m)),
    decreases m - k,
{
    if k == m {
        lemma_extends_self(state_before(toks, st, k));
    } else {
        lemma_script_states_extend(toks, st, k, (m - 1) as nat);
        lemma_script_statement(toks, st, (m - 1) as nat);
        lemma_statement_advances(toks, state_before(toks, st, (m - 1) as nat));
        lemma_extends_trans(
            state_before(toks, st, k),
            state_before(toks, st, (m - 1) as nat),
            state_before(toks, st, m),
        );
    }
}

/// In a script that parses, an operand of a later statement that is
/// written with the name of an earlier declaration, the first of that
/// name, is the identifier of that declaration: of the node that the
/// parser hands back for it.
pub proof fn lemma_script_operand_is_declared_id(
    toks: Seq<TokenView>,
    st: PState,
    k: nat,
    m: nat,
    j: int,
)
    requires
        script_spec(toks, st) is Ok,
        k < m < script_spec(toks, st)->Ok_0.0.len(),
        declaration_spec(toks, state_before(toks, st, k)) is Some,
        lookup(
            state_before(toks, st, k).ids,
            toks[state_before(toks, st, k).pos + 1].1,
        ) is None,
        0 <= j < operands(script_spec(toks, st)->Ok_0.0[m as int]).len(),
        toks[operand_places(
            script_spec(toks, st)->Ok_0.0[m as int],
            state_before(toks, st, m).pos,
        )[j]].1 == toks[state_before(toks, st, k).pos + 1].1,
    ensures
        script_spec(toks, st)->Ok_0.0[k as int].is_declaration(),
        operands(script_spec(toks, st)->Ok_0.0[m as int])[j] == script_spec(
            toks,
            st,
        )->Ok_0.0[k as int].id(),
{
    let decl = state_before(toks, st, k);
    let at = state_before(toks, st, m);
    lemma_script_statement(toks, st, k);
    lemma_script_statement(toks, st, m);
    lemma_declaration_binds(toks, decl);
    lemma_script_states_extend(toks, st, k + 1, m);
    lemma_operand_is_declared_id(toks, decl, at, j);
}

} // verus!
