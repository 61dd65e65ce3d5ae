//! Type checking: every statement acts on things of the right kind.
//!
//! The checker walks the statements once, from first to last. A
//! declaration records the kind of its identifier; an action is held
//! against the kinds recorded before it.

use crate::node::{lemma_nodes_view, node_view, nodes_view, Node, NodeType, NodeView};
use std::collections::HashMap;
use vstd::prelude::*;

verus! {

/// The part that an identifier plays in an action.
#[derive(Debug, Clone, Copy, PartialEq, Eq, Structural)]
pub enum Operand {
    User,
    Item,
    Merchant,
    Attacked,
    Attacker,
    SpellBook,
    Target,
}

/// Why a script is not well typed.
#[derive(Debug, Clone, Copy, PartialEq, Eq, Structural)]
pub enum TypeError {
    /// An operand of a statement of kind `statement` was never declared.
    NotFound { statement: NodeType, operand: Operand },
    /// An operand of a statement of kind `statement` is of the wrong kind,
    /// `found`.
    WrongKind { statement: NodeType, operand: Operand, found: NodeType },
}

/// The kinds of the identifiers declared so far.
pub type Kinds = Map<usize, NodeType>;

/// Whether a thing of kind `k` can act: a character or a zombie.
pub open spec fn is_actor(k: NodeType) -> bool {
    k == NodeType::Char || k == NodeType::Zombie
}

/// Whether a thing of kind `k` can be bought: a potion or a spellbook.
pub open spec fn is_item(k: NodeType) -> bool {
    k == NodeType::Potion || k == NodeType::SpellBook
}

/// The error for an operand that was never declared.
pub open spec fn not_found(statement: NodeType, operand: Operand) -> TypeError {
    TypeError::NotFound { statement, operand }
}

/// The error for an operand of the wrong kind.
pub open spec fn wrong_kind(statement: NodeType, operand: Operand, found: NodeType) -> TypeError {
    TypeError::WrongKind { statement, operand, found }
}

/// The first fault of an action with the operands `a` and `b`, both of
/// which have to be declared before the kind of either counts.
pub open spec fn check_pair(
    env: Kinds,
    statement: NodeType,
    a: (usize, Operand),
    b: (usize, Operand),
    a_fits: spec_fn(NodeType) -> bool,
    b_fits: spec_fn(NodeType) -> bool,
) -> Option<TypeError> {
    if !env.contains_key(a.0) {
        Some(not_found(statement, a.1))
    } else if !env.contains_key(b.0) {
        Some(not_found(statement, b.1))
    } else if !a_fits(env[a.0]) {
        Some(wrong_kind(statement, a.1, env[a.0]))
    } else if !b_fits(env[b.0]) {
        Some(wrong_kind(statement, b.1, env[b.0]))
    } else {
        None
    }
}

/// The fault of an action with the one operand `a`, if it has one.
pub open spec fn check_one(
    env: Kinds,
    statement: NodeType,
    a: (usize, Operand),
    a_fits: spec_fn(NodeType) -> bool,
) -> Option<TypeError> {
    if !env.contains_key(a.0) {
        Some(not_found(statement, a.1))
    } else if !a_fits(env[a.0]) {
        Some(wrong_kind(statement, a.1, env[a.0]))
    } else {
        None
    }
}

/// The first fault of the statement `n` under `env`, if it has one.
pub open spec fn fault(n: NodeView, env: Kinds) -> Option<TypeError> {
    match n {
        NodeView::FnBuys { user, item, merchant, .. } => {
            if !env.contains_key(user) {
                Some(not_found(NodeType::FnBuys, Operand::User))
            } else if !env.contains_key(item) {
                Some(not_found(NodeType::FnBuys, Operand::Item))
            } else if !env.contains_key(merchant) {
                Some(not_found(NodeType::FnBuys, Operand::Merchant))
            } else if !is_actor(env[user]) {
                Some(wrong_kind(NodeType::FnBuys, Operand::User, env[user]))
            } else if !is_item(env[item]) {
                Some(wrong_kind(NodeType::FnBuys, Operand::Item, env[item]))
            } else if env[merchant] != NodeType::Merchant {
                Some(wrong_kind(NodeType::FnBuys, Operand::Merchant, env[merchant]))
            } else {
                None
            }
        },
        NodeView::FnAttacks { attacked, attacker, .. } => check_pair(
            env,
            NodeType::FnAttacks,
            (attacked, Operand::Attacked),
            (attacker, Operand::Attacker),
            |k: NodeType| is_actor(k),
            |k: NodeType| is_actor(k),
        ),
        NodeView::FnUses { user, item, .. } => check_pair(
            env,
            NodeType::FnUses,
            (user, Operand::User),
            (item, Operand::Item),
            |k: NodeType| is_actor(k),
            |k: NodeType| k == NodeType::Potion,
        ),
        NodeView::FnShouts { user, .. } => check_one(
            env,
            NodeType::FnShouts,
            (user, Operand::User),
            |k: NodeType| is_actor(k),
        ),
        NodeView::FnShoutsSpeak { user, spell_book, .. } => check_pair(
            env,
            NodeType::FnShoutsSpeak,
            (user, Operand::User),
            (spell_book, Operand::SpellBook),
            |k: NodeType| is_actor(k),
            |k: NodeType| k == NodeType::SpellBook,
        ),
        NodeView::FnWhispers { user, .. } => check_one(
            env,
            NodeType::FnWhispers,
            (user, Operand::User),
            |k: NodeType| is_actor(k),
        ),
        NodeView::FnWhispersSpeak { user, spell_book, .. } => check_pair(
            env,
            NodeType::FnWhispersSpeak,
            (user, Operand::User),
            (spell_book, Operand::SpellBook),
            |k: NodeType| is_actor(k),
            |k: NodeType| k == NodeType::SpellBook,
        ),
        NodeView::FnUsesCasting { user, spell_book, parameter, .. } => {
            if !env.contains_key(user) {
                Some(not_found(NodeType::FnUsesCasting, Operand::User))
            } else if !env.contains_key(spell_book) {
                Some(not_found(NodeType::FnUsesCasting, Operand::SpellBook))
            } else if parameter is Some && !env.contains_key(parameter->Some_0) {
                Some(not_found(NodeType::FnUsesCasting, Operand::Target))
            } else {
                None
            }
        },
        _ => None,
    }
}

/// The kind that the statement `n` declares its identifier to be, where
/// it is a declaration.
pub open spec fn declared(n: NodeView) -> Option<(usize, NodeType)> {
    match n {
        NodeView::Char { id, .. } => Some((id, NodeType::Char)),
        NodeView::Zombie { id, .. } => Some((id, NodeType::Zombie)),
        NodeView::Merchant { id, .. } => Some((id, NodeType::Merchant)),
        NodeView::Potion { id, .. } => Some((id, NodeType::Potion)),
        NodeView::SpellBook { id, .. } => Some((id, NodeType::SpellBook)),
        _ => None,
    }
}

/// Checks the statement `n` under `env`: the kinds after it, or its first
/// fault. The cast of a spell is held to no more than that its operands
/// were declared; the statements of its body are checked in their turn,
/// and what they declare stays declared.
pub open spec fn check_node(n: NodeView, env: Kinds) -> Result<Kinds, TypeError>
    decreases n, 0int,
{
    match fault(n, env) {
        Some(e) => Err(e),
        None => match declared(n) {
            Some((id, kind)) => Ok(env.insert(id, kind)),
            None => match n {
                NodeView::FnUsesCasting { body: Some(b), .. } => check_nodes(b.1, env),
                _ => Ok(env),
            },
        },
    }
}

/// Checks the statements `s` in order, starting under `env`.
pub open spec fn check_nodes(s: Seq<NodeView>, env: Kinds) -> Result<Kinds, TypeError>
    decreases s, 1int,
{
    if s.len() == 0 {
        Ok(env)
    } else {
        match check_node(s[0], env) {
            Err(e) => Err(e),
            Ok(next) => check_nodes(s.skip(1), next),
        }
    }
}

/// The kinds that are recorded when the check of the statement `n` under
/// `env` ends: those after it where it checks, and those under which its
/// fault was found where it fails.
pub open spec fn kinds_after_node(n: NodeView, env: Kinds) -> Kinds
    decreases n, 0int,
{
    match fault(n, env) {
        Some(_) => env,
        None => match declared(n) {
            Some((id, kind)) => env.insert(id, kind),
            None => match n {
                NodeView::FnUsesCasting { body: Some(b), .. } => kinds_after(b.1, env),
                _ => env,
            },
        },
    }
}

/// The kinds that are recorded when the check of the statements `s` under
/// `env` ends: what went before a fault stays recorded.
pub open spec fn kinds_after(s: Seq<NodeView>, env: Kinds) -> Kinds
    decreases s, 1int,
{
    if s.len() == 0 {
        env
    } else {
        match check_node(s[0], env) {
            Err(_) => kinds_after_node(s[0], env),
            Ok(next) => kinds_after(s.skip(1), next),
        }
    }
}

/// Whether a script is well typed.
pub open spec fn well_typed(s: Seq<NodeView>) -> bool {
    check_nodes(s, Map::empty()) is Ok
}

/// Checks the statements of a script.
pub struct TypeChecker<'a> {
    nodes: &'a Vec<Node>,
    var_map: HashMap<usize, NodeType>,
}

impl<'a> TypeChecker<'a> {
    /// The statements that this checker checks.
    pub closed spec fn nodes(&self) -> Seq<Node> {
        self.nodes@
    }

    /// The kinds recorded so far.
    pub closed spec fn kinds(&self) -> Kinds {
        self.var_map@
    }

    pub fn new(nodes: &'a Vec<Node>) -> (r: Self)
        ensures
            r.nodes() == nodes@,
            r.kinds() == Map::<usize, NodeType>::empty(),
    {
        Self { nodes, var_map: HashMap::new() }
    }

    /// Checks the script: success where it is well typed under the kinds
    /// recorded so far, and its first fault otherwise. After a fault the
    /// kinds recorded are those under which it was found.
    pub fn check_types(&mut self) -> (r: Result<(), TypeError>)
        ensures
            final(self).nodes() == old(self).nodes(),
            match check_nodes(nodes_view(old(self).nodes()), old(self).kinds()) {
                Ok(env) => r is Ok && final(self).kinds() == env,
                Err(e) => r == Err::<(), TypeError>(e),
            },
            final(self).kinds() == kinds_after(nodes_view(old(self).nodes()), old(self).kinds()),
    {
        let nodes: &'a Vec<Node> = self.nodes;
        self.check_node_types(nodes)
    }

    /// The kind recorded for `id`.
    pub fn kind_of(&self, id: usize) -> (r: Option<NodeType>)
        ensures
            r == if self.kinds().contains_key(id) {
                Some(self.kinds()[id])
            } else {
                None
            },
    {
        match self.var_map.get(&id) {
            Some(k) => Some(*k),
            None => None,
        }
    }

    /// The kind recorded for an operand of a statement.
    fn operand(&self, statement: NodeType, id: usize, operand: Operand) -> (r: Result<
        NodeType,
        TypeError,
    >)
        ensures
            r == if self.kinds().contains_key(id) {
                Ok::<NodeType, TypeError>(self.kinds()[id])
            } else {
                Err(not_found(statement, operand))
            },
    {
        match self.kind_of(id) {
            Some(k) => Ok(k),
            None => Err(TypeError::NotFound { statement, operand }),
        }
    }

    /// Checks the statements `nodes` in order.
    pub fn check_node_types(&mut self, nodes: &Vec<Node>) -> (r: Result<(), TypeError>)
        ensures
            final(self).nodes() == old(self).nodes(),
            match check_nodes(nodes_view(nodes@), old(self).kinds()) {
                Ok(env) => r is Ok && final(self).kinds() == env,
                Err(e) => r == Err::<(), TypeError>(e),
            },
            final(self).kinds() == kinds_after(nodes_view(nodes@), old(self).kinds()),
        decreases nodes, 1int,
    {
        let ghost all = nodes_view(nodes@);
        let mut i: usize = 0;
        proof {
            lemma_nodes_view(nodes@);
            assert(all.skip(0) =~= all);
        }
        while i < nodes.len()
            invariant
                i <= nodes.len(),
                all == nodes_view(nodes@),
                all.len() == nodes.len(),
                forall|j: int| 0 <= j < nodes.len() ==> #[trigger] all[j] == node_view(nodes@[j]),
                self.nodes() == old(self).nodes(),
                check_nodes(all, old(self).kinds()) == check_nodes(
                    all.skip(i as int),
                    self.kinds(),
                ),
                kinds_after(all, old(self).kinds()) == kinds_after(all.skip(i as int), self.kinds()),
            decreases nodes.len() - i,
        {
            proof {
                assert(all.skip(i as int)[0] == all[i as int]);
                assert(all.skip(i as int).skip(1) =~= all.skip(i + 1));
            }
            self.check_node(&nodes[i])?;
            i += 1;
        }
        Ok(())
    }

    /// Checks one statement.
    fn check_node(&mut self, node: &Node) -> (r: Result<(), TypeError>)
        ensures
            final(self).nodes() == old(self).nodes(),
            match check_node(node_view(*node), old(self).kinds()) {
                Ok(env) => r is Ok && final(self).kinds() == env,
                Err(e) => r == Err::<(), TypeError>(e),
            },
            final(self).kinds() == kinds_after_node(node_view(*node), old(self).kinds()),
        decreases node, 0int,
    {
        match node {
            Node::Char(n) => {
                self.var_map.insert(n.id, NodeType::Char);
            },
            Node::Zombie(n) => {
                self.var_map.insert(n.id, NodeType::Zombie);
            },
            Node::Merchant(n) => {
                self.var_map.insert(n.id, NodeType::Merchant);
            },
            Node::Potion(n) => {
                self.var_map.insert(n.id, NodeType::Potion);
            },
            Node::SpellBook(n) => {
                self.var_map.insert(n.id, NodeType::SpellBook);
            },
            Node::FnBuys(n) => {
                let user = self.operand(NodeType::FnBuys, n.user, Operand::User)?;
                let item = self.operand(NodeType::FnBuys, n.item, Operand::Item)?;
                let merchant = self.operand(NodeType::FnBuys, n.merchant, Operand::Merchant)?;
                if !(user == NodeType::Char || user == NodeType::Zombie) {
                    return Err(
                        TypeError::WrongKind {
                            statement: NodeType::FnBuys,
                            operand: Operand::User,
                            found: user,
                        },
                    );
                }
                if !(item == NodeType::Potion || item == NodeType::SpellBook) {
                    return Err(
                        TypeError::WrongKind {
                            statement: NodeType::FnBuys,
                            operand: Operand::Item,
                            found: item,
                        },
                    );
                }
                if !(merchant == NodeType::Merchant) {
                    return Err(
                        TypeError::WrongKind {
                            statement: NodeType::FnBuys,
                            operand: Operand::Merchant,
                            found: merchant,
                        },
                    );
                }
            },
            Node::FnAttacks(n) => {
                let attacked = self.operand(NodeType::FnAttacks, n.attacked, Operand::Attacked)?;
                let attacker = self.operand(NodeType::FnAttacks, n.attacker, Operand::Attacker)?;
                if !(attacked == NodeType::Char || attacked == NodeType::Zombie) {
                    return Err(
                        TypeError::WrongKind {
                            statement: NodeType::FnAttacks,
                            operand: Operand::Attacked,
                            found: attacked,
                        },
                    );
                }
                if !(attacker == NodeType::Char || attacker == NodeType::Zombie) {
                    return Err(
                        TypeError::WrongKind {
                            statement: NodeType::FnAttacks,
                            operand: Operand::Attacker,
                            found: attacker,
                        },
                    );
                }
            },
            Node::FnUses(n) => {
                let user = self.operand(NodeType::FnUses, n.user, Operand::User)?;
                let potion = self.operand(NodeType::FnUses, n.item, Operand::Item)?;
                if !(user == NodeType::Char || user == NodeType::Zombie) {
                    return Err(
                        TypeError::WrongKind {
                            statement: NodeType::FnUses,
                            operand: Operand::User,
                            found: user,
                        },
                    );
                }
                if !(potion == NodeType::Potion) {
                    return Err(
                        TypeError::WrongKind {
                            statement: NodeType::FnUses,
                            operand: Operand::Item,
                            found: potion,
                        },
                    );
                }
            },
            Node::FnShouts(n) => {
                self.check_speaker(NodeType::FnShouts, n.user)?;
            },
            Node::FnShoutsSpeak(n) => {
                self.check_speech(NodeType::FnShoutsSpeak, n.user, n.spell_book)?;
            },
            Node::FnWhispers(n) => {
                self.check_speaker(NodeType::FnWhispers, n.user)?;
            },
            Node::FnWhispersSpeak(n) => {
                self.check_speech(NodeType::FnWhispersSpeak, n.user, n.spell_book)?;
            },
            Node::FnUsesCasting(n) => {
                self.operand(NodeType::FnUsesCasting, n.user, Operand::User)?;
                self.operand(NodeType::FnUsesCasting, n.spell_book, Operand::SpellBook)?;
                match n.parameter {
                    Some(target) => {
                        self.operand(NodeType::FnUsesCasting, target, Operand::Target)?;
                    },
                    None => {},
                }
                match &n.body {
                    Some(b) => {
                        return self.check_node_types(&b.body);
                    },
                    None => {},
                }
            },
        }
        Ok(())
    }

    /// Checks that the one who shouts or whispers is an actor.
    fn check_speaker(&self, statement: NodeType, user: usize) -> (r: Result<(), TypeError>)
        ensures
            r == match check_one(
                self.kinds(),
                statement,
                (user, Operand::User),
                |k: NodeType| is_actor(k),
            ) {
                Some(e) => Err::<(), TypeError>(e),
                None => Ok(()),
            },
    {
        let speaker = self.operand(statement, user, Operand::User)?;
        if !(speaker == NodeType::Char || speaker == NodeType::Zombie) {
            return Err(
                TypeError::WrongKind { statement, operand: Operand::User, found: speaker },
            );
        }
        Ok(())
    }

    /// Checks that an actor speaks through a spellbook.
    fn check_speech(&self, statement: NodeType, user: usize, spell_book: usize) -> (r: Result<
        (),
        TypeError,
    >)
        ensures
            r == match check_pair(
                self.kinds(),
                statement,
                (user, Operand::User),
                (spell_book, Operand::SpellBook),
                |k: NodeType| is_actor(k),
                |k: NodeType| k == NodeType::SpellBook,
            ) {
                Some(e) => Err::<(), TypeError>(e),
                None => Ok(()),
            },
    {
        let speaker = self.operand(statement, user, Operand::User)?;
        let book = self.operand(statement, spell_book, Operand::SpellBook)?;
        if !(speaker == NodeType::Char || speaker == NodeType::Zombie) {
            return Err(
                TypeError::WrongKind { statement, operand: Operand::User, found: speaker },
            );
        }
        if !(book == NodeType::SpellBook) {
            return Err(
                TypeError::WrongKind { statement, operand: Operand::SpellBook, found: book },
            );
        }
        Ok(())
    }
}

/// What an action asks of the kinds `env`: every operand was declared, the
/// one who acts is an actor, and what is acted on is of the kind that the
/// action is for. A declaration asks nothing, and the cast of a spell only
/// that its operands were declared.
pub open spec fn fits(n: NodeView, env: Kinds) -> bool {
    match n {
        NodeView::FnBuys { user, item, merchant, .. } => {
            &&& env.contains_key(user) && env.contains_key(item) && env.contains_key(merchant)
            &&& is_actor(env[user])
            &&& is_item(env[item])
            &&& env[merchant] == NodeType::Merchant
        },
        NodeView::FnAttacks { attacked, attacker, .. } => {
            &&& env.contains_key(attacked) && env.contains_key(attacker)
            &&& is_actor(env[attacked])
            &&& is_actor(env[attacker])
        },
        NodeView::FnUses { user, item, .. } => {
            &&& env.contains_key(user) && env.contains_key(item)
            &&& is_actor(env[user])
            &&& env[item] == NodeType::Potion
        },
        NodeView::FnShouts { user, .. } => env.contains_key(user) && is_actor(env[user]),
        NodeView::FnWhispers { user, .. } => env.contains_key(user) && is_actor(env[user]),
        NodeView::FnShoutsSpeak { user, spell_book, .. } => {
            &&& env.contains_key(user) && env.contains_key(spell_book)
            &&& is_actor(env[user])
            &&& env[spell_book] == NodeType::SpellBook
        },
        NodeView::FnWhispersSpeak { user, spell_book, .. } => {
            &&& env.contains_key(user) && env.contains_key(spell_book)
            &&& is_actor(env[user])
            &&& env[spell_book] == NodeType::SpellBook
        },
        NodeView::FnUsesCasting { user, spell_book, parameter, .. } => {
            &&& env.contains_key(user) && env.contains_key(spell_book)
            &&& parameter is Some ==> env.contains_key(parameter->Some_0)
        },
        _ => true,
    }
}

/// A statement has a fault exactly where it does not fit the kinds; so a
/// statement without a body checks exactly where it fits them, and a
/// declaration always checks.
pub proof fn lemma_fault_iff_unfit(n: NodeView, env: Kinds)
    ensures
        fault(n, env) is None <==> fits(n, env),
        check_node(n, env) is Ok ==> fits(n, env),
        !fits(n, env) ==> check_node(n, env) == Err::<Kinds, TypeError>(fault(n, env)->Some_0),
        declared(n) is Some ==> check_node(n, env) == Ok::<Kinds, TypeError>(
            env.insert(declared(n)->Some_0.0, declared(n)->Some_0.1),
        ),
{
}

/// The first statement with a fault fails the script, with that fault: if
/// the statements before the one at `i` check, and that one has a fault
/// under the kinds they leave, checking them all gives this fault.
pub proof fn lemma_fault_fails_script(s: Seq<NodeView>, env: Kinds, i: int)
    requires
        0 <= i < s.len(),
        check_nodes(s.take(i), env) is Ok,
        fault(s[i], check_nodes(s.take(i), env)->Ok_0) is Some,
    ensures
        check_nodes(s, env) == Err::<Kinds, TypeError>(
            fault(s[i], check_nodes(s.take(i), env)->Ok_0)->Some_0,
        ),
    decreases i,
{
    if i == 0 {
        assert(s.take(0) =~= Seq::empty());
    } else {
        let first = s.take(i);
        assert(first[0] == s[0]);
        let next = check_node(s[0], env)->Ok_0;
        assert(first.skip(1) =~= s.skip(1).take(i - 1));
        assert(s.skip(1)[i - 1] == s[i]);
        lemma_fault_fails_script(s.skip(1), next, i - 1);
    }
}

/// A script checks only if no statement of it has a fault under the kinds
/// that the statements before it leave.
pub proof fn lemma_checked_script_has_no_fault(s: Seq<NodeView>, env: Kinds, i: int)
    requires
        0 <= i < s.len(),
        check_nodes(s, env) is Ok,
    ensures
        check_nodes(s.take(i), env) is Ok,
        fault(s[i], check_nodes(s.take(i), env)->Ok_0) is None,
    decreases i,
{
    if i == 0 {
        assert(s.take(0) =~= Seq::empty());
    } else {
        let first = s.take(i);
        assert(first[0] == s[0]);
        let next = check_node(s[0], env)->Ok_0;
        assert(first.skip(1) =~= s.skip(1).take(i - 1));
        assert(s.skip(1)[i - 1] == s[i]);
        lemma_checked_script_has_no_fault(s.skip(1), next, i - 1);
    }
}

} // verus!
