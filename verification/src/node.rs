//! The statements of a script as a tree.
//!
//! A statement refers to the things it acts on by their identifiers, never
//! by name, so a tree depends only on what was declared before.

use vstd::prelude::*;

verus! {

/// The kinds of node.
#[derive(Debug, Clone, Copy, PartialEq, Eq, Structural)]
pub enum NodeType {
    Char,
    Zombie,
    Merchant,
    Potion,
    SpellBook,
    FnBuys,
    FnAttacks,
    FnUses,
    FnShouts,
    /// `c1 shouts sb1 casting speak()`
    FnShoutsSpeak,
    FnWhispers,
    /// `c1 whispers sb1 casting speak()`
    FnWhispersSpeak,
    /// A spell cast from a spellbook.
    FnUsesCasting,
    /// The statements that a `time_warp` spell repeats.
    FnBody,
}

/// The spells of a spellbook.
#[derive(Debug, Clone, Copy, PartialEq, Eq, Structural)]
pub enum SBFunction {
    UnZombify,
    Confuse,
    GodSpeech,
    TimeWarp,
    Shift,
    CreatePot,
}

#[derive(Debug, Clone, PartialEq, Eq)]
pub struct Char {
    pub id: usize,
    pub name: String,
    pub health: u32,
    pub attack: u32,
}

#[derive(Debug, Clone, PartialEq, Eq)]
pub struct Zombie {
    pub id: usize,
    pub name: String,
    pub health: i32,
    pub attack: u32,
}

#[derive(Debug, Clone, PartialEq, Eq)]
pub struct Merchant {
    pub id: usize,
    pub name: String,
}

#[derive(Debug, Clone, PartialEq, Eq)]
pub struct Potion {
    pub id: usize,
    pub name: String,
    pub value: u32,
}

#[derive(Debug, Clone, PartialEq, Eq)]
pub struct SpellBook {
    pub id: usize,
    pub name: String,
}

#[derive(Debug, Clone, Copy, PartialEq, Eq)]
pub struct FnBuys {
    pub id: usize,
    pub user: usize,
    pub item: usize,
    pub merchant: usize,
}

#[derive(Debug, Clone, Copy, PartialEq, Eq)]
pub struct FnAttacks {
    pub id: usize,
    pub attacked: usize,
    pub attacker: usize,
}

/// The use of a potion.
#[derive(Debug, Clone, Copy, PartialEq, Eq)]
pub struct FnUses {
    pub id: usize,
    pub user: usize,
    pub item: usize,
}

#[derive(Debug, Clone, Copy, PartialEq, Eq)]
pub struct FnShouts {
    pub id: usize,
    pub user: usize,
}

#[derive(Debug, Clone, Copy, PartialEq, Eq)]
pub struct FnShoutsSpeak {
    pub id: usize,
    pub user: usize,
    pub spell_book: usize,
}

#[derive(Debug, Clone, Copy, PartialEq, Eq)]
pub struct FnWhispers {
    pub id: usize,
    pub user: usize,
}

#[derive(Debug, Clone, Copy, PartialEq, Eq)]
pub struct FnWhispersSpeak {
    pub id: usize,
    pub user: usize,
    pub spell_book: usize,
}

/// The statements that a `time_warp` spell repeats.
#[derive(Debug, PartialEq, Eq)]
pub struct FnBody {
    pub id: usize,
    pub body: Vec<Node>,
}

#[derive(Debug, PartialEq, Eq)]
pub struct FnUsesCasting {
    pub id: usize,
    pub user: usize,
    pub spell_book: usize,
    pub function: SBFunction,
    pub parameter: Option<usize>,
    pub body: Option<FnBody>,
}

/// A statement.
#[derive(Debug, PartialEq, Eq)]
pub enum Node {
    Char(Char),
    Zombie(Zombie),
    Merchant(Merchant),
    Potion(Potion),
    SpellBook(SpellBook),
    FnBuys(FnBuys),
    FnAttacks(FnAttacks),
    FnUses(FnUses),
    FnShouts(FnShouts),
    FnShoutsSpeak(FnShoutsSpeak),
    FnWhispers(FnWhispers),
    FnWhispersSpeak(FnWhispersSpeak),
    FnUsesCasting(FnUsesCasting),
}

/// A statement as a mathematical value: names are sequences of characters,
/// a body is a sequence of statements.
#[allow(inconsistent_fields)]
pub enum NodeView {
    Char { id: usize, name: Seq<char>, health: u32, attack: u32 },
    Zombie { id: usize, name: Seq<char>, health: i32, attack: u32 },
    Merchant { id: usize, name: Seq<char> },
    Potion { id: usize, name: Seq<char>, value: u32 },
    SpellBook { id: usize, name: Seq<char> },
    FnBuys { id: usize, user: usize, item: usize, merchant: usize },
    FnAttacks { id: usize, attacked: usize, attacker: usize },
    FnUses { id: usize, user: usize, item: usize },
    FnShouts { id: usize, user: usize },
    FnShoutsSpeak { id: usize, user: usize, spell_book: usize },
    FnWhispers { id: usize, user: usize },
    FnWhispersSpeak { id: usize, user: usize, spell_book: usize },
    FnUsesCasting {
        id: usize,
        user: usize,
        spell_book: usize,
        function: SBFunction,
        parameter: Option<usize>,
        body: Option<(usize, Seq<NodeView>)>,
    },
}

impl NodeView {
    /// The identifier of this statement.
    pub open spec fn id(self) -> usize {
        match self {
            NodeView::Char { id, .. } => id,
            NodeView::Zombie { id, .. } => id,
            NodeView::Merchant { id, .. } => id,
            NodeView::Potion { id, .. } => id,
            NodeView::SpellBook { id, .. } => id,
            NodeView::FnBuys { id, .. } => id,
            NodeView::FnAttacks { id, .. } => id,
            NodeView::FnUses { id, .. } => id,
            NodeView::FnShouts { id, .. } => id,
            NodeView::FnShoutsSpeak { id, .. } => id,
            NodeView::FnWhispers { id, .. } => id,
            NodeView::FnWhispersSpeak { id, .. } => id,
            NodeView::FnUsesCasting { id, .. } => id,
        }
    }

    /// Whether this statement is a declaration.
    pub open spec fn is_declaration(self) -> bool {
        self is Char || self is Zombie || self is Merchant || self is Potion || self is SpellBook
    }
}

/// The identifiers that a statement holds, in the order in which a parser
/// gives them out: those of the statements of its body first, then its
/// own, then that of the body.
pub open spec fn node_ids(n: NodeView) -> Seq<int>
    decreases n, 0int,
{
    match n {
        NodeView::FnUsesCasting { id, body: Some(b), .. } => nodes_ids(b.1) + seq![
            id as int,
            b.0 as int,
        ],
        _ => seq![n.id() as int],
    }
}

/// The identifiers that a sequence of statements holds, statement by
/// statement.
pub open spec fn nodes_ids(s: Seq<NodeView>) -> Seq<int>
    decreases s, 1int,
{
    if s.len() == 0 {
        Seq::empty()
    } else {
        node_ids(s[0]) + nodes_ids(s.skip(1))
    }
}

/// The `n` numbers from `from` on.
pub open spec fn count_up(from: int, n: int) -> Seq<int> {
    Seq::new(n as nat, |i: int| from + i)
}

/// The mathematical value of a statement.
pub open spec fn node_view(n: Node) -> NodeView
    decreases n,
{
    match n {
        Node::Char(c) => NodeView::Char {
            id: c.id,
            name: c.name@,
            health: c.health,
            attack: c.attack,
        },
        Node::Zombie(z) => NodeView::Zombie {
            id: z.id,
            name: z.name@,
            health: z.health,
            attack: z.attack,
        },
        Node::Merchant(m) => NodeView::Merchant { id: m.id, name: m.name@ },
        Node::Potion(p) => NodeView::Potion { id: p.id, name: p.name@, value: p.value },
        Node::SpellBook(s) => NodeView::SpellBook { id: s.id, name: s.name@ },
        Node::FnBuys(f) => NodeView::FnBuys {
            id: f.id,
            user: f.user,
            item: f.item,
            merchant: f.merchant,
        },
        Node::FnAttacks(f) => NodeView::FnAttacks {
            id: f.id,
            attacked: f.attacked,
            attacker: f.attacker,
        },
        Node::FnUses(f) => NodeView::FnUses { id: f.id, user: f.user, item: f.item },
        Node::FnShouts(f) => NodeView::FnShouts { id: f.id, user: f.user },
        Node::FnShoutsSpeak(f) => NodeView::FnShoutsSpeak {
            id: f.id,
            user: f.user,
            spell_book: f.spell_book,
        },
        Node::FnWhispers(f) => NodeView::FnWhispers { id: f.id, user: f.user },
        Node::FnWhispersSpeak(f) => NodeView::FnWhispersSpeak {
            id: f.id,
            user: f.user,
            spell_book: f.spell_book,
        },
        Node::FnUsesCasting(f) => NodeView::FnUsesCasting {
            id: f.id,
            user: f.user,
            spell_book: f.spell_book,
            function: f.function,
            parameter: f.parameter,
            body: match f.body {
                Some(b) => Some((b.id, nodes_view(b.body@))),
                None => None,
            },
        },
    }
}

/// The mathematical values of a sequence of statements.
pub open spec fn nodes_view(s: Seq<Node>) -> Seq<NodeView>
    decreases s,
{
    if s.len() == 0 {
        Seq::empty()
    } else {
        nodes_view(s.drop_last()).push(node_view(s.last()))
    }
}

impl View for Node {
    type V = NodeView;

    open spec fn view(&self) -> NodeView {
        node_view(*self)
    }
}

/// The view of a sequence of statements holds the view of each, in order.
pub proof fn lemma_nodes_view(s: Seq<Node>)
    ensures
        nodes_view(s).len() == s.len(),
        forall|i: int| 0 <= i < s.len() ==> #[trigger] nodes_view(s)[i] == node_view(s[i]),
    decreases s.len(),
{
    if s.len() > 0 {
        lemma_nodes_view(s.drop_last());
    }
}

/// The view of a sequence with one more statement at its end.
pub proof fn lemma_nodes_view_push(s: Seq<Node>, n: Node)
    ensures
        nodes_view(s.push(n)) == nodes_view(s).push(node_view(n)),
{
    assert(s.push(n).drop_last() =~= s);
}

/// The views of the first `k` statements are the first `k` views.
pub proof fn lemma_nodes_view_take(nodes: Seq<Node>, k: int)
    requires
        0 <= k <= nodes.len(),
    ensures
        nodes_view(nodes.take(k)) == nodes_view(nodes).take(k),
{
    lemma_nodes_view(nodes);
    lemma_nodes_view(nodes.take(k));
    assert(nodes_view(nodes.take(k)) =~= nodes_view(nodes).take(k));
}

impl Node {
    /// The kind of this statement.
    pub open spec fn kind(self) -> NodeType {
        match self {
            Node::Char(_) => NodeType::Char,
            Node::Zombie(_) => NodeType::Zombie,
            Node::Merchant(_) => NodeType::Merchant,
            Node::Potion(_) => NodeType::Potion,
            Node::SpellBook(_) => NodeType::SpellBook,
            Node::FnBuys(_) => NodeType::FnBuys,
            Node::FnAttacks(_) => NodeType::FnAttacks,
            Node::FnUses(_) => NodeType::FnUses,
            Node::FnShouts(_) => NodeType::FnShouts,
            Node::FnShoutsSpeak(_) => NodeType::FnShoutsSpeak,
            Node::FnWhispers(_) => NodeType::FnWhispers,
            Node::FnWhispersSpeak(_) => NodeType::FnWhispersSpeak,
            Node::FnUsesCasting(_) => NodeType::FnUsesCasting,
        }
    }

    /// The identifier of this statement.
    pub open spec fn ident(self) -> usize {
        match self {
            Node::Char(n) => n.id,
            Node::Zombie(n) => n.id,
            Node::Merchant(n) => n.id,
            Node::Potion(n) => n.id,
            Node::SpellBook(n) => n.id,
            Node::FnBuys(n) => n.id,
            Node::FnAttacks(n) => n.id,
            Node::FnUses(n) => n.id,
            Node::FnShouts(n) => n.id,
            Node::FnShoutsSpeak(n) => n.id,
            Node::FnWhispers(n) => n.id,
            Node::FnWhispersSpeak(n) => n.id,
            Node::FnUsesCasting(n) => n.id,
        }
    }

    pub fn get_type(&self) -> (r: NodeType)
        ensures
            r == self.kind(),
    {
        match self {
            Node::Char(_) => NodeType::Char,
            Node::Zombie(_) => NodeType::Zombie,
            Node::Merchant(_) => NodeType::Merchant,
            Node::Potion(_) => NodeType::Potion,
            Node::SpellBook(_) => NodeType::SpellBook,
            Node::FnBuys(_) => NodeType::FnBuys,
            Node::FnAttacks(_) => NodeType::FnAttacks,
            Node::FnUses(_) => NodeType::FnUses,
            Node::FnShouts(_) => NodeType::FnShouts,
            Node::FnShoutsSpeak(_) => NodeType::FnShoutsSpeak,
            Node::FnWhispers(_) => NodeType::FnWhispers,
            Node::FnWhispersSpeak(_) => NodeType::FnWhispersSpeak,
            Node::FnUsesCasting(_) => NodeType::FnUsesCasting,
        }
    }

    pub fn get_id(&self) -> (r: usize)
        ensures
            r == self.ident(),
    {
        match self {
            Node::Char(n) => n.id,
            Node::Zombie(n) => n.id,
            Node::Merchant(n) => n.id,
            Node::Potion(n) => n.id,
            Node::SpellBook(n) => n.id,
            Node::FnBuys(n) => n.id,
            Node::FnAttacks(n) => n.id,
            Node::FnUses(n) => n.id,
            Node::FnShouts(n) => n.id,
            Node::FnShoutsSpeak(n) => n.id,
            Node::FnWhispers(n) => n.id,
            Node::FnWhispersSpeak(n) => n.id,
            Node::FnUsesCasting(n) => n.id,
        }
    }
}

/// A copy of the statements `nodes`.
pub fn copy_nodes(nodes: &Vec<Node>) -> (r: Vec<Node>)
    ensures
        nodes_view(r@) == nodes_view(nodes@),
    decreases nodes, 1int,
{
    let mut out: Vec<Node> = Vec::new();
    let mut i: usize = 0;
    assert(nodes@.take(0) =~= Seq::empty());
    while i < nodes.len()
        invariant
            i <= nodes.len(),
            nodes_view(out@) == nodes_view(nodes@.take(i as int)),
        decreases nodes.len() - i,
    {
        let ghost before = out@;
        let node = copy_node(&nodes[i]);
        out.push(node);
        proof {
            lemma_nodes_view_push(before, node);
            lemma_nodes_view_push(nodes@.take(i as int), nodes@[i as int]);
            assert(nodes@.take(i + 1) =~= nodes@.take(i as int).push(nodes@[i as int]));
        }
        i += 1;
    }
    assert(nodes@.take(nodes.len() as int) =~= nodes@);
    out
}

/// A copy of the statement `node`, bodies and all.
pub fn copy_node(node: &Node) -> (r: Node)
    ensures
        node_view(r) == node_view(*node),
    decreases node, 0int,
{
    match node {
        Node::Char(n) => Node::Char(
            Char { id: n.id, name: n.name.clone(), health: n.health, attack: n.attack },
        ),
        Node::Zombie(n) => Node::Zombie(
            Zombie { id: n.id, name: n.name.clone(), health: n.health, attack: n.attack },
        ),
        Node::Merchant(n) => Node::Merchant(Merchant { id: n.id, name: n.name.clone() }),
        Node::Potion(n) => Node::Potion(
            Potion { id: n.id, name: n.name.clone(), value: n.value },
        ),
        Node::SpellBook(n) => Node::SpellBook(SpellBook { id: n.id, name: n.name.clone() }),
        Node::FnBuys(n) => Node::FnBuys(*n),
        Node::FnAttacks(n) => Node::FnAttacks(*n),
        Node::FnUses(n) => Node::FnUses(*n),
        Node::FnShouts(n) => Node::FnShouts(*n),
        Node::FnShoutsSpeak(n) => Node::FnShoutsSpeak(*n),
        Node::FnWhispers(n) => Node::FnWhispers(*n),
        Node::FnWhispersSpeak(n) => Node::FnWhispersSpeak(*n),
        Node::FnUsesCasting(n) => {
            let body = match &n.body {
                Some(b) => Some(FnBody { id: b.id, body: copy_nodes(&b.body) }),
                None => None,
            };
            Node::FnUsesCasting(
                FnUsesCasting {
                    id: n.id,
                    user: n.user,
                    spell_book: n.spell_book,
                    function: n.function,
                    parameter: n.parameter,
                    body,
                },
            )
        },
    }
}

impl Clone for Node {
    fn clone(&self) -> (r: Self)
        ensures
            node_view(r) == node_view(*self),
    {
        copy_node(self)
    }
}

impl Clone for FnBody {
    fn clone(&self) -> (r: Self)
        ensures
            r.id == self.id,
            nodes_view(r.body@) == nodes_view(self.body@),
    {
        FnBody { id: self.id, body: copy_nodes(&self.body) }
    }
}

/// What an actor can buy and own.
pub trait Item {

}

impl Item for Potion {

}

impl Item for SpellBook {

}

/// What can be copied into a box of its own.
pub trait NodeClone {
    fn clone_box(&self) -> Box<Node>;
}

impl NodeClone for Node {
    /// A copy of this statement, bodies and all.
    fn clone_box(&self) -> (r: Box<Node>)
        ensures
            node_view(*r) == node_view(*self),
    {
        Box::new(copy_node(self))
    }
}

} // verus!
