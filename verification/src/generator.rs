//! Code generation: from statements to the text of a program.

use crate::emit::{
    attacks_text, buys_text, cast_head_text, char_text, confuse_text, create_potion_text,
    god_speech_text, merchant_text, potion_text, program_head_text, program_text,
    push_attacks_text, push_buys_text, push_cast_head_text, push_char_text, push_confuse_text,
    push_create_potion_text, push_god_speech_text, push_merchant_text, push_potion_text,
    push_program_text, push_shift_text, push_shouts_speak_text, push_shouts_text,
    push_spellbook_text, push_time_warp_text, push_un_zombify_text, push_uses_text,
    push_whispers_speak_text, push_whispers_text, push_zombie_text, shift_text, shouts_speak_text,
    shouts_text, spellbook_text, time_warp_head_text, time_warp_text, un_zombify_text, uses_text,
    whispers_speak_text, whispers_text, zombie_text,
};
use crate::node::{
    lemma_nodes_view, lemma_nodes_view_push, lemma_nodes_view_take, node_view, nodes_view, Node,
    NodeView, SBFunction,
};
use vstd::prelude::*;

verus! {

/// The greatest number of actors that a program allows where nothing else
/// is asked for.
pub const DEFAULT_MAX_CHAR: usize = 10;

/// Why no program can be written for a statement.
#[derive(Debug, Clone, Copy, PartialEq, Eq, Structural)]
pub enum GenerateError {
    /// The cast of the spell `function` names no target.
    MissingParameter { function: SBFunction },
    /// A `time_warp` has no body.
    MissingBody,
}

/// The texts `parts` with a line feed between each two.
pub open spec fn joined(parts: Seq<Seq<char>>) -> Seq<char>
    decreases parts.len(),
{
    if parts.len() == 0 {
        Seq::empty()
    } else if parts.len() == 1 {
        parts[0]
    } else {
        joined(parts.drop_last()) + "\n"@ + parts.last()
    }
}

/// The text of the spell `function`, behind the start of its cast.
pub open spec fn spell_text(function: SBFunction, user: usize, target: usize) -> Seq<char> {
    match function {
        SBFunction::UnZombify => un_zombify_text(target),
        SBFunction::Confuse => confuse_text(target),
        SBFunction::GodSpeech => god_speech_text(user),
        SBFunction::Shift => shift_text(user),
        SBFunction::CreatePot => create_potion_text(user, target),
        SBFunction::TimeWarp => Seq::empty(),
    }
}

/// Whether the spell `function` names a target.
pub open spec fn takes_target(function: SBFunction) -> bool {
    function != SBFunction::GodSpeech && function != SBFunction::Shift
}

/// The text for the statement `n`: its fragment of the program.
pub open spec fn fragment(n: NodeView) -> Result<Seq<char>, GenerateError>
    decreases n, 0int,
{
    match n {
        NodeView::Char { id, health, attack, .. } => Ok(char_text(id, health, attack)),
        NodeView::Zombie { id, health, attack, .. } => Ok(zombie_text(id, health, attack)),
        NodeView::Merchant { id, .. } => Ok(merchant_text(id)),
        NodeView::Potion { id, value, .. } => Ok(potion_text(id, value)),
        NodeView::SpellBook { id, .. } => Ok(spellbook_text(id)),
        NodeView::FnBuys { user, item, .. } => Ok(buys_text(user, item)),
        NodeView::FnAttacks { attacked, attacker, .. } => Ok(attacks_text(attacker, attacked)),
        NodeView::FnUses { user, item, .. } => Ok(uses_text(user, item)),
        NodeView::FnShouts { user, .. } => Ok(shouts_text(user)),
        NodeView::FnShoutsSpeak { user, spell_book, .. } => Ok(shouts_speak_text(user, spell_book)),
        NodeView::FnWhispers { user, .. } => Ok(whispers_text(user)),
        NodeView::FnWhispersSpeak { user, spell_book, .. } => Ok(
            whispers_speak_text(user, spell_book),
        ),
        NodeView::FnUsesCasting { user, spell_book, function, parameter, body, .. } => {
            if function == SBFunction::TimeWarp {
                match body {
                    None => Err(GenerateError::MissingBody),
                    Some(b) => match fragments(b.1) {
                        Err(e) => Err(e),
                        Ok(parts) => match parameter {
                            None => Err(GenerateError::MissingParameter { function }),
                            Some(consumed) => Ok(
                                cast_head_text(user, spell_book) + time_warp_text(
                                    consumed,
                                    joined(parts),
                                ),
                            ),
                        },
                    },
                }
            } else if takes_target(function) && parameter is None {
                Err(GenerateError::MissingParameter { function })
            } else {
                Ok(
                    cast_head_text(user, spell_book) + spell_text(
                        function,
                        user,
                        match parameter {
                            Some(target) => target,
                            None => 0,
                        },
                    ),
                )
            }
        },
    }
}

/// The fragments of the statements `s`, in order, or the first error
/// among them.
pub open spec fn fragments(s: Seq<NodeView>) -> Result<Seq<Seq<char>>, GenerateError>
    decreases s, 1int,
{
    if s.len() == 0 {
        Ok(Seq::empty())
    } else {
        match fragments(s.drop_last()) {
            Err(e) => Err(e),
            Ok(done) => match fragment(s.last()) {
                Err(e) => Err(e),
                Ok(f) => Ok(done.push(f)),
            },
        }
    }
}

/// The program for the statements `s` and at most `max_chars` actors.
pub open spec fn program(s: Seq<NodeView>, max_chars: usize) -> Result<Seq<char>, GenerateError> {
    match fragments(s) {
        Err(e) => Err(e),
        Ok(parts) => Ok(program_text(max_chars, joined(parts))),
    }
}

/// The views of a sequence of texts.
pub open spec fn text_views(parts: Seq<String>) -> Seq<Seq<char>> {
    parts.map_values(|s: String| s@)
}

/// Joins `parts` with a line feed between each two.
pub fn join_lines(parts: &Vec<String>) -> (r: String)
    ensures
        r@ == joined(text_views(parts@)),
{
    let mut out = String::new();
    let mut i: usize = 0;
    let ghost views = text_views(parts@);
    assert(views.take(0) =~= Seq::empty());
    while i < parts.len()
        invariant
            i <= parts.len(),
            views == text_views(parts@),
            out@ == joined(views.take(i as int)),
        decreases parts.len() - i,
    {
        proof {
            assert(views.take(i + 1).drop_last() =~= views.take(i as int));
            assert(views.take(i + 1).last() == parts@[i as int]@);
        }
        if i > 0 {
            out.append("\n");
        } else {
            assert(out@ + parts@[i as int]@ =~= parts@[i as int]@);
        }
        out.append(parts[i].as_str());
        i += 1;
    }
    assert(views.take(parts.len() as int) =~= views);
    out
}

/// Writes the program for a script.
pub struct Generator<'a> {
    /// The greatest number of actors that the program allows.
    max_chars: usize,
    /// The statements of the script.
    nodes: &'a Vec<Node>,
}

impl<'a> Generator<'a> {
    /// The statements that this generator writes a program for.
    pub closed spec fn nodes(&self) -> Seq<Node> {
        self.nodes@
    }

    /// The greatest number of actors that the program allows.
    pub closed spec fn max_chars(&self) -> usize {
        self.max_chars
    }

    /// A generator of programs for at most ten actors.
    pub fn new(nodes: &'a Vec<Node>) -> (r: Self)
        ensures
            r.nodes() == nodes@,
            r.max_chars() == DEFAULT_MAX_CHAR,
    {
        Self { max_chars: DEFAULT_MAX_CHAR, nodes }
    }

    /// A generator of programs for at most `max_chars` actors.
    pub fn with_max_chars(nodes: &'a Vec<Node>, max_chars: usize) -> (r: Self)
        ensures
            r.nodes() == nodes@,
            r.max_chars() == max_chars,
    {
        Self { max_chars, nodes }
    }

    /// The text of the program.
    pub fn generate(&self) -> (r: Result<String, GenerateError>)
        ensures
            match program(nodes_view(self.nodes()), self.max_chars()) {
                Ok(text) => r is Ok && r->Ok_0@ == text,
                Err(e) => r == Err::<String, GenerateError>(e),
            },
    {
        let parts = self.generate_all()?;
        let statements = join_lines(&parts);
        let mut out = String::new();
        push_program_text(&mut out, self.max_chars, statements.as_str());
        assert(out@ =~= program_text(self.max_chars, statements@));
        Ok(out)
    }

    /// The fragments of the statements of the script, in order.
    pub fn generate_all(&self) -> (r: Result<Vec<String>, GenerateError>)
        ensures
            match fragments(nodes_view(self.nodes())) {
                Ok(parts) => r is Ok && text_views(r->Ok_0@) == parts,
                Err(e) => r == Err::<Vec<String>, GenerateError>(e),
            },
    {
        self.generate_each(self.nodes)
    }

    /// The fragments of the statements `nodes`, in order.
    fn generate_each(&self, nodes: &Vec<Node>) -> (r: Result<Vec<String>, GenerateError>)
        ensures
            match fragments(nodes_view(nodes@)) {
                Ok(parts) => r is Ok && text_views(r->Ok_0@) == parts,
                Err(e) => r == Err::<Vec<String>, GenerateError>(e),
            },
        decreases nodes, 1int,
    {
        let mut parts: Vec<String> = Vec::new();
        let mut i: usize = 0;
        assert(nodes@.take(0) =~= Seq::empty());
        assert(text_views(parts@) =~= Seq::empty());
        while i < nodes.len()
            invariant
                i <= nodes.len(),
                fragments(nodes_view(nodes@.take(i as int))) == Ok::<
                    Seq<Seq<char>>,
                    GenerateError,
                >(text_views(parts@)),
            decreases nodes.len() - i,
        {
            proof {
                assert(nodes@.take(i + 1) =~= nodes@.take(i as int).push(nodes@[i as int]));
                lemma_nodes_view_push(nodes@.take(i as int), nodes@[i as int]);
                assert(nodes_view(nodes@.take(i + 1)).drop_last() =~= nodes_view(
                    nodes@.take(i as int),
                ));
                lemma_nodes_view_take(nodes@, i + 1);
                lemma_nodes_view(nodes@);
                lemma_fragments_error_stays(nodes_view(nodes@), i + 1);
            }
            let ghost before = parts@;
            let part = self.generate_next(&nodes[i])?;
            parts.push(part);
            assert(text_views(parts@) =~= text_views(before).push(part@));
            i += 1;
        }
        assert(nodes@.take(nodes.len() as int) =~= nodes@);
        Ok(parts)
    }

    /// The fragment of one statement.
    pub fn generate_next(&self, node: &Node) -> (r: Result<String, GenerateError>)
        ensures
            match fragment(node_view(*node)) {
                Ok(text) => r is Ok && r->Ok_0@ == text,
                Err(e) => r == Err::<String, GenerateError>(e),
            },
        decreases node, 0int,
    {
        let mut out = String::new();
        match node {
            Node::Char(n) => push_char_text(&mut out, n.id, n.health, n.attack),
            Node::Zombie(n) => push_zombie_text(&mut out, n.id, n.health, n.attack),
            Node::Merchant(n) => push_merchant_text(&mut out, n.id),
            Node::Potion(n) => push_potion_text(&mut out, n.id, n.value),
            Node::SpellBook(n) => push_spellbook_text(&mut out, n.id),
            Node::FnBuys(n) => push_buys_text(&mut out, n.user, n.item),
            Node::FnAttacks(n) => push_attacks_text(&mut out, n.attacker, n.attacked),
            Node::FnUses(n) => push_uses_text(&mut out, n.user, n.item),
            Node::FnShouts(n) => push_shouts_text(&mut out, n.user),
            Node::FnShoutsSpeak(n) => push_shouts_speak_text(&mut out, n.user, n.spell_book),
            Node::FnWhispers(n) => push_whispers_text(&mut out, n.user),
            Node::FnWhispersSpeak(n) => push_whispers_speak_text(&mut out, n.user, n.spell_book),
            Node::FnUsesCasting(n) => {
                push_cast_head_text(&mut out, n.user, n.spell_book);
                match n.function {
                    SBFunction::TimeWarp => {
                        let parts = match &n.body {
                            Some(b) => self.generate_each(&b.body)?,
                            None => {
                                return Err(GenerateError::MissingBody);
                            },
                        };
                        let consumed: usize = match n.parameter {
                            Some(c) => c,
                            None => {
                                return Err(
                                    GenerateError::MissingParameter { function: n.function },
                                );
                            },
                        };
                        let body = join_lines(&parts);
                        push_time_warp_text(&mut out, consumed, body.as_str());
                    },
                    SBFunction::GodSpeech => push_god_speech_text(&mut out, n.user),
                    SBFunction::Shift => push_shift_text(&mut out, n.user),
                    _ => {
                        let target: usize = match n.parameter {
                            Some(t) => t,
                            None => {
                                return Err(
                                    GenerateError::MissingParameter { function: n.function },
                                );
                            },
                        };
                        match n.function {
                            SBFunction::UnZombify => push_un_zombify_text(&mut out, target),
                            SBFunction::Confuse => push_confuse_text(&mut out, target),
                            _ => push_create_potion_text(&mut out, n.user, target),
                        }
                    },
                }
            },
        }
        proof {
            match fragment(node_view(*node)) {
                Ok(text) => {
                    assert(out@ =~= text);
                },
                Err(e) => {},
            }
        }
        Ok(out)
    }
}

/// An error among the first `k` statements is the error of them all.
pub proof fn lemma_fragments_error_stays(s: Seq<NodeView>, k: int)
    requires
        0 <= k <= s.len(),
    ensures
        fragments(s.take(k)) is Err ==> fragments(s) == fragments(s.take(k)),
    decreases s.len(),
{
    if k == s.len() {
        assert(s.take(k) =~= s);
    } else {
        assert(s.drop_last().take(k) =~= s.take(k));
        lemma_fragments_error_stays(s.drop_last(), k);
    }
}

/// Where the part `i` of `parts` starts in their joined text.
pub open spec fn offset(parts: Seq<Seq<char>>, i: int) -> int
    decreases i,
{
    if i <= 0 {
        0
    } else {
        offset(parts, i - 1) + parts[i - 1].len() + 1
    }
}

/// Where a part starts depends on the parts before it alone.
pub proof fn lemma_offset_of_prefix(parts: Seq<Seq<char>>, k: int, i: int)
    requires
        0 <= i <= k <= parts.len(),
    ensures
        offset(parts.take(k), i) == offset(parts, i),
    decreases i,
{
    if i > 0 {
        lemma_offset_of_prefix(parts, k, i - 1);
    }
}

/// The joined text ends where a further part would start, less the line
/// feed before it.
pub proof fn lemma_joined_len(parts: Seq<Seq<char>>)
    requires
        parts.len() > 0,
    ensures
        joined(parts).len() + 1 == offset(parts, parts.len() as int),
    decreases parts.len(),
{
    reveal_strlit("\n");
    let n = parts.len() as int;
    assert(offset(parts, n) == offset(parts, n - 1) + parts[n - 1].len() + 1);
    if n > 1 {
        let front = parts.drop_last();
        lemma_joined_len(front);
        assert(front =~= parts.take(n - 1));
        lemma_offset_of_prefix(parts, n - 1, n - 1);
        assert(joined(parts).len() == joined(front).len() + 1 + parts[n - 1].len());
    } else {
        assert(offset(parts, 0) == 0);
    }
}

/// The joined text holds every part, each at its offset, and the parts
/// stand in it in their order, one behind the other.
pub proof fn lemma_joined_holds_part(parts: Seq<Seq<char>>, i: int)
    requires
        0 <= i < parts.len(),
    ensures
        0 <= offset(parts, i),
        offset(parts, i) + parts[i].len() <= joined(parts).len(),
        joined(parts).subrange(offset(parts, i), offset(parts, i) + parts[i].len()) == parts[i],
        offset(parts, i) + parts[i].len() < offset(parts, i + 1),
    decreases parts.len(),
{
    reveal_strlit("\n");
    let n = parts.len() as int;
    let text = joined(parts);
    let at = offset(parts, i);
    if n > 1 {
        let front = parts.drop_last();
        lemma_joined_len(front);
        assert(front =~= parts.take(n - 1));
        lemma_offset_of_prefix(parts, n - 1, n - 1);
        if i == n - 1 {
            assert(text.subrange(at, at + parts[i].len()) =~= parts[i]);
        } else {
            lemma_joined_holds_part(front, i);
            lemma_offset_of_prefix(parts, n - 1, i);
            assert(text.subrange(at, at + parts[i].len()) =~= joined(front).subrange(
                at,
                at + parts[i].len(),
            ));
        }
    } else {
        assert(text.subrange(0, parts[0].len() as int) =~= parts[0]);
    }
}

/// Where a script has fragments, there is one for each statement, in the
/// order of the statements.
pub proof fn lemma_fragments_each(s: Seq<NodeView>)
    ensures
        fragments(s) is Ok ==> {
            &&& fragments(s)->Ok_0.len() == s.len()
            &&& forall|i: int|
                0 <= i < s.len() ==> fragment(#[trigger] s[i]) == Ok::<Seq<char>, GenerateError>(
                    fragments(s)->Ok_0[i],
                )
        },
    decreases s.len(),
{
    if s.len() > 0 && fragments(s) is Ok {
        lemma_fragments_each(s.drop_last());
        let parts = fragments(s)->Ok_0;
        assert forall|i: int| 0 <= i < s.len() implies fragment(#[trigger] s[i]) == Ok::<
            Seq<char>,
            GenerateError,
        >(parts[i]) by {
            if i < s.len() - 1 {
                assert(s.drop_last()[i] == s[i]);
            }
        }
    }
}

/// Where every statement has a fragment, the script has fragments.
pub proof fn lemma_fragments_of_all(s: Seq<NodeView>)
    requires
        forall|i: int| 0 <= i < s.len() ==> fragment(#[trigger] s[i]) is Ok,
    ensures
        fragments(s) is Ok,
    decreases s.len(),
{
    if s.len() > 0 {
        let front = s.drop_last();
        assert forall|i: int| 0 <= i < front.len() implies fragment(#[trigger] front[i]) is Ok by {
            assert(front[i] == s[i]);
        }
        lemma_fragments_of_all(front);
        assert(fragment(s[s.len() - 1]) is Ok);
    }
}

/// The program of a script holds the fragment of every statement of the
/// script, in the order of the statements: the fragment of the statement
/// `i` stands behind the start of the program at its offset, and ends
/// before the next one starts.
pub proof fn lemma_program_holds_fragments(s: Seq<NodeView>, max_chars: usize, i: int)
    requires
        program(s, max_chars) is Ok,
        0 <= i < s.len(),
    ensures
        ({
            let text = program(s, max_chars)->Ok_0;
            let parts = fragments(s)->Ok_0;
            let at = program_head_text(max_chars).len() + offset(parts, i);
            &&& parts.len() == s.len()
            &&& fragment(s[i]) == Ok::<Seq<char>, GenerateError>(parts[i])
            &&& 0 <= at
            &&& at + parts[i].len() <= text.len()
            &&& text.subrange(at, at + parts[i].len()) == parts[i]
            &&& at + parts[i].len() < program_head_text(max_chars).len() + offset(parts, i + 1)
        }),
{
    let text = program(s, max_chars)->Ok_0;
    let parts = fragments(s)->Ok_0;
    let head = program_head_text(max_chars);
    let at = head.len() + offset(parts, i);
    lemma_fragments_each(s);
    lemma_joined_holds_part(parts, i);
    assert(text.subrange(at, at + parts[i].len()) =~= joined(parts).subrange(
        offset(parts, i),
        offset(parts, i) + parts[i].len(),
    ));
}

/// The cast of a `time_warp` as a statement.
pub open spec fn time_warp_node(
    id: usize,
    user: usize,
    spell_book: usize,
    consumed: usize,
    body_id: usize,
    body: Seq<NodeView>,
) -> NodeView {
    NodeView::FnUsesCasting {
        id,
        user,
        spell_book,
        function: SBFunction::TimeWarp,
        parameter: Some(consumed),
        body: Some((body_id, body)),
    }
}

/// The fragment of a `time_warp` holds the fragment of every statement of
/// its body, in the order of the statements, behind the start of the cast
/// and the start of the loop.
pub proof fn lemma_time_warp_holds_fragments(
    id: usize,
    user: usize,
    spell_book: usize,
    consumed: usize,
    body_id: usize,
    body: Seq<NodeView>,
    i: int,
)
    requires
        fragment(time_warp_node(id, user, spell_book, consumed, body_id, body)) is Ok,
        0 <= i < body.len(),
    ensures
        ({
            let text = fragment(
                time_warp_node(id, user, spell_book, consumed, body_id, body),
            )->Ok_0;
            let parts = fragments(body)->Ok_0;
            let start = cast_head_text(user, spell_book).len() + time_warp_head_text(
                consumed,
            ).len();
            let at = start + offset(parts, i);
            &&& parts.len() == body.len()
            &&& fragment(body[i]) == Ok::<Seq<char>, GenerateError>(parts[i])
            &&& 0 <= at
            &&& at + parts[i].len() <= text.len()
            &&& text.subrange(at, at + parts[i].len()) == parts[i]
            &&& at + parts[i].len() < start + offset(parts, i + 1)
        }),
{
    let text = fragment(time_warp_node(id, user, spell_book, consumed, body_id, body))->Ok_0;
    let parts = fragments(body)->Ok_0;
    let start = cast_head_text(user, spell_book).len() + time_warp_head_text(consumed).len();
    let at = start + offset(parts, i);
    lemma_fragments_each(body);
    lemma_joined_holds_part(parts, i);
    assert(text.subrange(at, at + parts[i].len()) =~= joined(parts).subrange(
        offset(parts, i),
        offset(parts, i) + parts[i].len(),
    ));
}

} // verus!
