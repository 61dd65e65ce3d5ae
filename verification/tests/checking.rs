use rpg_compiler::node::{
    Char, FnAttacks, FnBody, FnBuys, FnShouts, FnShoutsSpeak, FnUses, FnUsesCasting, FnWhispers,
    FnWhispersSpeak, Merchant, Potion, SpellBook, Zombie,
};
use rpg_compiler::type_checker::{Operand, TypeError};
use rpg_compiler::{Node, NodeType, Parser, SBFunction, Tokenizer, TypeChecker};

fn check(nodes: &Vec<Node>) -> Result<(), TypeError> {
    TypeChecker::new(nodes).check_types()
}

fn check_script(code: &str) -> Result<(), TypeError> {
    let mut tokens = Tokenizer::new(code).tokenize().unwrap();
    let nodes = Parser::new(&mut tokens).parse().unwrap();
    check(&nodes)
}

/// 1: char, 2: zombie, 3: merchant, 4: potion, 5: spellbook
fn world() -> Vec<Node> {
    vec![
        Node::Char(Char { id: 1, name: "c".to_string(), health: 1, attack: 1 }),
        Node::Zombie(Zombie { id: 2, name: "z".to_string(), health: 1, attack: 1 }),
        Node::Merchant(Merchant { id: 3, name: "m".to_string() }),
        Node::Potion(Potion { id: 4, name: "p".to_string(), value: 1 }),
        Node::SpellBook(SpellBook { id: 5, name: "s".to_string() }),
    ]
}

fn with(node: Node) -> Result<(), TypeError> {
    let mut nodes = world();
    nodes.push(node);
    check(&nodes)
}

fn not_found(statement: NodeType, operand: Operand) -> Result<(), TypeError> {
    Err(TypeError::NotFound { statement, operand })
}

fn wrong(statement: NodeType, operand: Operand, found: NodeType) -> Result<(), TypeError> {
    Err(TypeError::WrongKind { statement, operand, found })
}

#[test]
fn scripts_of_actors_items_and_a_merchant_are_well_typed() {
    assert_eq!(check_script("char c1 = (10,2)\nchar c2 = (10,2)\nc1 attacks c2\nc2 shouts"), Ok(()));
    assert_eq!(check_script("zombie z1 = (5,3)\nz1 attacks z1"), Ok(()));
    assert_eq!(
        check_script("merchant m1 = ()\npotion p1 = (5)\nchar c1 = (10,2)\nc1 buys p1 from m1"),
        Ok(())
    );
}

#[test]
fn a_merchant_cannot_be_used_as_a_potion() {
    assert_eq!(
        check_script("merchant m1 = ()\nchar c1 = (10,2)\nc1 uses m1"),
        wrong(NodeType::FnUses, Operand::Item, NodeType::Merchant)
    );
}

#[test]
fn actions_on_the_right_kinds_check() {
    for node in [
        Node::FnBuys(FnBuys { id: 9, user: 1, item: 4, merchant: 3 }),
        Node::FnBuys(FnBuys { id: 9, user: 2, item: 5, merchant: 3 }),
        Node::FnAttacks(FnAttacks { id: 9, attacked: 1, attacker: 2 }),
        Node::FnUses(FnUses { id: 9, user: 2, item: 4 }),
        Node::FnShouts(FnShouts { id: 9, user: 1 }),
        Node::FnShoutsSpeak(FnShoutsSpeak { id: 9, user: 2, spell_book: 5 }),
        Node::FnWhispers(FnWhispers { id: 9, user: 2 }),
        Node::FnWhispersSpeak(FnWhispersSpeak { id: 9, user: 1, spell_book: 5 }),
    ] {
        assert_eq!(with(node), Ok(()));
    }
}

#[test]
fn buying_has_three_operands_to_get_right() {
    let buys = |user, item, merchant| with(Node::FnBuys(FnBuys { id: 9, user, item, merchant }));
    assert_eq!(buys(8, 4, 3), not_found(NodeType::FnBuys, Operand::User));
    assert_eq!(buys(1, 8, 3), not_found(NodeType::FnBuys, Operand::Item));
    assert_eq!(buys(1, 4, 8), not_found(NodeType::FnBuys, Operand::Merchant));
    assert_eq!(buys(3, 4, 3), wrong(NodeType::FnBuys, Operand::User, NodeType::Merchant));
    assert_eq!(buys(1, 1, 3), wrong(NodeType::FnBuys, Operand::Item, NodeType::Char));
    assert_eq!(buys(1, 4, 2), wrong(NodeType::FnBuys, Operand::Merchant, NodeType::Zombie));
    assert_eq!(buys(8, 1, 1), not_found(NodeType::FnBuys, Operand::User));
    assert_eq!(buys(3, 1, 8), not_found(NodeType::FnBuys, Operand::Merchant));
}

#[test]
fn attacking_takes_two_actors() {
    let attacks =
        |attacked, attacker| with(Node::FnAttacks(FnAttacks { id: 9, attacked, attacker }));
    assert_eq!(attacks(8, 1), not_found(NodeType::FnAttacks, Operand::Attacked));
    assert_eq!(attacks(1, 8), not_found(NodeType::FnAttacks, Operand::Attacker));
    assert_eq!(attacks(4, 1), wrong(NodeType::FnAttacks, Operand::Attacked, NodeType::Potion));
    assert_eq!(attacks(1, 5), wrong(NodeType::FnAttacks, Operand::Attacker, NodeType::SpellBook));
    assert_eq!(attacks(8, 5), not_found(NodeType::FnAttacks, Operand::Attacked));
}

#[test]
fn using_takes_an_actor_and_a_potion() {
    let uses = |user, item| with(Node::FnUses(FnUses { id: 9, user, item }));
    assert_eq!(uses(8, 4), not_found(NodeType::FnUses, Operand::User));
    assert_eq!(uses(1, 8), not_found(NodeType::FnUses, Operand::Item));
    assert_eq!(uses(4, 4), wrong(NodeType::FnUses, Operand::User, NodeType::Potion));
    assert_eq!(uses(1, 5), wrong(NodeType::FnUses, Operand::Item, NodeType::SpellBook));
}

#[test]
fn only_actors_shout_and_whisper() {
    let shouts = |user| with(Node::FnShouts(FnShouts { id: 9, user }));
    let whispers = |user| with(Node::FnWhispers(FnWhispers { id: 9, user }));
    assert_eq!(shouts(8), not_found(NodeType::FnShouts, Operand::User));
    assert_eq!(shouts(3), wrong(NodeType::FnShouts, Operand::User, NodeType::Merchant));
    assert_eq!(whispers(8), not_found(NodeType::FnWhispers, Operand::User));
    assert_eq!(whispers(5), wrong(NodeType::FnWhispers, Operand::User, NodeType::SpellBook));
}

#[test]
fn speech_takes_an_actor_and_a_spellbook() {
    let shouts = |user, spell_book| {
        with(Node::FnShoutsSpeak(FnShoutsSpeak { id: 9, user, spell_book }))
    };
    let whispers = |user, spell_book| {
        with(Node::FnWhispersSpeak(FnWhispersSpeak { id: 9, user, spell_book }))
    };
    assert_eq!(shouts(8, 5), not_found(NodeType::FnShoutsSpeak, Operand::User));
    assert_eq!(shouts(1, 8), not_found(NodeType::FnShoutsSpeak, Operand::SpellBook));
    assert_eq!(shouts(3, 5), wrong(NodeType::FnShoutsSpeak, Operand::User, NodeType::Merchant));
    assert_eq!(shouts(1, 4), wrong(NodeType::FnShoutsSpeak, Operand::SpellBook, NodeType::Potion));
    assert_eq!(whispers(8, 5), not_found(NodeType::FnWhispersSpeak, Operand::User));
    assert_eq!(whispers(1, 8), not_found(NodeType::FnWhispersSpeak, Operand::SpellBook));
    assert_eq!(whispers(4, 5), wrong(NodeType::FnWhispersSpeak, Operand::User, NodeType::Potion));
    assert_eq!(
        whispers(2, 3),
        wrong(NodeType::FnWhispersSpeak, Operand::SpellBook, NodeType::Merchant)
    );
}

fn casting(user: usize, spell_book: usize, parameter: Option<usize>, body: Option<Vec<Node>>) -> Node {
    Node::FnUsesCasting(FnUsesCasting {
        id: 20,
        user,
        spell_book,
        function: SBFunction::TimeWarp,
        parameter,
        body: body.map(|body| FnBody { id: 21, body }),
    })
}

#[test]
fn a_cast_is_held_to_no_more_than_that_its_operands_exist() {
    assert_eq!(with(casting(3, 4, Some(5), None)), Ok(()));
    assert_eq!(with(casting(1, 5, None, None)), Ok(()));
    assert_eq!(with(casting(8, 5, None, None)), not_found(NodeType::FnUsesCasting, Operand::User));
    assert_eq!(
        with(casting(1, 8, None, None)),
        not_found(NodeType::FnUsesCasting, Operand::SpellBook)
    );
    assert_eq!(
        with(casting(1, 5, Some(8), None)),
        not_found(NodeType::FnUsesCasting, Operand::Target)
    );
}

#[test]
fn the_body_of_a_cast_is_checked_and_its_declarations_stay() {
    let body = vec![
        Node::Char(Char { id: 10, name: "inner".to_string(), health: 1, attack: 1 }),
        Node::FnShouts(FnShouts { id: 11, user: 10 }),
    ];
    let mut nodes = world();
    nodes.push(casting(1, 5, Some(1), Some(body)));
    nodes.push(Node::FnShouts(FnShouts { id: 30, user: 10 }));
    assert_eq!(check(&nodes), Ok(()));
    assert_eq!(
        with(casting(1, 5, Some(1), Some(vec![Node::FnShouts(FnShouts { id: 11, user: 3 })]))),
        wrong(NodeType::FnShouts, Operand::User, NodeType::Merchant)
    );
}

#[test]
fn the_first_fault_is_the_one_reported() {
    let mut nodes = world();
    nodes.push(Node::FnShouts(FnShouts { id: 9, user: 4 }));
    nodes.push(Node::FnShouts(FnShouts { id: 10, user: 99 }));
    assert_eq!(check(&nodes), wrong(NodeType::FnShouts, Operand::User, NodeType::Potion));
}

#[test]
fn a_thing_has_no_kind_before_its_declaration() {
    let nodes = vec![
        Node::FnShouts(FnShouts { id: 1, user: 2 }),
        Node::Char(Char { id: 2, name: "late".to_string(), health: 1, attack: 1 }),
    ];
    assert_eq!(check(&nodes), not_found(NodeType::FnShouts, Operand::User));
    assert_eq!(check(&vec![]), Ok(()));
}

#[test]
fn a_checker_can_go_on_with_further_statements() {
    let nodes = world();
    let more = vec![Node::FnShouts(FnShouts { id: 9, user: 2 })];
    let mut checker = TypeChecker::new(&nodes);
    assert_eq!(checker.check_types(), Ok(()));
    assert_eq!(checker.check_node_types(&more), Ok(()));
}

#[test]
fn what_was_declared_before_a_fault_stays_recorded() {
    let mut nodes = world();
    nodes.push(Node::FnShouts(FnShouts { id: 9, user: 4 }));
    nodes.push(Node::Char(Char { id: 10, name: "late".to_string(), health: 1, attack: 1 }));
    let mut checker = TypeChecker::new(&nodes);
    assert_eq!(checker.kind_of(1), None);
    assert_eq!(
        checker.check_types(),
        wrong(NodeType::FnShouts, Operand::User, NodeType::Potion)
    );
    assert_eq!(checker.kind_of(1), Some(NodeType::Char));
    assert_eq!(checker.kind_of(5), Some(NodeType::SpellBook));
    assert_eq!(checker.kind_of(10), None);
}

#[test]
fn a_fault_inside_a_body_keeps_what_the_body_has_declared() {
    let body = vec![
        Node::Zombie(Zombie { id: 10, name: "inner".to_string(), health: 1, attack: 1 }),
        Node::FnShouts(FnShouts { id: 11, user: 3 }),
        Node::Potion(Potion { id: 12, name: "never".to_string(), value: 1 }),
    ];
    let mut nodes = world();
    nodes.push(casting(1, 5, Some(1), Some(body)));
    let mut checker = TypeChecker::new(&nodes);
    assert_eq!(
        checker.check_types(),
        wrong(NodeType::FnShouts, Operand::User, NodeType::Merchant)
    );
    assert_eq!(checker.kind_of(10), Some(NodeType::Zombie));
    assert_eq!(checker.kind_of(12), None);
}
