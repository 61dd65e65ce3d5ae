use rpg_compiler::node::{
    copy_node, copy_nodes, Char, FnBody, FnShouts, FnUsesCasting, NodeClone, Potion,
};
use rpg_compiler::{generate_uid, Node, NodeType, SBFunction};

fn looped() -> Node {
    Node::FnUsesCasting(FnUsesCasting {
        id: 7,
        user: 1,
        spell_book: 2,
        function: SBFunction::TimeWarp,
        parameter: Some(1),
        body: Some(FnBody {
            id: 8,
            body: vec![
                Node::FnShouts(FnShouts { id: 5, user: 1 }),
                Node::Char(Char { id: 6, name: "inner".to_string(), health: 1, attack: 1 }),
            ],
        }),
    })
}

#[test]
fn a_copy_of_a_statement_equals_it() {
    let potion = Node::Potion(Potion { id: 3, name: "p".to_string(), value: 9 });
    assert_eq!(copy_node(&potion), potion);
    assert_eq!(copy_node(&looped()), looped());
    assert_eq!(looped().clone(), looped());
    assert_eq!(*looped().clone_box(), looped());
}

#[test]
fn a_copy_of_statements_holds_them_in_order() {
    let nodes = vec![looped(), Node::FnShouts(FnShouts { id: 9, user: 6 })];
    assert_eq!(copy_nodes(&nodes), nodes);
    assert_eq!(copy_nodes(&vec![]), vec![]);
}

#[test]
fn a_body_is_copied_with_its_identifier() {
    let body = FnBody { id: 4, body: vec![Node::FnShouts(FnShouts { id: 5, user: 1 })] };
    assert_eq!(body.clone(), body);
}

#[test]
fn statements_know_their_kind_and_identifier() {
    assert_eq!(looped().get_type(), NodeType::FnUsesCasting);
    assert_eq!(looped().get_id(), 7);
    let potion = Node::Potion(Potion { id: 3, name: "p".to_string(), value: 9 });
    assert_eq!(potion.get_type(), NodeType::Potion);
    assert_eq!(potion.get_id(), 3);
}

#[test]
fn identifiers_count_up_from_one_and_never_repeat() {
    let mut counter = 0usize;
    let mut last = 0usize;
    for expected in 1..=100usize {
        let id = generate_uid(&mut counter).unwrap();
        assert_eq!(id, expected);
        assert!(id > last);
        assert_eq!(counter, id);
        last = id;
    }
}

#[test]
fn no_identifier_follows_the_greatest() {
    let mut counter = usize::MAX - 1;
    assert_eq!(generate_uid(&mut counter), Some(usize::MAX));
    assert_eq!(generate_uid(&mut counter), None);
    assert_eq!(counter, usize::MAX);
}
