use rpg_compiler::node::{
    Char, FnAttacks, FnBody, FnBuys, FnShouts, FnShoutsSpeak, FnUses, FnUsesCasting, FnWhispers,
    FnWhispersSpeak, Merchant, Potion, SpellBook, Zombie,
};
use rpg_compiler::parser::{Number, ParseError, Role};
use rpg_compiler::text::NumberFault;
use rpg_compiler::{Node, NodeType, Parser, SBFunction, Token, TokenType, Tokenizer};

fn parse(code: &str) -> Result<Vec<Node>, ParseError> {
    let mut tokens = Tokenizer::new(code).tokenize().unwrap();
    Parser::new(&mut tokens).parse()
}

fn unbound(name: &str, role: Role) -> ParseError {
    ParseError::UnboundName { name: name.to_string(), role }
}

const CAST: &str = "char c1 = (3,1)\nspellbook sb = ()\nzombie z1 = (-2,4)\npotion p1 = (7)\n";

#[test]
fn two_chars_attack_and_shout() {
    let nodes = parse("char c1 = (10,2)\nchar c2 = (10,2)\nc1 attacks c2\nc2 shouts").unwrap();
    assert_eq!(
        nodes,
        vec![
            Node::Char(Char { id: 1, name: "c1".to_string(), health: 10, attack: 2 }),
            Node::Char(Char { id: 2, name: "c2".to_string(), health: 10, attack: 2 }),
            Node::FnAttacks(FnAttacks { id: 3, attacked: 2, attacker: 1 }),
            Node::FnShouts(FnShouts { id: 4, user: 2 }),
        ]
    );
}

#[test]
fn zombie_attacks_itself() {
    let nodes = parse("zombie z1 = (5,3)\nz1 attacks z1").unwrap();
    assert_eq!(
        nodes,
        vec![
            Node::Zombie(Zombie { id: 1, name: "z1".to_string(), health: 5, attack: 3 }),
            Node::FnAttacks(FnAttacks { id: 2, attacked: 1, attacker: 1 }),
        ]
    );
}

#[test]
fn char_buys_potion_from_merchant() {
    let nodes =
        parse("merchant m1 = ()\npotion p1 = (5)\nchar c1 = (10,2)\nc1 buys p1 from m1").unwrap();
    assert_eq!(
        nodes,
        vec![
            Node::Merchant(Merchant { id: 1, name: "m1".to_string() }),
            Node::Potion(Potion { id: 2, name: "p1".to_string(), value: 5 }),
            Node::Char(Char { id: 3, name: "c1".to_string(), health: 10, attack: 2 }),
            Node::FnBuys(FnBuys { id: 4, user: 3, item: 2, merchant: 1 }),
        ]
    );
}

#[test]
fn undeclared_potion_is_an_unbound_name() {
    assert_eq!(
        parse("char c1 = (10,2)\nc1 uses p1"),
        Err(unbound("p1", Role::ItemOrSpellbook))
    );
}

#[test]
fn declared_names_resolve_in_later_statements_with_growing_ids() {
    let mut tokens = Tokenizer::new("char a = (1,1)\nzombie b = (-1,1)\nmerchant c = ()\npotion d = (1)\nspellbook e = ()\na shouts\nb shouts\na buys d from c\na buys e from c").tokenize().unwrap();
    let mut parser = Parser::new(&mut tokens);
    assert!(tokens.is_empty());
    let nodes = parser.parse().unwrap();
    let ids: Vec<usize> = nodes.iter().map(|n| n.get_id()).collect();
    assert_eq!(ids, vec![1, 2, 3, 4, 5, 6, 7, 8, 9]);
    assert_eq!(parser.last_id(), 9);
    assert_eq!(nodes[5], Node::FnShouts(FnShouts { id: 6, user: 1 }));
    assert_eq!(nodes[6], Node::FnShouts(FnShouts { id: 7, user: 2 }));
    assert_eq!(nodes[7], Node::FnBuys(FnBuys { id: 8, user: 1, item: 4, merchant: 3 }));
    assert_eq!(nodes[8], Node::FnBuys(FnBuys { id: 9, user: 1, item: 5, merchant: 3 }));
    let kinds: Vec<NodeType> = nodes.iter().map(|n| n.get_type()).collect();
    assert_eq!(
        kinds,
        vec![
            NodeType::Char,
            NodeType::Zombie,
            NodeType::Merchant,
            NodeType::Potion,
            NodeType::SpellBook,
            NodeType::FnShouts,
            NodeType::FnShouts,
            NodeType::FnBuys,
            NodeType::FnBuys,
        ]
    );
}

#[test]
fn a_name_declared_twice_resolves_to_its_first_declaration() {
    let nodes = parse("char a = (1,1)\nchar a = (2,2)\na shouts").unwrap();
    assert_eq!(nodes[2], Node::FnShouts(FnShouts { id: 3, user: 1 }));
}

#[test]
fn an_empty_script_has_no_statements() {
    assert_eq!(parse(""), Ok(vec![]));
}

#[test]
fn zombie_health_may_be_negative() {
    assert_eq!(
        parse("zombie z = (-7, 0)").unwrap(),
        vec![Node::Zombie(Zombie { id: 1, name: "z".to_string(), health: -7, attack: 0 })]
    );
}

#[test]
fn uses_without_casting_is_the_use_of_a_potion() {
    let nodes = parse(&format!("{}c1 uses p1\nz1 whispers", CAST)).unwrap();
    assert_eq!(nodes[4], Node::FnUses(FnUses { id: 5, user: 1, item: 4 }));
    assert_eq!(nodes[5], Node::FnWhispers(FnWhispers { id: 6, user: 3 }));
}

#[test]
fn shouts_and_whispers_may_speak_through_a_spellbook() {
    let nodes = parse(&format!(
        "{}c1 shouts sb casting speak()\nc1 whispers sb casting speak()\nc1 shouts\nc1 whispers",
        CAST
    ))
    .unwrap();
    assert_eq!(
        nodes[4..],
        [
            Node::FnShoutsSpeak(FnShoutsSpeak { id: 5, user: 1, spell_book: 2 }),
            Node::FnWhispersSpeak(FnWhispersSpeak { id: 6, user: 1, spell_book: 2 }),
            Node::FnShouts(FnShouts { id: 7, user: 1 }),
            Node::FnWhispers(FnWhispers { id: 8, user: 1 }),
        ]
    );
}

#[test]
fn a_plain_shout_before_another_statement_is_not_taken_for_speech() {
    let nodes = parse(&format!("{}c1 shouts\nz1 attacks c1", CAST)).unwrap();
    assert_eq!(nodes[4], Node::FnShouts(FnShouts { id: 5, user: 1 }));
    assert_eq!(nodes[5], Node::FnAttacks(FnAttacks { id: 6, attacked: 1, attacker: 3 }));
}

fn cast(id: usize, function: SBFunction, parameter: Option<usize>) -> Node {
    Node::FnUsesCasting(FnUsesCasting {
        id,
        user: 1,
        spell_book: 2,
        function,
        parameter,
        body: None,
    })
}

#[test]
fn every_spell_has_its_own_arguments() {
    let nodes = parse(&format!(
        "{}c1 uses sb casting un_zombify(z1)\nc1 uses sb casting confuse(z1)\nc1 uses sb casting god_speech()\nc1 uses sb casting shift()\nc1 uses sb casting create_potion(p1)",
        CAST
    ))
    .unwrap();
    assert_eq!(
        nodes[4..],
        [
            cast(5, SBFunction::UnZombify, Some(3)),
            cast(6, SBFunction::Confuse, Some(3)),
            cast(7, SBFunction::GodSpeech, None),
            cast(8, SBFunction::Shift, None),
            cast(9, SBFunction::CreatePot, Some(4)),
        ]
    );
}

#[test]
fn time_warp_holds_the_statements_up_to_end() {
    let nodes = parse(&format!(
        "{}c1 uses sb casting time_warp(c1)\n  c1 shouts\n  char inner = (1,1)\nend\ninner shouts",
        CAST
    ))
    .unwrap();
    assert_eq!(nodes.len(), 6);
    assert_eq!(
        nodes[4],
        Node::FnUsesCasting(FnUsesCasting {
            id: 7,
            user: 1,
            spell_book: 2,
            function: SBFunction::TimeWarp,
            parameter: Some(1),
            body: Some(FnBody {
                id: 8,
                body: vec![
                    Node::FnShouts(FnShouts { id: 5, user: 1 }),
                    Node::Char(Char { id: 6, name: "inner".to_string(), health: 1, attack: 1 }),
                ],
            }),
        })
    );
    assert_eq!(nodes[5], Node::FnShouts(FnShouts { id: 9, user: 6 }));
}

#[test]
fn time_warp_may_be_empty_or_nested() {
    let nodes = parse(&format!(
        "{}c1 uses sb casting time_warp(c1)\nc1 uses sb casting time_warp(c1)\nend\nend",
        CAST
    ))
    .unwrap();
    let inner = Node::FnUsesCasting(FnUsesCasting {
        id: 5,
        user: 1,
        spell_book: 2,
        function: SBFunction::TimeWarp,
        parameter: Some(1),
        body: Some(FnBody { id: 6, body: vec![] }),
    });
    assert_eq!(
        nodes[4],
        Node::FnUsesCasting(FnUsesCasting {
            id: 7,
            user: 1,
            spell_book: 2,
            function: SBFunction::TimeWarp,
            parameter: Some(1),
            body: Some(FnBody { id: 8, body: vec![inner] }),
        })
    );
}

#[test]
fn tokens_that_end_too_early_are_reported() {
    assert_eq!(parse("char c1 ="), Err(ParseError::UnexpectedEnd { expected: TokenType::OParen }));
    assert_eq!(parse("char"), Err(ParseError::UnexpectedEnd { expected: TokenType::Identifier }));
    assert_eq!(
        parse("char a = (1,1)\na attacks"),
        Err(ParseError::UnexpectedEnd { expected: TokenType::Identifier })
    );
    assert_eq!(parse("c1"), Err(ParseError::MissingAction { name: "c1".to_string() }));
    assert_eq!(parse(&format!("{}c1 uses sb casting", CAST)), Err(ParseError::MissingSpell));
    assert_eq!(
        parse(&format!("{}c1 uses sb casting time_warp(c1)\nc1 shouts", CAST)),
        Err(ParseError::MissingEnd)
    );
}

#[test]
fn a_token_of_the_wrong_kind_is_reported() {
    assert_eq!(
        parse("char 5"),
        Err(ParseError::UnexpectedToken {
            expected: TokenType::Identifier,
            found: TokenType::Integer
        })
    );
    assert_eq!(
        parse("merchant m = (1)"),
        Err(ParseError::UnexpectedToken { expected: TokenType::CParen, found: TokenType::Integer })
    );
    assert_eq!(parse("= 5"), Err(ParseError::BadStatementStart { found: TokenType::Equals }));
    assert_eq!(parse("end"), Err(ParseError::BadStatementStart { found: TokenType::End }));
    assert_eq!(parse("c1 casting"), Err(ParseError::CastingAlone));
    assert_eq!(
        parse("c1 c2"),
        Err(ParseError::BadAction { name: "c1".to_string(), found: TokenType::Identifier })
    );
    assert_eq!(
        parse(&format!("{}c1 uses sb casting speak()", CAST)),
        Err(ParseError::BadSpell { found: TokenType::SbFnSpeak })
    );
}

#[test]
fn a_number_that_does_not_fit_is_reported_with_its_declaration() {
    let bad = |number, name: &str, fault| ParseError::BadNumber {
        number,
        name: name.to_string(),
        fault,
    };
    assert_eq!(
        parse("char c = (-1,2)"),
        Err(bad(Number::CharHealth, "c", NumberFault::InvalidDigit))
    );
    assert_eq!(
        parse("char c = (1,4294967296)"),
        Err(bad(Number::CharAttack, "c", NumberFault::TooLarge))
    );
    assert_eq!(
        parse("zombie z = (2147483648,1)"),
        Err(bad(Number::ZombieHealth, "z", NumberFault::TooLarge))
    );
    assert_eq!(
        parse("zombie z = (-2147483649,1)"),
        Err(bad(Number::ZombieHealth, "z", NumberFault::TooSmall))
    );
    assert_eq!(
        parse("zombie z = (1,-1)"),
        Err(bad(Number::ZombieAttack, "z", NumberFault::InvalidDigit))
    );
    assert_eq!(
        parse("potion p = (-3)"),
        Err(bad(Number::PotionValue, "p", NumberFault::InvalidDigit))
    );
    assert_eq!(
        parse("char c = (4294967295,0)").unwrap(),
        vec![Node::Char(Char { id: 1, name: "c".to_string(), health: 4294967295, attack: 0 })]
    );
    let mut empty = vec![
        Token::new(TokenType::Potion, "potion".to_string()),
        Token::new(TokenType::Identifier, "p".to_string()),
        Token::new(TokenType::Equals, "=".to_string()),
        Token::new(TokenType::OParen, "(".to_string()),
        Token::new(TokenType::Integer, String::new()),
        Token::new(TokenType::CParen, ")".to_string()),
    ];
    assert_eq!(
        Parser::new(&mut empty).parse(),
        Err(bad(Number::PotionValue, "p", NumberFault::Empty))
    );
}

#[test]
fn every_undeclared_name_is_reported_with_its_role() {
    assert_eq!(parse("x shouts"), Err(unbound("x", Role::Character)));
    assert_eq!(parse("x whispers"), Err(unbound("x", Role::Character)));
    assert_eq!(parse("x uses y"), Err(unbound("x", Role::Character)));
    assert_eq!(parse("x attacks y"), Err(unbound("x", Role::Character)));
    assert_eq!(parse("char x = (1,1)\nx attacks y"), Err(unbound("y", Role::Character)));
    assert_eq!(parse("x buys y from z"), Err(unbound("x", Role::Character)));
    assert_eq!(parse("char x = (1,1)\nx buys y from z"), Err(unbound("y", Role::Item)));
    assert_eq!(
        parse("char x = (1,1)\npotion y = (1)\nx buys y from z"),
        Err(unbound("z", Role::Merchant))
    );
    assert_eq!(
        parse(&format!("{}c1 shouts book casting speak()", CAST)),
        Err(unbound("book", Role::Spellbook))
    );
    assert_eq!(
        parse(&format!("{}c1 uses sb casting un_zombify(q)", CAST)),
        Err(unbound("q", Role::Zombie))
    );
    assert_eq!(
        parse(&format!("{}c1 uses sb casting confuse(q)", CAST)),
        Err(unbound("q", Role::CharacterOrZombie))
    );
    assert_eq!(
        parse(&format!("{}c1 uses sb casting create_potion(q)", CAST)),
        Err(unbound("q", Role::Potion))
    );
    assert_eq!(
        parse(&format!("{}c1 uses sb casting time_warp(q) end", CAST)),
        Err(unbound("q", Role::Character))
    );
}

#[test]
fn a_name_cannot_be_used_before_its_declaration() {
    assert_eq!(parse("c1 shouts\nchar c1 = (1,1)"), Err(unbound("c1", Role::Character)));
}

#[test]
fn identifiers_run_out_at_the_greatest_number() {
    let tokens = |code: &str| Tokenizer::new(code).tokenize().unwrap();
    assert_eq!(
        Parser::starting_after(tokens("char c = (1,1)"), usize::MAX).parse(),
        Err(ParseError::TooManyIds)
    );
    let mut last = Parser::starting_after(tokens("char c = (1,1)"), usize::MAX - 1);
    assert_eq!(
        last.parse().unwrap(),
        vec![Node::Char(Char { id: usize::MAX, name: "c".to_string(), health: 1, attack: 1 })]
    );
    assert_eq!(last.last_id(), usize::MAX);
}

#[test]
fn statements_can_be_read_one_by_one() {
    let mut tokens = vec![
        Token::new(TokenType::SpellBook, "spellbook".to_string()),
        Token::new(TokenType::Identifier, "sb".to_string()),
        Token::new(TokenType::Equals, "=".to_string()),
        Token::new(TokenType::OParen, "(".to_string()),
        Token::new(TokenType::CParen, ")".to_string()),
    ];
    let mut parser = Parser::new(&mut tokens);
    assert_eq!(
        parser.parse_next_statement(),
        Ok(Node::SpellBook(SpellBook { id: 1, name: "sb".to_string() }))
    );
    assert_eq!(parser.parse_next_statement(), Err(ParseError::MissingEnd));
    assert_eq!(parser.parse(), Ok(vec![]));
}

#[test]
fn a_failed_declaration_binds_no_name() {
    for code in ["char c1 = (-1,2)", "char c1 = (4294967296,2)", "char c1 = (1,-2)"] {
        let mut tokens = Tokenizer::new(&format!("{}\nc1 shouts", code)).tokenize().unwrap();
        let mut parser = Parser::new(&mut tokens);
        assert!(matches!(parser.parse(), Err(ParseError::BadNumber { .. })));
        assert_eq!(parser.last_id(), 0);
        assert!(!parser.is_bound("c1"));
    }
    let mut tokens = Tokenizer::new("char c1 = (1,2)\nchar c2 = (1,").tokenize().unwrap();
    let mut parser = Parser::new(&mut tokens);
    assert_eq!(
        parser.parse(),
        Err(ParseError::UnexpectedEnd { expected: TokenType::Integer })
    );
    assert_eq!(parser.last_id(), 1);
    assert!(parser.is_bound("c1"));
    assert!(!parser.is_bound("c2"));
}

#[test]
fn a_failure_inside_a_body_keeps_what_the_body_has_bound() {
    let mut tokens = Tokenizer::new(&format!(
        "{}c1 uses sb casting time_warp(c1)\n  char inner = (1,1)\n  nobody shouts\nend",
        CAST
    ))
    .tokenize()
    .unwrap();
    let mut parser = Parser::new(&mut tokens);
    assert_eq!(parser.parse(), Err(unbound("nobody", Role::Character)));
    assert!(parser.is_bound("c1"));
    assert!(parser.is_bound("inner"));
    assert_eq!(parser.last_id(), 5);
}

fn ids_in_order(nodes: &Vec<Node>, out: &mut Vec<usize>) {
    for node in nodes {
        if let Node::FnUsesCasting(cast) = node {
            if let Some(body) = &cast.body {
                ids_in_order(&body.body, out);
                out.push(cast.id);
                out.push(body.id);
                continue;
            }
        }
        out.push(node.get_id());
    }
}

#[test]
fn identifiers_of_nested_statements_and_bodies_count_up_with_the_rest() {
    let nodes = parse(&format!(
        "{}c1 uses sb casting time_warp(c1)\n  c1 shouts\n  c1 uses sb casting time_warp(c1)\n    char deep = (1,1)\n  end\n  deep shouts\nend\ndeep whispers",
        CAST
    ))
    .unwrap();
    let mut ids = Vec::new();
    ids_in_order(&nodes, &mut ids);
    assert_eq!(ids, (1..=12).collect::<Vec<usize>>());
}

#[test]
fn an_operand_is_the_identifier_of_the_declaration_of_its_name() {
    let nodes = parse(
        "merchant m = ()\nspellbook sb = ()\nchar hero = (9,1)\nhero buys sb from m\nhero uses sb casting time_warp(hero)\n  zombie z = (1,1)\n  hero attacks z\nend\nhero uses sb casting un_zombify(z)",
    )
    .unwrap();
    assert_eq!(nodes[3], Node::FnBuys(FnBuys { id: 4, user: 3, item: 2, merchant: 1 }));
    match &nodes[4] {
        Node::FnUsesCasting(cast) => {
            assert_eq!((cast.user, cast.spell_book, cast.parameter), (3, 2, Some(3)));
            let body = &cast.body.as_ref().unwrap().body;
            assert_eq!(body[0].get_id(), 5);
            assert_eq!(body[1], Node::FnAttacks(FnAttacks { id: 6, attacked: 5, attacker: 3 }));
        },
        other => panic!("{:?}", other),
    }
    match &nodes[5] {
        Node::FnUsesCasting(cast) => assert_eq!(cast.parameter, Some(5)),
        other => panic!("{:?}", other),
    }
}
