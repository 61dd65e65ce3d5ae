use rpg_compiler::emit::STD_CODE;
use rpg_compiler::generator::{join_lines, GenerateError};
use rpg_compiler::node::{
    Char, FnAttacks, FnBody, FnBuys, FnShouts, FnShoutsSpeak, FnUses, FnUsesCasting, FnWhispers,
    FnWhispersSpeak, Merchant, Potion, SpellBook, Zombie,
};
use rpg_compiler::{Generator, Node, SBFunction};

fn fragment(node: Node) -> String {
    let none = vec![];
    Generator::new(&none).generate_next(&node).unwrap()
}

fn cast(function: SBFunction, parameter: Option<usize>, body: Option<FnBody>) -> Node {
    Node::FnUsesCasting(FnUsesCasting { id: 9, user: 1, spell_book: 2, function, parameter, body })
}

#[test]
fn fragment_of_a_char_declaration() {
    let expected = format!(
        "let mut i{} = Actor::new({},ActorHealth::Char({}),{}); game.add_actor(i{}.id);",
        3, 3, 10, 2, 3
    );
    assert_eq!(fragment(Node::Char(Char { id: 3, name: "c".to_string(), health: 10, attack: 2 })), expected);
}

#[test]
fn fragment_of_a_zombie_declaration() {
    let expected = format!(
        "let mut i{} = Actor::new({},ActorHealth::Zombie({}), {}); game.add_actor(i{}.id);",
        4, 4, -5, 7, 4
    );
    assert_eq!(fragment(Node::Zombie(Zombie { id: 4, name: "z".to_string(), health: -5, attack: 7 })), expected);
}

#[test]
fn fragment_of_a_merchant_declaration() {
    let expected = format!(
        "let i{} = Merchant{{}};",
        12
    );
    assert_eq!(fragment(Node::Merchant(Merchant { id: 12, name: "m".to_string() })), expected);
}

#[test]
fn fragment_of_a_potion_declaration() {
    let expected = format!(
        "let i{} = Item::Potion({},{});",
        2, 2, 50
    );
    assert_eq!(fragment(Node::Potion(Potion { id: 2, name: "p".to_string(), value: 50 })), expected);
}

#[test]
fn fragment_of_a_spellbook_declaration() {
    let expected = format!(
        "let i{} = Item::SpellBook;",
        100
    );
    assert_eq!(fragment(Node::SpellBook(SpellBook { id: 100, name: "s".to_string() })), expected);
}

#[test]
fn fragment_of_buying() {
    let expected = format!(
        "if game.alive.contains(&{}) {{ i{}.items.push(&i{}); }} else {{ runtime_error!(\"Cannot add an item to the inventory of a dead actor.\") }}",
        3, 3, 2
    );
    assert_eq!(fragment(Node::FnBuys(FnBuys { id: 9, user: 3, item: 2, merchant: 1 })), expected);
}

#[test]
fn fragment_of_attacking() {
    let expected = format!(
        "if game.alive.contains(&{}) {{ i{}.attacked(i{}.attack, &mut game); }} else {{ runtime_error!(\"A dead actor cannot attack.\") }}",
        1, 2, 1
    );
    assert_eq!(fragment(Node::FnAttacks(FnAttacks { id: 9, attacked: 2, attacker: 1 })), expected);
}

#[test]
fn fragment_of_using_a_potion() {
    let expected = format!(
        "if let Item::Potion(_, heal) = i{} {{ \
                    if game.alive.contains(&{}) {{ \
                    i{}.heal(heal);\
                    let item_index = i{}.items.iter().enumerate().find_map(|(i, p)| {{
                        let mut _val = None;
                        if let Item::Potion(id,val) = p {{if &{} == id {{_val = Some(i);}} else {{_val = None;}} }}
                        _val
                    }});
                    i{}.items.remove(item_index.expect(\"The actor does not own the potion it is trying to use.\"));
                    }}\
                    }}",
        4, 31, 31, 31, 4, 31
    );
    assert_eq!(fragment(Node::FnUses(FnUses { id: 9, user: 31, item: 4 })), expected);
}

#[test]
fn fragment_of_shouting() {
    let user = 6;
    let expected = format!(
        "if !game.alive.contains(&{user}) {{ runtime_error!(\"Dead actors can't shout.\") }} \
                    else {{ println!(\"{{}}\", i{user}.clone().health()); }}"
    );
    assert_eq!(fragment(Node::FnShouts(FnShouts { id: 9, user: 6 })), expected);
}

#[test]
fn fragment_of_shouting_through_a_spellbook() {
    let usr = 6;
    let item = 7;
    let expected = format!(
        "if !i{usr}.items.contains(&&i{item}) {{ runtime_error!(\"The spell cannot be called, because the caster doesn't own a spellbook.\") }};\
                    if !game.alive.contains(&{usr}) {{ runtime_error!(\"Dead actors can't shout.\") }} else if let ActorHealth::Char(val) = i{usr}.health() {{ println!(\"{{}}\", (val as u8) as char); }} else {{ runtime_error!(\"Wrong type, only characters can shout speak.\") }}"
    );
    assert_eq!(fragment(Node::FnShoutsSpeak(FnShoutsSpeak { id: 9, user: 6, spell_book: 7 })), expected);
}

#[test]
fn fragment_of_whispering() {
    let expected = format!(
        "if !i{}.validate_actor() {{ runtime_error!(\"Dead actors can't shout.\") }} print!(\"{{}}\", i{}.health());",
        6, 6
    );
    assert_eq!(fragment(Node::FnWhispers(FnWhispers { id: 9, user: 6 })), expected);
}

#[test]
fn fragment_of_whispering_through_a_spellbook() {
    let usr = 6;
    let item = 7;
    let expected = format!(
        "if !i{usr}.items.contains(&&i{item}) {{ runtime_error!(\"The spell cannot be called, because the caster doesn't own a spellbook.\") }}; \
                    if !i{usr}.validate_actor() {{ runtime_error!(\"Dead actors can't shout.\") }} \
                    else if let ActorHealth::Char(val) = i{usr}.health() {{ print!(\"{{}}\", (val as u8) as char); }} \
                    else {{ runtime_error!(\"Wrong type, only characters can whisper speak.\") }}"
    );
    assert_eq!(fragment(Node::FnWhispersSpeak(FnWhispersSpeak { id: 9, user: 6, spell_book: 7 })), expected);
}

#[test]
fn fragment_of_un_zombify() {
    let usr = 1;
    let item = 2;
    let id = 5;
    let head = format!(
        "if !i{usr}.items.contains(&&i{item}) {{ runtime_error!(\"The spell cannot be called, because the caster doesn't own a spellbook.\") }};"
    );
    let rest = format!(
        "let i{id} = if let ActorHealth::Zombie(h) = i{id}.health {{\
                            if h <= 0 {{ game.rm_actor({id}); i{id} }} else {{ Actor::new({id}, ActorHealth::Char(h as u32), i{id}.attack) }}\
                            }} else {{runtime_error!(\"Tried to call `un_zombify` on a non-zombie.\")}};"
    );
    assert_eq!(fragment(cast(SBFunction::UnZombify, Some(5), None)), format!("{}{}", head, rest));
}

#[test]
fn fragment_of_confuse() {
    let usr = 1;
    let item = 2;
    let id = 5;
    let head = format!(
        "if !i{usr}.items.contains(&&i{item}) {{ runtime_error!(\"The spell cannot be called, because the caster doesn't own a spellbook.\") }};"
    );
    let rest = format!(
        "i{id}.confused = true;"
    );
    assert_eq!(fragment(cast(SBFunction::Confuse, Some(5), None)), format!("{}{}", head, rest));
}

#[test]
fn fragment_of_god_speech() {
    let usr = 1;
    let item = 2;
    let user = 1;
    let head = format!(
        "if !i{usr}.items.contains(&&i{item}) {{ runtime_error!(\"The spell cannot be called, because the caster doesn't own a spellbook.\") }};"
    );
    let rest = format!(
        "{{\
                            let mut s = String::new();
                            let _ = stdout().flush();
                            stdin().read_line(&mut s).expect(\"Input invalid.\");
                            if let Some('\\n')=s.chars().next_back() {{
                                s.pop();
                            }}
                            if let Some('\\r')=s.chars().next_back() {{
                                s.pop();
                            }}
                            match i{user}.health {{
                                ActorHealth::Char(_) => {{i{user}.health = ActorHealth::Char(s.parse::<u32>().expect(\"Invalid input\"))}}
                                ActorHealth::Zombie(_) => {{i{user}.health = ActorHealth::Zombie(s.parse::<i32>().expect(\"Invalid input\"))}}
                            }}
                            }}"
    );
    assert_eq!(fragment(cast(SBFunction::GodSpeech, None, None)), format!("{}{}", head, rest));
}

#[test]
fn fragment_of_shift() {
    let usr = 1;
    let item = 2;
    let user = 1;
    let head = format!(
        "if !i{usr}.items.contains(&&i{item}) {{ runtime_error!(\"The spell cannot be called, because the caster doesn't own a spellbook.\") }};"
    );
    let rest = format!(
        "\
                        {{ let health = i{user}.attack;
                        if let ActorHealth::Char(attack) = i{user}.health {{
                            i{user}.attack = attack;
                            i{user}.health = ActorHealth::Char(health);
                        }}
                        }}"
    );
    assert_eq!(fragment(cast(SBFunction::Shift, None, None)), format!("{}{}", head, rest));
}

#[test]
fn fragment_of_create_potion() {
    let usr = 1;
    let item = 2;
    let user = 1;
    let potion = 8;
    let head = format!(
        "if !i{usr}.items.contains(&&i{item}) {{ runtime_error!(\"The spell cannot be called, because the caster doesn't own a spellbook.\") }};"
    );
    let rest = format!(
        "let potion_index = i{user}.items.iter().enumerate().find_map(|(i,item)| if item == &&i{potion} {{Some(i)}} else {{None}}); \
                            i{user}.items.remove(potion_index.unwrap());\
                            let health: u32 = if let ActorHealth::Char(h) = i{user}.health {{
                                h
                            }} else {{ runtime_error!(\"Only actors can make potions.\") }};
                            let i{potion} = Item::Potion({potion}, health);
                            i{user}.items.push(&i{potion});"
    );
    assert_eq!(fragment(cast(SBFunction::CreatePot, Some(8), None)), format!("{}{}", head, rest));
}

#[test]
fn fragment_of_time_warp_holds_its_body_line_by_line() {
    let usr = 1;
    let item = 2;
    let consumed = 3;
    let head = format!(
        "if !i{usr}.items.contains(&&i{item}) {{ runtime_error!(\"The spell cannot be called, because the caster doesn't own a spellbook.\") }};"
    );
    let body = vec![
        Node::FnShouts(FnShouts { id: 10, user: 3 }),
        Node::FnAttacks(FnAttacks { id: 11, attacked: 3, attacker: 1 }),
    ];
    let lines = format!(
        "{}\n{}",
        fragment(Node::FnShouts(FnShouts { id: 10, user: 3 })),
        fragment(Node::FnAttacks(FnAttacks { id: 11, attacked: 3, attacker: 1 }))
    );
    let rest = format!(
        "{{
                                let mut loop_times = match &mut i{consumed}.health {{
                                    ActorHealth::Char(val) => {{
                                        *val
                                    }}
                                    ActorHealth::Zombie(val) => {{runtime_error!(\"Zombies don't like loops.\")}}
                                }};
                                while loop_times != 0 {{
                                    {}
                                    i{consumed}.attacked(1, &mut game);
                                    
                                    loop_times =  match &mut i{consumed}.health {{
                                        ActorHealth::Char(val) => {{
                                            *val
                                        }}
                                        ActorHealth::Zombie(val) => {{runtime_error!(\"Zombies don't like loops.\")}}
                                    }};
                                }}
                            }}",
        lines
    );
    let text = fragment(cast(SBFunction::TimeWarp, Some(3), Some(FnBody { id: 13, body })));
    assert_eq!(text, format!("{}{}", head, rest));
    assert!(text.contains("i3.attacked(1, &mut game);"));
    assert!(text.contains("while loop_times != 0 {"));
}

#[test]
fn program_is_the_support_code_and_main_around_the_fragments() {
    let nodes = vec![
        Node::Char(Char { id: 1, name: "c".to_string(), health: 10, attack: 2 }),
        Node::FnShouts(FnShouts { id: 2, user: 1 }),
    ];
    let generator = Generator::new(&nodes);
    let parts = generator.generate_all().unwrap();
    assert_eq!(parts.len(), 2);
    assert_eq!(parts[0], "let mut i1 = Actor::new(1,ActorHealth::Char(10),2); game.add_actor(i1.id);");
    let expected = format!(
        "{}\nfn main() {{
    let mut game = Game {{ alive: Vec::new(), max_chars: {} }};
    {}
}}",
        STD_CODE,
        10,
        parts.join("\n")
    );
    assert_eq!(generator.generate().unwrap(), expected);
}

#[test]
fn fragments_are_spelled_out_with_their_identifiers() {
    assert_eq!(
        fragment(Node::Char(Char { id: 1, name: "c1".to_string(), health: 10, attack: 2 })),
        "let mut i1 = Actor::new(1,ActorHealth::Char(10),2); game.add_actor(i1.id);"
    );
    assert_eq!(
        fragment(Node::Zombie(Zombie { id: 2, name: "z".to_string(), health: -5, attack: 3 })),
        "let mut i2 = Actor::new(2,ActorHealth::Zombie(-5), 3); game.add_actor(i2.id);"
    );
    assert_eq!(
        fragment(Node::Merchant(Merchant { id: 3, name: "m".to_string() })),
        "let i3 = Merchant{};"
    );
    assert_eq!(
        fragment(Node::Potion(Potion { id: 4, name: "p".to_string(), value: 5 })),
        "let i4 = Item::Potion(4,5);"
    );
    assert_eq!(
        fragment(Node::SpellBook(SpellBook { id: 5, name: "s".to_string() })),
        "let i5 = Item::SpellBook;"
    );
    assert_eq!(
        fragment(Node::FnBuys(FnBuys { id: 6, user: 1, item: 4, merchant: 3 })),
        "if game.alive.contains(&1) { i1.items.push(&i4); } else { runtime_error!(\"Cannot add an item to the inventory of a dead actor.\") }"
    );
    assert_eq!(
        fragment(Node::FnAttacks(FnAttacks { id: 7, attacked: 2, attacker: 1 })),
        "if game.alive.contains(&1) { i2.attacked(i1.attack, &mut game); } else { runtime_error!(\"A dead actor cannot attack.\") }"
    );
    assert_eq!(
        fragment(Node::FnShouts(FnShouts { id: 8, user: 2 })),
        "if !game.alive.contains(&2) { runtime_error!(\"Dead actors can't shout.\") } else { println!(\"{}\", i2.clone().health()); }"
    );
    assert_eq!(
        fragment(Node::FnWhispers(FnWhispers { id: 8, user: 2 })),
        "if !i2.validate_actor() { runtime_error!(\"Dead actors can't shout.\") } print!(\"{}\", i2.health());"
    );
    assert_eq!(
        fragment(cast(SBFunction::Confuse, Some(7), None)),
        "if !i1.items.contains(&&i2) { runtime_error!(\"The spell cannot be called, because the caster doesn't own a spellbook.\") };i7.confused = true;"
    );
}

#[test]
fn identifiers_of_any_size_are_written_in_full() {
    assert_eq!(
        fragment(Node::Merchant(Merchant { id: usize::MAX, name: "m".to_string() })),
        format!("let i{} = Merchant{{}};", usize::MAX)
    );
    assert_eq!(
        fragment(Node::Zombie(Zombie { id: 0, name: "z".to_string(), health: i32::MIN, attack: u32::MAX })),
        "let mut i0 = Actor::new(0,ActorHealth::Zombie(-2147483648), 4294967295); game.add_actor(i0.id);"
    );
}

#[test]
fn a_spell_without_its_target_has_no_text() {
    let none = vec![];
    let generator = Generator::new(&none);
    for function in [SBFunction::UnZombify, SBFunction::Confuse, SBFunction::CreatePot] {
        assert_eq!(
            generator.generate_next(&cast(function, None, None)),
            Err(GenerateError::MissingParameter { function })
        );
    }
    assert_eq!(
        generator.generate_next(&cast(SBFunction::TimeWarp, None, Some(FnBody { id: 3, body: vec![] }))),
        Err(GenerateError::MissingParameter { function: SBFunction::TimeWarp })
    );
}

#[test]
fn a_time_warp_without_a_body_has_no_text() {
    let none = vec![];
    let generator = Generator::new(&none);
    assert_eq!(
        generator.generate_next(&cast(SBFunction::TimeWarp, Some(1), None)),
        Err(GenerateError::MissingBody)
    );
    assert_eq!(
        generator.generate_next(&cast(SBFunction::TimeWarp, None, None)),
        Err(GenerateError::MissingBody)
    );
}

#[test]
fn the_first_statement_without_text_fails_the_program() {
    let nodes = vec![
        Node::Merchant(Merchant { id: 1, name: "m".to_string() }),
        cast(SBFunction::Confuse, None, None),
        cast(SBFunction::TimeWarp, Some(1), None),
    ];
    let generator = Generator::new(&nodes);
    assert_eq!(
        generator.generate(),
        Err(GenerateError::MissingParameter { function: SBFunction::Confuse })
    );
    assert_eq!(
        generator.generate_all(),
        Err(GenerateError::MissingParameter { function: SBFunction::Confuse })
    );
    let inner = cast(
        SBFunction::TimeWarp,
        Some(1),
        Some(FnBody { id: 3, body: vec![cast(SBFunction::CreatePot, None, None)] }),
    );
    assert_eq!(
        Generator::new(&vec![inner]).generate(),
        Err(GenerateError::MissingParameter { function: SBFunction::CreatePot })
    );
}

#[test]
fn an_empty_script_has_a_program_with_an_empty_main() {
    let none = vec![];
    assert_eq!(
        Generator::with_max_chars(&none, 3).generate().unwrap(),
        format!(
            "{}\nfn main() {{\n    let mut game = Game {{ alive: Vec::new(), max_chars: 3 }};\n    \n}}",
            STD_CODE
        )
    );
    assert_eq!(Generator::with_max_chars(&none, 3).generate_all(), Ok(vec![]));
}

#[test]
fn an_empty_time_warp_has_an_empty_loop_body() {
    let with_body = fragment(cast(SBFunction::TimeWarp, Some(3), Some(FnBody { id: 4, body: vec![] })));
    assert!(with_body.contains("while loop_times != 0 {\n                                    \n                                    i3.attacked(1, &mut game);"));
}

#[test]
fn lines_are_joined_with_line_feeds_between_them() {
    assert_eq!(join_lines(&vec![]), "");
    assert_eq!(join_lines(&vec!["a".to_string()]), "a");
    assert_eq!(join_lines(&vec!["a".to_string(), "".to_string(), "b".to_string()]), "a\n\nb");
}

#[test]
fn support_code_defines_what_the_fragments_call() {
    assert_eq!(STD_CODE.chars().count(), 4618);
    assert!(STD_CODE.starts_with("#![allow(unused)]\nuse std::io::{stdin,stdout,Write};"));
    assert!(STD_CODE.ends_with("            self.alive.remove(i);\n        }\n    }\n}"));
    for needle in [
        "macro_rules! runtime_error",
        "struct Actor<'a>",
        "fn attacked(&mut self, val: u32, game: &mut Game)",
        "fn heal(&mut self, val: u32)",
        "fn validate_actor(&self) -> bool",
        "struct Merchant;",
        "enum ActorHealth",
        "enum Item",
        "struct Game",
        "fn add_actor(&mut self, actor: u32)",
        "fn rm_actor(&mut self, id: u32)",
        "&format!(\"\x1b[31m{}\x1b[0m\", $str)",
        "&format!(\"\x1b[34m{}\x1b[0m\", $str)",
        "&format!(\"\x1b[36m{}\x1b[0m\", $str)",
        "Your actors exceeded the maximum amount of actors allowed ({})",
    ] {
        assert!(STD_CODE.contains(needle), "{}", needle);
    }
}
