use rpg_compiler::generator::GenerateError;
use rpg_compiler::message::role_name;
use rpg_compiler::parser::{Number, ParseError, Role};
use rpg_compiler::text::{find_i32_fault, find_u32_fault, NumberFault};
use rpg_compiler::tokenizer::LexError;
use rpg_compiler::type_checker::{Operand, TypeError};
use rpg_compiler::{compile, CompileError, NodeType, SBFunction, TokenType};

#[test]
fn parse_errors_say_what_was_expected() {
    assert_eq!(
        ParseError::UnexpectedToken { expected: TokenType::OParen, found: TokenType::Integer }
            .message(),
        "Expected token type '(' but got integer"
    );
    assert_eq!(
        ParseError::UnexpectedEnd { expected: TokenType::Identifier }.message(),
        "Expected token type identifier but got none"
    );
    assert_eq!(
        ParseError::BadStatementStart { found: TokenType::End }.message(),
        "Unexpected token type at beginning of statement: end"
    );
    assert_eq!(
        ParseError::MissingAction { name: "c1".to_string() }.message(),
        "Expected an action after identifier c1, but got none."
    );
    assert_eq!(
        ParseError::CastingAlone.message(),
        "Casting can not be used on its own. It has to be used alongside a `uses` action."
    );
    assert_eq!(
        ParseError::BadAction { name: "c1".to_string(), found: TokenType::From }.message(),
        "Expected an action after identifier c1, but got from"
    );
    assert_eq!(
        ParseError::MissingSpell.message(),
        "Expected a spell after `casting`, but got none."
    );
    assert_eq!(
        ParseError::BadSpell { found: TokenType::SbFnSpeak }.message(),
        "Invalid spellbook spell: speak()"
    );
    assert_eq!(
        ParseError::MissingEnd.message(),
        "Expected time warp loop to end with `end`, but got none."
    );
    assert_eq!(
        ParseError::TooManyIds.message(),
        "Too many statements: no identifier is left to give out."
    );
}

#[test]
fn an_unbound_name_is_named_with_its_role_and_a_hint() {
    assert_eq!(
        ParseError::UnboundName { name: "p1".to_string(), role: Role::ItemOrSpellbook }.message(),
        "No item or spellbook p1 exists.\nHINT: Define the item or spellbook before you use it."
    );
    assert_eq!(
        ParseError::UnboundName { name: "bob".to_string(), role: Role::Character }.message(),
        "No character bob exists.\nHINT: Define the character before you use it."
    );
    let names = [
        (Role::Character, "character"),
        (Role::Item, "item"),
        (Role::Merchant, "merchant"),
        (Role::ItemOrSpellbook, "item or spellbook"),
        (Role::Potion, "potion"),
        (Role::Zombie, "zombie"),
        (Role::CharacterOrZombie, "character or zombie"),
        (Role::Spellbook, "spellbook"),
    ];
    for (role, name) in names {
        assert_eq!(role_name(role), name);
    }
}

#[test]
fn a_bad_number_is_explained_for_its_declaration() {
    let bad = |number| ParseError::BadNumber {
        number,
        name: "x".to_string(),
        fault: NumberFault::InvalidDigit,
    };
    assert_eq!(
        bad(Number::CharHealth).message(),
        "Character x has an invalid value for its health.\nHELP: Characters can only have non-negative health. Their health must be an unsigned 32-bit integer."
    );
    assert_eq!(
        bad(Number::CharAttack).message(),
        "Character x has an invalid value for its attack.\nHELP: Attack must be non-negative. Attack is an unsigned 32-bit integer."
    );
    assert_eq!(
        bad(Number::ZombieHealth).message(),
        "Zombie x has an invalid value for its health.\nHELP: Make sure you have put in an integer. Zombie's health are signed 32-bit integers."
    );
    assert_eq!(
        bad(Number::ZombieAttack).message(),
        "Zombie x has an invalid value for its attack.\nHELP: Attack must be non-negative. Attack is an unsigned 32-bit integer."
    );
    assert_eq!(
        bad(Number::PotionValue).message(),
        "Potion x has an invalid value for its healing value.\nHELP: Potions can only have non-negative healing values. Their value must be an unsigned 32-bit integer."
    );
    assert_eq!(
        bad(Number::PotionValue).cause(),
        Some("invalid digit found in string".to_string())
    );
    assert_eq!(ParseError::MissingEnd.cause(), None);
}

#[test]
fn the_cause_is_told_only_where_it_is_asked_for() {
    let e = compile("char c = (-4, 1)").unwrap_err();
    let plain = "Character c has an invalid value for its health.\nHELP: Characters can only have non-negative health. Their health must be an unsigned 32-bit integer.";
    assert_eq!(e.message(), plain);
    assert_eq!(e.report(false), plain);
    assert_eq!(
        e.report(true),
        format!("{}\n== VERBOSE OUTPUT ==\ninvalid digit found in string", plain)
    );
    assert_eq!(
        compile("potion p = (99999999999)").unwrap_err().report(true),
        "Potion p has an invalid value for its healing value.\nHELP: Potions can only have non-negative healing values. Their value must be an unsigned 32-bit integer.\n== VERBOSE OUTPUT ==\nnumber too large to fit in target type"
    );
    let other = compile("c shouts").unwrap_err();
    assert_eq!(other.report(true), other.message());
    assert_eq!(other.report(false), other.message());
}

#[test]
fn type_errors_have_their_sentences() {
    let nf = |statement, operand| TypeError::NotFound { statement, operand }.message();
    let wk = |statement, operand| {
        TypeError::WrongKind { statement, operand, found: NodeType::Merchant }.message()
    };
    assert_eq!(nf(NodeType::FnBuys, Operand::User), "Actor that is trying to buy not found.");
    assert_eq!(nf(NodeType::FnBuys, Operand::Item), "Item you are trying to buy was not found.");
    assert_eq!(nf(NodeType::FnBuys, Operand::Merchant), "No merchant found while buying.");
    assert_eq!(wk(NodeType::FnBuys, Operand::User), "The one buying must be an actor.");
    assert_eq!(
        wk(NodeType::FnBuys, Operand::Item),
        "Only potions and spellbooks can be bought from a merchant."
    );
    assert_eq!(wk(NodeType::FnBuys, Operand::Merchant), "Only merchants can sell items.");
    assert_eq!(
        nf(NodeType::FnAttacks, Operand::Attacked),
        "Actor being attacked could not be found."
    );
    assert_eq!(nf(NodeType::FnAttacks, Operand::Attacker), "Attacking actor could not be found.");
    assert_eq!(
        wk(NodeType::FnAttacks, Operand::Attacked),
        "The one being attacked is not an actor."
    );
    assert_eq!(wk(NodeType::FnAttacks, Operand::Attacker), "The one attacking is not an actor.");
    assert_eq!(nf(NodeType::FnUses, Operand::User), "The actor using the potion was not defined.");
    assert_eq!(nf(NodeType::FnUses, Operand::Item), "The potion being used was not defined.");
    assert_eq!(wk(NodeType::FnUses, Operand::User), "The user of the potion is not an actor.");
    assert_eq!(wk(NodeType::FnUses, Operand::Item), "The item being used is not a potion.");
    for statement in [NodeType::FnShouts, NodeType::FnWhispers, NodeType::FnShoutsSpeak, NodeType::FnWhispersSpeak] {
        assert_eq!(nf(statement, Operand::User), "The actor shouting was not defined.");
        assert_eq!(wk(statement, Operand::User), "The one shouting is not an actor.");
    }
    for statement in [NodeType::FnShoutsSpeak, NodeType::FnWhispersSpeak] {
        assert_eq!(
            nf(statement, Operand::SpellBook),
            "The spellbook used for speaking was not defined."
        );
        assert_eq!(
            wk(statement, Operand::SpellBook),
            "The actor is not using a spellbook to shout."
        );
    }
    assert_eq!(
        nf(NodeType::FnUsesCasting, Operand::User),
        "The actor casting the spell was not defined."
    );
    assert_eq!(
        nf(NodeType::FnUsesCasting, Operand::SpellBook),
        "The spellbook of the spell was not defined."
    );
    assert_eq!(
        nf(NodeType::FnUsesCasting, Operand::Target),
        "The target of the spell was not defined."
    );
}

#[test]
fn statements_without_text_have_their_sentences() {
    let missing = |function| GenerateError::MissingParameter { function }.message();
    assert_eq!(missing(SBFunction::UnZombify), "Un_zombify called without zombie parameter.");
    assert_eq!(missing(SBFunction::Confuse), "Confuse called without parameter.");
    assert_eq!(missing(SBFunction::TimeWarp), "Expected a parameter for spell `time_warp`.");
    assert_eq!(missing(SBFunction::CreatePot), "Create_potion called without potion parameter.");
    assert_eq!(
        GenerateError::MissingBody.message(),
        "Unkown error: expected body, but was empty."
    );
}

#[test]
fn every_failed_compilation_has_a_message() {
    assert_eq!(
        CompileError::Lex(LexError { found: "%".to_string() }).message(),
        "Unexpected token: found %"
    );
    assert_eq!(
        compile("merchant m = ()\nm shouts").unwrap_err().message(),
        "The one shouting is not an actor."
    );
    assert_eq!(
        CompileError::Generate(GenerateError::MissingBody).message(),
        "Unkown error: expected body, but was empty."
    );
    assert_eq!(
        compile("char c1 = (10,2)\nc1 uses p1").unwrap_err().message(),
        "No item or spellbook p1 exists.\nHINT: Define the item or spellbook before you use it."
    );
}

#[test]
fn the_fault_of_a_number_is_told_in_the_words_of_the_standard_library() {
    for text in ["", "-1", "x", "+", "12a", "4294967296", "99999999999999999999999"] {
        let cause = text.parse::<u32>().unwrap_err().to_string();
        assert_eq!(find_u32_fault(text).as_str(), cause, "{:?}", text);
    }
    for text in ["", "-", "+", "--1", "1-", "2147483648", "-2147483649", "+99999999999", "-99999999999999"] {
        let cause = text.parse::<i32>().unwrap_err().to_string();
        assert_eq!(find_i32_fault(text).as_str(), cause, "{:?}", text);
    }
    assert_eq!(find_i32_fault("-2147483649"), NumberFault::TooSmall);
    assert_eq!(find_u32_fault(""), NumberFault::Empty);
}
