//! What a user is told of a failure.

use crate::compile::{CompileError, CompileErrorView};
use crate::generator::GenerateError;
use crate::node::{NodeType, SBFunction};
use crate::parser::{Number, ParseError, ParseErrorView, Role};
use crate::text::NumberFault;
use crate::type_checker::{Operand, TypeError};
use vstd::prelude::*;

verus! {

/// How a role is called in a message.
pub open spec fn role_text(role: Role) -> Seq<char> {
    match role {
        Role::Character => "character"@,
        Role::Item => "item"@,
        Role::Merchant => "merchant"@,
        Role::ItemOrSpellbook => "item or spellbook"@,
        Role::Potion => "potion"@,
        Role::Zombie => "zombie"@,
        Role::CharacterOrZombie => "character or zombie"@,
        Role::Spellbook => "spellbook"@,
    }
}

/// How a role is called in a message, as a static text.
pub fn role_name(role: Role) -> (r: &'static str)
    ensures
        r@ == role_text(role),
{
    match role {
        Role::Character => "character",
        Role::Item => "item",
        Role::Merchant => "merchant",
        Role::ItemOrSpellbook => "item or spellbook",
        Role::Potion => "potion",
        Role::Zombie => "zombie",
        Role::CharacterOrZombie => "character or zombie",
        Role::Spellbook => "spellbook",
    }
}

/// What stands before the name in the message about a number.
pub open spec fn number_owner_text(number: Number) -> Seq<char> {
    match number {
        Number::CharHealth => "Character "@,
        Number::CharAttack => "Character "@,
        Number::ZombieHealth => "Zombie "@,
        Number::ZombieAttack => "Zombie "@,
        Number::PotionValue => "Potion "@,
    }
}

/// What stands behind the name in the message about a number.
pub open spec fn number_help_text(number: Number) -> Seq<char> {
    match number {
        Number::CharHealth => " has an invalid value for its health.\nHELP: Characters can only have non-negative health. Their health must be an unsigned 32-bit integer."@,
        Number::CharAttack => " has an invalid value for its attack.\nHELP: Attack must be non-negative. Attack is an unsigned 32-bit integer."@,
        Number::ZombieHealth => " has an invalid value for its health.\nHELP: Make sure you have put in an integer. Zombie's health are signed 32-bit integers."@,
        Number::ZombieAttack => " has an invalid value for its attack.\nHELP: Attack must be non-negative. Attack is an unsigned 32-bit integer."@,
        Number::PotionValue => " has an invalid value for its healing value.\nHELP: Potions can only have non-negative healing values. Their value must be an unsigned 32-bit integer."@,
    }
}

/// The message for an error of the parser.
pub open spec fn parse_error_text(e: ParseErrorView) -> Seq<char> {
    match e {
        ParseErrorView::UnexpectedEnd { expected } => "Expected token type "@ + expected.name() + " but got none"@,
        ParseErrorView::UnexpectedToken { expected, found } => "Expected token type "@ + expected.name() + " but got "@ + found.name(),
        ParseErrorView::BadStatementStart { found } => "Unexpected token type at beginning of statement: "@ + found.name(),
        ParseErrorView::MissingAction { name } => "Expected an action after identifier "@ + name + ", but got none."@,
        ParseErrorView::CastingAlone => "Casting can not be used on its own. It has to be used alongside a `uses` action."@,
        ParseErrorView::BadAction { name, found } => "Expected an action after identifier "@ + name + ", but got "@ + found.name(),
        ParseErrorView::MissingSpell => "Expected a spell after `casting`, but got none."@,
        ParseErrorView::BadSpell { found } => "Invalid spellbook spell: "@ + found.name(),
        ParseErrorView::MissingEnd => "Expected time warp loop to end with `end`, but got none."@,
        ParseErrorView::UnboundName { name, role } => "No "@ + role_text(role) + " "@ + name + " exists.\nHINT: Define the "@ + role_text(role) + " before you use it."@,
        ParseErrorView::TooManyIds => "Too many statements: no identifier is left to give out."@,
        ParseErrorView::BadNumber { number, name, .. } => number_owner_text(number) + name
            + number_help_text(number),
    }
}

/// What is wrong with a text that is no number.
pub open spec fn number_fault_text(fault: NumberFault) -> Seq<char> {
    match fault {
        NumberFault::Empty => "cannot parse integer from empty string"@,
        NumberFault::InvalidDigit => "invalid digit found in string"@,
        NumberFault::TooLarge => "number too large to fit in target type"@,
        NumberFault::TooSmall => "number too small to fit in target type"@,
    }
}

impl NumberFault {
    /// What is wrong with the text, as a static text.
    pub fn as_str(&self) -> (r: &'static str)
        ensures
            r@ == number_fault_text(*self),
    {
        match self {
            NumberFault::Empty => "cannot parse integer from empty string",
            NumberFault::InvalidDigit => "invalid digit found in string",
            NumberFault::TooLarge => "number too large to fit in target type",
            NumberFault::TooSmall => "number too small to fit in target type",
        }
    }
}

/// The cause of an error of the parser, where there is more to tell than
/// its message does: what is wrong with a text that is no number.
pub open spec fn parse_error_cause(e: ParseErrorView) -> Option<Seq<char>> {
    match e {
        ParseErrorView::BadNumber { fault, .. } => Some(number_fault_text(fault)),
        _ => None,
    }
}

impl ParseError {
    /// The message for this error.
    pub fn message(&self) -> (r: String)
        ensures
            r@ == parse_error_text(self@),
    {
        let mut out = String::new();
        match self {
            ParseError::UnexpectedEnd { expected } => {
                out.append("Expected token type ");
                out.append(expected.as_str());
                out.append(" but got none");
            },
            ParseError::UnexpectedToken { expected, found } => {
                out.append("Expected token type ");
                out.append(expected.as_str());
                out.append(" but got ");
                out.append(found.as_str());
            },
            ParseError::BadStatementStart { found } => {
                out.append("Unexpected token type at beginning of statement: ");
                out.append(found.as_str());
            },
            ParseError::MissingAction { name } => {
                out.append("Expected an action after identifier ");
                out.append(name.as_str());
                out.append(", but got none.");
            },
            ParseError::CastingAlone => {
                out.append("Casting can not be used on its own. It has to be used alongside a `uses` action.");
            },
            ParseError::BadAction { name, found } => {
                out.append("Expected an action after identifier ");
                out.append(name.as_str());
                out.append(", but got ");
                out.append(found.as_str());
            },
            ParseError::MissingSpell => {
                out.append("Expected a spell after `casting`, but got none.");
            },
            ParseError::BadSpell { found } => {
                out.append("Invalid spellbook spell: ");
                out.append(found.as_str());
            },
            ParseError::MissingEnd => {
                out.append("Expected time warp loop to end with `end`, but got none.");
            },
            ParseError::UnboundName { name, role } => {
                out.append("No ");
                out.append(role_name(*role));
                out.append(" ");
                out.append(name.as_str());
                out.append(" exists.\nHINT: Define the ");
                out.append(role_name(*role));
                out.append(" before you use it.");
            },
            ParseError::TooManyIds => {
                out.append("Too many statements: no identifier is left to give out.");
            },
            ParseError::BadNumber { number, name, .. } => {
                match number {
                    Number::CharHealth => {
                        out.append("Character ");
                        out.append(name.as_str());
                        out.append(" has an invalid value for its health.\nHELP: Characters can only have non-negative health. Their health must be an unsigned 32-bit integer.");
                    },
                    Number::CharAttack => {
                        out.append("Character ");
                        out.append(name.as_str());
                        out.append(" has an invalid value for its attack.\nHELP: Attack must be non-negative. Attack is an unsigned 32-bit integer.");
                    },
                    Number::ZombieHealth => {
                        out.append("Zombie ");
                        out.append(name.as_str());
                        out.append(" has an invalid value for its health.\nHELP: Make sure you have put in an integer. Zombie's health are signed 32-bit integers.");
                    },
                    Number::ZombieAttack => {
                        out.append("Zombie ");
                        out.append(name.as_str());
                        out.append(" has an invalid value for its attack.\nHELP: Attack must be non-negative. Attack is an unsigned 32-bit integer.");
                    },
                    Number::PotionValue => {
                        out.append("Potion ");
                        out.append(name.as_str());
                        out.append(" has an invalid value for its healing value.\nHELP: Potions can only have non-negative healing values. Their value must be an unsigned 32-bit integer.");
                    },
                }
            },
        }
        assert(out@ =~= parse_error_text(self@));
        out
    }

    /// The cause of this error, where there is more to tell than its
    /// message does.
    pub fn cause(&self) -> (r: Option<String>)
        ensures
            match parse_error_cause(self@) {
                Some(text) => r is Some && r->Some_0@ == text,
                None => r is None,
            },
    {
        match self {
            ParseError::BadNumber { fault, .. } => Some(String::from_str(fault.as_str())),
            _ => None,
        }
    }
}

/// The message for a fault of typing.
pub open spec fn type_error_text(e: TypeError) -> Seq<char> {
    match e {
        TypeError::NotFound { statement: NodeType::FnBuys, operand: Operand::User } => "Actor that is trying to buy not found."@,
        TypeError::NotFound { statement: NodeType::FnBuys, operand: Operand::Item } => "Item you are trying to buy was not found."@,
        TypeError::NotFound { statement: NodeType::FnBuys, operand: Operand::Merchant } => "No merchant found while buying."@,
        TypeError::WrongKind { statement: NodeType::FnBuys, operand: Operand::User, .. } => "The one buying must be an actor."@,
        TypeError::WrongKind { statement: NodeType::FnBuys, operand: Operand::Item, .. } => "Only potions and spellbooks can be bought from a merchant."@,
        TypeError::WrongKind { statement: NodeType::FnBuys, operand: Operand::Merchant, .. } => "Only merchants can sell items."@,
        TypeError::NotFound { statement: NodeType::FnAttacks, operand: Operand::Attacked } => "Actor being attacked could not be found."@,
        TypeError::NotFound { statement: NodeType::FnAttacks, operand: Operand::Attacker } => "Attacking actor could not be found."@,
        TypeError::WrongKind { statement: NodeType::FnAttacks, operand: Operand::Attacked, .. } => "The one being attacked is not an actor."@,
        TypeError::WrongKind { statement: NodeType::FnAttacks, operand: Operand::Attacker, .. } => "The one attacking is not an actor."@,
        TypeError::NotFound { statement: NodeType::FnUses, operand: Operand::User } => "The actor using the potion was not defined."@,
        TypeError::NotFound { statement: NodeType::FnUses, operand: Operand::Item } => "The potion being used was not defined."@,
        TypeError::WrongKind { statement: NodeType::FnUses, operand: Operand::User, .. } => "The user of the potion is not an actor."@,
        TypeError::WrongKind { statement: NodeType::FnUses, operand: Operand::Item, .. } => "The item being used is not a potion."@,
        TypeError::NotFound { statement: NodeType::FnShouts, operand: Operand::User } => "The actor shouting was not defined."@,
        TypeError::WrongKind { statement: NodeType::FnShouts, operand: Operand::User, .. } => "The one shouting is not an actor."@,
        TypeError::NotFound { statement: NodeType::FnWhispers, operand: Operand::User } => "The actor shouting was not defined."@,
        TypeError::WrongKind { statement: NodeType::FnWhispers, operand: Operand::User, .. } => "The one shouting is not an actor."@,
        TypeError::NotFound { statement: NodeType::FnShoutsSpeak, operand: Operand::User } => "The actor shouting was not defined."@,
        TypeError::NotFound { statement: NodeType::FnShoutsSpeak, operand: Operand::SpellBook } => "The spellbook used for speaking was not defined."@,
        TypeError::WrongKind { statement: NodeType::FnShoutsSpeak, operand: Operand::User, .. } => "The one shouting is not an actor."@,
        TypeError::WrongKind { statement: NodeType::FnShoutsSpeak, operand: Operand::SpellBook, .. } => "The actor is not using a spellbook to shout."@,
        TypeError::NotFound { statement: NodeType::FnWhispersSpeak, operand: Operand::User } => "The actor shouting was not defined."@,
        TypeError::NotFound { statement: NodeType::FnWhispersSpeak, operand: Operand::SpellBook } => "The spellbook used for speaking was not defined."@,
        TypeError::WrongKind { statement: NodeType::FnWhispersSpeak, operand: Operand::User, .. } => "The one shouting is not an actor."@,
        TypeError::WrongKind { statement: NodeType::FnWhispersSpeak, operand: Operand::SpellBook, .. } => "The actor is not using a spellbook to shout."@,
        TypeError::NotFound { statement: NodeType::FnUsesCasting, operand: Operand::User } => "The actor casting the spell was not defined."@,
        TypeError::NotFound { statement: NodeType::FnUsesCasting, operand: Operand::SpellBook } => "The spellbook of the spell was not defined."@,
        TypeError::NotFound { statement: NodeType::FnUsesCasting, operand: Operand::Target } => "The target of the spell was not defined."@,
        TypeError::NotFound { .. } => "A part of a statement was not defined."@,
        TypeError::WrongKind { .. } => "A part of a statement is of the wrong kind."@,
    }
}

impl TypeError {
    /// The message for this fault, as a static text.
    pub fn as_str(&self) -> (r: &'static str)
        ensures
            r@ == type_error_text(*self),
    {
        match self {
            TypeError::NotFound { statement: NodeType::FnBuys, operand: Operand::User } => "Actor that is trying to buy not found.",
            TypeError::NotFound { statement: NodeType::FnBuys, operand: Operand::Item } => "Item you are trying to buy was not found.",
            TypeError::NotFound { statement: NodeType::FnBuys, operand: Operand::Merchant } => "No merchant found while buying.",
            TypeError::WrongKind { statement: NodeType::FnBuys, operand: Operand::User, .. } => "The one buying must be an actor.",
            TypeError::WrongKind { statement: NodeType::FnBuys, operand: Operand::Item, .. } => "Only potions and spellbooks can be bought from a merchant.",
            TypeError::WrongKind { statement: NodeType::FnBuys, operand: Operand::Merchant, .. } => "Only merchants can sell items.",
            TypeError::NotFound { statement: NodeType::FnAttacks, operand: Operand::Attacked } => "Actor being attacked could not be found.",
            TypeError::NotFound { statement: NodeType::FnAttacks, operand: Operand::Attacker } => "Attacking actor could not be found.",
            TypeError::WrongKind { statement: NodeType::FnAttacks, operand: Operand::Attacked, .. } => "The one being attacked is not an actor.",
            TypeError::WrongKind { statement: NodeType::FnAttacks, operand: Operand::Attacker, .. } => "The one attacking is not an actor.",
            TypeError::NotFound { statement: NodeType::FnUses, operand: Operand::User } => "The actor using the potion was not defined.",
            TypeError::NotFound { statement: NodeType::FnUses, operand: Operand::Item } => "The potion being used was not defined.",
            TypeError::WrongKind { statement: NodeType::FnUses, operand: Operand::User, .. } => "The user of the potion is not an actor.",
            TypeError::WrongKind { statement: NodeType::FnUses, operand: Operand::Item, .. } => "The item being used is not a potion.",
            TypeError::NotFound { statement: NodeType::FnShouts, operand: Operand::User } => "The actor shouting was not defined.",
            TypeError::WrongKind { statement: NodeType::FnShouts, operand: Operand::User, .. } => "The one shouting is not an actor.",
            TypeError::NotFound { statement: NodeType::FnWhispers, operand: Operand::User } => "The actor shouting was not defined.",
            TypeError::WrongKind { statement: NodeType::FnWhispers, operand: Operand::User, .. } => "The one shouting is not an actor.",
            TypeError::NotFound { statement: NodeType::FnShoutsSpeak, operand: Operand::User } => "The actor shouting was not defined.",
            TypeError::NotFound { statement: NodeType::FnShoutsSpeak, operand: Operand::SpellBook } => "The spellbook used for speaking was not defined.",
            TypeError::WrongKind { statement: NodeType::FnShoutsSpeak, operand: Operand::User, .. } => "The one shouting is not an actor.",
            TypeError::WrongKind { statement: NodeType::FnShoutsSpeak, operand: Operand::SpellBook, .. } => "The actor is not using a spellbook to shout.",
            TypeError::NotFound { statement: NodeType::FnWhispersSpeak, operand: Operand::User } => "The actor shouting was not defined.",
            TypeError::NotFound { statement: NodeType::FnWhispersSpeak, operand: Operand::SpellBook } => "The spellbook used for speaking was not defined.",
            TypeError::WrongKind { statement: NodeType::FnWhispersSpeak, operand: Operand::User, .. } => "The one shouting is not an actor.",
            TypeError::WrongKind { statement: NodeType::FnWhispersSpeak, operand: Operand::SpellBook, .. } => "The actor is not using a spellbook to shout.",
            TypeError::NotFound { statement: NodeType::FnUsesCasting, operand: Operand::User } => "The actor casting the spell was not defined.",
            TypeError::NotFound { statement: NodeType::FnUsesCasting, operand: Operand::SpellBook } => "The spellbook of the spell was not defined.",
            TypeError::NotFound { statement: NodeType::FnUsesCasting, operand: Operand::Target } => "The target of the spell was not defined.",
            TypeError::NotFound { .. } => "A part of a statement was not defined.",
            TypeError::WrongKind { .. } => "A part of a statement is of the wrong kind.",
        }
    }

    /// The message for this fault.
    pub fn message(&self) -> (r: String)
        ensures
            r@ == type_error_text(*self),
    {
        String::from_str(self.as_str())
    }
}

/// The message for a statement without text.
pub open spec fn generate_error_text(e: GenerateError) -> Seq<char> {
    match e {
        GenerateError::MissingParameter { function: SBFunction::UnZombify } => "Un_zombify called without zombie parameter."@,
        GenerateError::MissingParameter { function: SBFunction::Confuse } => "Confuse called without parameter."@,
        GenerateError::MissingParameter { function: SBFunction::TimeWarp } => "Expected a parameter for spell `time_warp`."@,
        GenerateError::MissingParameter { function: SBFunction::CreatePot } => "Create_potion called without potion parameter."@,
        GenerateError::MissingParameter { .. } => "A spell was called without its parameter."@,
        GenerateError::MissingBody => "Unkown error: expected body, but was empty."@,
    }
}

impl GenerateError {
    /// The message for this error, as a static text.
    pub fn as_str(&self) -> (r: &'static str)
        ensures
            r@ == generate_error_text(*self),
    {
        match self {
            GenerateError::MissingParameter { function: SBFunction::UnZombify } => "Un_zombify called without zombie parameter.",
            GenerateError::MissingParameter { function: SBFunction::Confuse } => "Confuse called without parameter.",
            GenerateError::MissingParameter { function: SBFunction::TimeWarp } => "Expected a parameter for spell `time_warp`.",
            GenerateError::MissingParameter { function: SBFunction::CreatePot } => "Create_potion called without potion parameter.",
            GenerateError::MissingParameter { .. } => "A spell was called without its parameter.",
            GenerateError::MissingBody => "Unkown error: expected body, but was empty.",
        }
    }

    /// The message for this error.
    pub fn message(&self) -> (r: String)
        ensures
            r@ == generate_error_text(*self),
    {
        String::from_str(self.as_str())
    }
}

/// The message for a failed compilation.
pub open spec fn compile_error_text(e: CompileErrorView) -> Seq<char> {
    match e {
        CompileErrorView::Lex(found) => "Unexpected token: found "@ + found,
        CompileErrorView::Parse(e) => parse_error_text(e),
        CompileErrorView::Type(e) => type_error_text(e),
        CompileErrorView::Generate(e) => generate_error_text(e),
    }
}

/// The cause of a failed compilation, where there is more to tell than
/// its message does.
pub open spec fn compile_error_cause(e: CompileErrorView) -> Option<Seq<char>> {
    match e {
        CompileErrorView::Parse(e) => parse_error_cause(e),
        _ => None,
    }
}

/// The message for a failed compilation as a user sees it: with its cause
/// below it where `verbose` asks for that and there is one.
pub open spec fn report_text(e: CompileErrorView, verbose: bool) -> Seq<char> {
    match compile_error_cause(e) {
        Some(cause) => if verbose {
            compile_error_text(e) + "\n== VERBOSE OUTPUT ==\n"@ + cause
        } else {
            compile_error_text(e)
        },
        None => compile_error_text(e),
    }
}

impl CompileError {
    /// The message for this failure.
    pub fn message(&self) -> (r: String)
        ensures
            r@ == compile_error_text(self@),
    {
        match self {
            CompileError::Lex(e) => e.message(),
            CompileError::Parse(e) => e.message(),
            CompileError::Type(e) => e.message(),
            CompileError::Generate(e) => e.message(),
        }
    }

    /// The message for this failure as a user sees it: with its cause
    /// below it where `verbose` asks for that and there is one.
    pub fn report(&self, verbose: bool) -> (r: String)
        ensures
            r@ == report_text(self@, verbose),
    {
        let mut out = self.message();
        if verbose {
            let cause = match self {
                CompileError::Parse(e) => e.cause(),
                _ => None,
            };
            match cause {
                Some(text) => {
                    out.append("\n== VERBOSE OUTPUT ==\n");
                    out.append(text.as_str());
                },
                None => {},
            }
        }
        out
    }
}

} // verus!
