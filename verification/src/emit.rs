//! The text of the program that a script is compiled to, piece by piece.
//!
//! Every kind of statement has a fixed text with the identifiers of its
//! operands filled in. The support code that all programs share stands in
//! front of them.

use crate::text::{decimal, push_decimal, push_signed_decimal, signed_decimal};
use vstd::prelude::*;

verus! {

/// The support code of every program: actors, items, the game, and what
/// they can do.
pub const STD_CODE: &'static str = "#![allow(unused)]\nuse std::io::{stdin,stdout,Write};\nuse std::fmt::{Formatter, Display};\nmacro_rules! red {\n    ( $str: tt ) => ({\n        &format!(\"\x1b[31m{}\x1b[0m\", $str)\n    });\n    ( $other: expr) => ({\n        &format!(\"\x1b[31m{}\x1b[0m\", $other)\n    })\n}\nmacro_rules! blue {\n    ( $str: tt ) => ({\n        &format!(\"\x1b[34m{}\x1b[0m\", $str)\n    });\n    ( $other: expr) => ({\n        &format!(\"\x1b[34m{}\x1b[0m\", $other)\n    })\n}\nmacro_rules! cyan {\n    ( $str: tt ) => ({\n        &format!(\"\x1b[36m{}\x1b[0m\", $str)\n    });\n    ( $other: expr) => ({\n        &format!(\"\x1b[36m{}\x1b[0m\", $other)\n    })\n}\nmacro_rules! runtime_error {\n    ($( $arg: tt)*) => ({\n        let s = format!($($arg)*);\n        eprintln!(\"{}\n{}\", cyan!(\"Runtime error\"), red!(s));\n        std::process::exit(1)\n    })\n}\n#[derive(Clone)]\n/// Either a char or a zombie\nstruct Actor<'a> {\n    id: u32,\n    /// Can derive actor type using `health`\n    health: ActorHealth,\n    attack: u32,\n    items: Vec<&'a Item>,\n    confused: bool\n}\nimpl<'a> Actor<'a> {\n    fn new(id: u32, h: ActorHealth, a: u32) -> Actor<'a> { Actor { id, health: h, attack: a, items: Vec::new(), confused: false } }\n    fn attacked(&mut self, val: u32, game: &mut Game) { self.health.attacked(val, self.id, game) }\n    fn heal(&mut self, val: u32) { self.health.heal(val) }\n    /// Deprecated\n    fn validate_actor(&self) -> bool { if let ActorHealth::Char(val) = self.health { return val != (0 as u32); } else { return true; } }\n    fn health(&self) -> ActorHealth {\n        if self.confused {\n            if let ActorHealth::Char(v) = self.health {\n                return ActorHealth::Char(v-1);\n            } else if let ActorHealth::Zombie(v) = self.health {\n                return ActorHealth::Zombie(v-1);\n            } else {\n                runtime_error!(\"This well never happen.\");\n            }\n        } else {\n            return self.health;\n        }\n    }\n}\nstruct Merchant;\n#[derive(Clone, Copy)]\nenum ActorHealth {\n    Char(u32),\n    Zombie(i32)\n}\nimpl ActorHealth {\n    fn attacked(&mut self, a: u32, actor_id: u32, game: &mut Game) {\n        match self {\n            Self::Char(val) => {\n                if *val == 0 {\n                    println!(\"Stop beating a dead corpse.\");\n                } else if *val <= a {\n                    *val = 0;\n                    let index_of_dead_actor = game.alive.iter().enumerate().find_map(|(index, act)| {\n                        if act == &actor_id {\n                            Some(index)\n                        } else {\n                            None\n                        }\n                    });\n                    game.alive.remove(index_of_dead_actor.unwrap_or_else(|| runtime_error!(\"The now deceased actor was never alive in the first place.\")));\n                } else {\n                    *val -= a;\n                }\n            }\n            Self::Zombie(val) => {\n                *val -= a as i32;\n            }\n        }\n    }\n    fn heal(&mut self, h: u32) {\n        match self {\n            Self::Char(val) => {\n                if *val == 0 {\n                    runtime_error!(\"Cannot heal a dead actor.\");\n                } else {\n                    *val += h;\n                }\n            }\n            Self::Zombie(val) => {\n                *val += h as i32;\n            }\n        }\n    }\n}\n#[derive(Clone, Copy, PartialEq)]\nenum Item {\n    /// (id, healing_value)\n    Potion(u32,u32),\n    SpellBook\n}\nimpl Item {\n    fn set_val(&mut self, v: u32) {\n        match self {\n            Self::Potion(_, val) => {*val=v}\n            Self::SpellBook => {runtime_error!(\"Spellbooks don't have values.\")}\n        }\n    }\n}\nimpl Display for ActorHealth {\n    fn fmt(&self, f: &mut Formatter<'_>) -> std::fmt::Result {\n        match self {\n            ActorHealth::Char(val) => write!(f, \"{}\", val),\n            ActorHealth::Zombie(val) => write!(f, \"{}\", val)\n        }\n    }\n}\nstruct Game {\n    alive: Vec<u32>,\n    max_chars: usize\n}\nimpl Game {\n    fn add_actor(&mut self, actor: u32) {\n        self.alive.push(actor);\n        if self.alive.len() > self.max_chars {\n           // Runtime error\n           let s = &format!(\"Your actors exceeded the maximum amount of actors allowed ({})\", self.max_chars);\n           eprintln!(\"{}\n{}\", cyan!(\"Runtime error\"), red!(s));\n           println!(\"{} Actors alive: {:?}\", blue!(\"HINT:\"), self.alive);\n           std::process::exit(1)\n        }\n    }\n    fn rm_actor(&mut self, id: u32) {\n        let i = self.alive.iter().enumerate().find_map(|(i,a)| {if a == &id {Some(i)}else{None}});\n        if let Some(i) = i {\n            self.alive.remove(i);\n        }\n    }\n}";

/// The declaration of a character.
pub open spec fn char_text(id: usize, health: u32, attack: u32) -> Seq<char> {
    "let mut i"@
        + decimal(id as nat)
        + " = Actor::new("@
        + decimal(id as nat)
        + ",ActorHealth::Char("@
        + decimal(health as nat)
        + "),"@
        + decimal(attack as nat)
        + "); game.add_actor(i"@
        + decimal(id as nat)
        + ".id);"@
}

/// Appends [`char_text`] to `out`.
pub fn push_char_text(out: &mut String, id: usize, health: u32, attack: u32)
    ensures
        final(out)@ == old(out)@ + char_text(id, health, attack),
{
    out.append("let mut i");
    push_decimal(out, id as u64);
    out.append(" = Actor::new(");
    push_decimal(out, id as u64);
    out.append(",ActorHealth::Char(");
    push_decimal(out, health as u64);
    out.append("),");
    push_decimal(out, attack as u64);
    out.append("); game.add_actor(i");
    push_decimal(out, id as u64);
    out.append(".id);");
    assert(final(out)@ =~= old(out)@ + char_text(id, health, attack));
}

/// The declaration of a zombie.
pub open spec fn zombie_text(id: usize, health: i32, attack: u32) -> Seq<char> {
    "let mut i"@
        + decimal(id as nat)
        + " = Actor::new("@
        + decimal(id as nat)
        + ",ActorHealth::Zombie("@
        + signed_decimal(health as int)
        + "), "@
        + decimal(attack as nat)
        + "); game.add_actor(i"@
        + decimal(id as nat)
        + ".id);"@
}

/// Appends [`zombie_text`] to `out`.
pub fn push_zombie_text(out: &mut String, id: usize, health: i32, attack: u32)
    ensures
        final(out)@ == old(out)@ + zombie_text(id, health, attack),
{
    out.append("let mut i");
    push_decimal(out, id as u64);
    out.append(" = Actor::new(");
    push_decimal(out, id as u64);
    out.append(",ActorHealth::Zombie(");
    push_signed_decimal(out, health as i64);
    out.append("), ");
    push_decimal(out, attack as u64);
    out.append("); game.add_actor(i");
    push_decimal(out, id as u64);
    out.append(".id);");
    assert(final(out)@ =~= old(out)@ + zombie_text(id, health, attack));
}

/// The declaration of a merchant.
pub open spec fn merchant_text(id: usize) -> Seq<char> {
    "let i"@
        + decimal(id as nat)
        + " = Merchant{};"@
}

/// Appends [`merchant_text`] to `out`.
pub fn push_merchant_text(out: &mut String, id: usize)
    ensures
        final(out)@ == old(out)@ + merchant_text(id),
{
    out.append("let i");
    push_decimal(out, id as u64);
    out.append(" = Merchant{};");
    assert(final(out)@ =~= old(out)@ + merchant_text(id));
}

/// The declaration of a potion.
pub open spec fn potion_text(id: usize, value: u32) -> Seq<char> {
    "let i"@
        + decimal(id as nat)
        + " = Item::Potion("@
        + decimal(id as nat)
        + ","@
        + decimal(value as nat)
        + ");"@
}

/// Appends [`potion_text`] to `out`.
pub fn push_potion_text(out: &mut String, id: usize, value: u32)
    ensures
        final(out)@ == old(out)@ + potion_text(id, value),
{
    out.append("let i");
    push_decimal(out, id as u64);
    out.append(" = Item::Potion(");
    push_decimal(out, id as u64);
    out.append(",");
    push_decimal(out, value as u64);
    out.append(");");
    assert(final(out)@ =~= old(out)@ + potion_text(id, value));
}

/// The declaration of a spellbook.
pub open spec fn spellbook_text(id: usize) -> Seq<char> {
    "let i"@
        + decimal(id as nat)
        + " = Item::SpellBook;"@
}

/// Appends [`spellbook_text`] to `out`.
pub fn push_spellbook_text(out: &mut String, id: usize)
    ensures
        final(out)@ == old(out)@ + spellbook_text(id),
{
    out.append("let i");
    push_decimal(out, id as u64);
    out.append(" = Item::SpellBook;");
    assert(final(out)@ =~= old(out)@ + spellbook_text(id));
}

/// An actor buys an item: it goes to the inventory of the buyer, who has
/// to be alive.
pub open spec fn buys_text(user: usize, item: usize) -> Seq<char> {
    "if game.alive.contains(&"@
        + decimal(user as nat)
        + ") { i"@
        + decimal(user as nat)
        + ".items.push(&i"@
        + decimal(item as nat)
        + "); } else { runtime_error!(\"Cannot add an item to the inventory of a dead actor.\") }"@
}

/// Appends [`buys_text`] to `out`.
pub fn push_buys_text(out: &mut String, user: usize, item: usize)
    ensures
        final(out)@ == old(out)@ + buys_text(user, item),
{
    out.append("if game.alive.contains(&");
    push_decimal(out, user as u64);
    out.append(") { i");
    push_decimal(out, user as u64);
    out.append(".items.push(&i");
    push_decimal(out, item as u64);
    out.append("); } else { runtime_error!(\"Cannot add an item to the inventory of a dead actor.\") }");
    assert(final(out)@ =~= old(out)@ + buys_text(user, item));
}

/// An actor, who has to be alive, attacks another.
pub open spec fn attacks_text(attacker: usize, attacked: usize) -> Seq<char> {
    "if game.alive.contains(&"@
        + decimal(attacker as nat)
        + ") { i"@
        + decimal(attacked as nat)
        + ".attacked(i"@
        + decimal(attacker as nat)
        + ".attack, &mut game); } else { runtime_error!(\"A dead actor cannot attack.\") }"@
}

/// Appends [`attacks_text`] to `out`.
pub fn push_attacks_text(out: &mut String, attacker: usize, attacked: usize)
    ensures
        final(out)@ == old(out)@ + attacks_text(attacker, attacked),
{
    out.append("if game.alive.contains(&");
    push_decimal(out, attacker as u64);
    out.append(") { i");
    push_decimal(out, attacked as u64);
    out.append(".attacked(i");
    push_decimal(out, attacker as u64);
    out.append(".attack, &mut game); } else { runtime_error!(\"A dead actor cannot attack.\") }");
    assert(final(out)@ =~= old(out)@ + attacks_text(attacker, attacked));
}

/// An actor uses a potion: it heals them and leaves their inventory.
pub open spec fn uses_text(user: usize, item: usize) -> Seq<char> {
    "if let Item::Potion(_, heal) = i"@
        + decimal(item as nat)
        + " { if game.alive.contains(&"@
        + decimal(user as nat)
        + ") { i"@
        + decimal(user as nat)
        + ".heal(heal);let item_index = i"@
        + decimal(user as nat)
        + ".items.iter().enumerate().find_map(|(i, p)| {\n                        let mut _val = None;\n                        if let Item::Potion(id,val) = p {if &"@
        + decimal(item as nat)
        + " == id {_val = Some(i);} else {_val = None;} }\n                        _val\n                    });\n                    i"@
        + decimal(user as nat)
        + ".items.remove(item_index.expect(\"The actor does not own the potion it is trying to use.\"));\n                    }}"@
}

/// Appends [`uses_text`] to `out`.
pub fn push_uses_text(out: &mut String, user: usize, item: usize)
    ensures
        final(out)@ == old(out)@ + uses_text(user, item),
{
    out.append("if let Item::Potion(_, heal) = i");
    push_decimal(out, item as u64);
    out.append(" { if game.alive.contains(&");
    push_decimal(out, user as u64);
    out.append(") { i");
    push_decimal(out, user as u64);
    out.append(".heal(heal);let item_index = i");
    push_decimal(out, user as u64);
    out.append(".items.iter().enumerate().find_map(|(i, p)| {\n                        let mut _val = None;\n                        if let Item::Potion(id,val) = p {if &");
    push_decimal(out, item as u64);
    out.append(" == id {_val = Some(i);} else {_val = None;} }\n                        _val\n                    });\n                    i");
    push_decimal(out, user as u64);
    out.append(".items.remove(item_index.expect(\"The actor does not own the potion it is trying to use.\"));\n                    }}");
    assert(final(out)@ =~= old(out)@ + uses_text(user, item));
}

/// An actor shouts: their health is printed with a line end.
pub open spec fn shouts_text(user: usize) -> Seq<char> {
    "if !game.alive.contains(&"@
        + decimal(user as nat)
        + ") { runtime_error!(\"Dead actors can't shout.\") } else { println!(\"{}\", i"@
        + decimal(user as nat)
        + ".clone().health()); }"@
}

/// Appends [`shouts_text`] to `out`.
pub fn push_shouts_text(out: &mut String, user: usize)
    ensures
        final(out)@ == old(out)@ + shouts_text(user),
{
    out.append("if !game.alive.contains(&");
    push_decimal(out, user as u64);
    out.append(") { runtime_error!(\"Dead actors can't shout.\") } else { println!(\"{}\", i");
    push_decimal(out, user as u64);
    out.append(".clone().health()); }");
    assert(final(out)@ =~= old(out)@ + shouts_text(user));
}

/// An actor shouts through a spellbook: their health is printed as a
/// character, with a line end.
pub open spec fn shouts_speak_text(user: usize, spell_book: usize) -> Seq<char> {
    "if !i"@
        + decimal(user as nat)
        + ".items.contains(&&i"@
        + decimal(spell_book as nat)
        + ") { runtime_error!(\"The spell cannot be called, because the caster doesn't own a spellbook.\") };if !game.alive.contains(&"@
        + decimal(user as nat)
        + ") { runtime_error!(\"Dead actors can't shout.\") } else if let ActorHealth::Char(val) = i"@
        + decimal(user as nat)
        + ".health() { println!(\"{}\", (val as u8) as char); } else { runtime_error!(\"Wrong type, only characters can shout speak.\") }"@
}

/// Appends [`shouts_speak_text`] to `out`.
pub fn push_shouts_speak_text(out: &mut String, user: usize, spell_book: usize)
    ensures
        final(out)@ == old(out)@ + shouts_speak_text(user, spell_book),
{
    out.append("if !i");
    push_decimal(out, user as u64);
    out.append(".items.contains(&&i");
    push_decimal(out, spell_book as u64);
    out.append(") { runtime_error!(\"The spell cannot be called, because the caster doesn't own a spellbook.\") };if !game.alive.contains(&");
    push_decimal(out, user as u64);
    out.append(") { runtime_error!(\"Dead actors can't shout.\") } else if let ActorHealth::Char(val) = i");
    push_decimal(out, user as u64);
    out.append(".health() { println!(\"{}\", (val as u8) as char); } else { runtime_error!(\"Wrong type, only characters can shout speak.\") }");
    assert(final(out)@ =~= old(out)@ + shouts_speak_text(user, spell_book));
}

/// An actor whispers: their health is printed.
pub open spec fn whispers_text(user: usize) -> Seq<char> {
    "if !i"@
        + decimal(user as nat)
        + ".validate_actor() { runtime_error!(\"Dead actors can't shout.\") } print!(\"{}\", i"@
        + decimal(user as nat)
        + ".health());"@
}

/// Appends [`whispers_text`] to `out`.
pub fn push_whispers_text(out: &mut String, user: usize)
    ensures
        final(out)@ == old(out)@ + whispers_text(user),
{
    out.append("if !i");
    push_decimal(out, user as u64);
    out.append(".validate_actor() { runtime_error!(\"Dead actors can't shout.\") } print!(\"{}\", i");
    push_decimal(out, user as u64);
    out.append(".health());");
    assert(final(out)@ =~= old(out)@ + whispers_text(user));
}

/// An actor whispers through a spellbook: their health is printed as a
/// character.
pub open spec fn whispers_speak_text(user: usize, spell_book: usize) -> Seq<char> {
    "if !i"@
        + decimal(user as nat)
        + ".items.contains(&&i"@
        + decimal(spell_book as nat)
        + ") { runtime_error!(\"The spell cannot be called, because the caster doesn't own a spellbook.\") }; if !i"@
        + decimal(user as nat)
        + ".validate_actor() { runtime_error!(\"Dead actors can't shout.\") } else if let ActorHealth::Char(val) = i"@
        + decimal(user as nat)
        + ".health() { print!(\"{}\", (val as u8) as char); } else { runtime_error!(\"Wrong type, only characters can whisper speak.\") }"@
}

/// Appends [`whispers_speak_text`] to `out`.
pub fn push_whispers_speak_text(out: &mut String, user: usize, spell_book: usize)
    ensures
        final(out)@ == old(out)@ + whispers_speak_text(user, spell_book),
{
    out.append("if !i");
    push_decimal(out, user as u64);
    out.append(".items.contains(&&i");
    push_decimal(out, spell_book as u64);
    out.append(") { runtime_error!(\"The spell cannot be called, because the caster doesn't own a spellbook.\") }; if !i");
    push_decimal(out, user as u64);
    out.append(".validate_actor() { runtime_error!(\"Dead actors can't shout.\") } else if let ActorHealth::Char(val) = i");
    push_decimal(out, user as u64);
    out.append(".health() { print!(\"{}\", (val as u8) as char); } else { runtime_error!(\"Wrong type, only characters can whisper speak.\") }");
    assert(final(out)@ =~= old(out)@ + whispers_speak_text(user, spell_book));
}

/// The start of every cast: the caster has to own the spellbook.
pub open spec fn cast_head_text(user: usize, spell_book: usize) -> Seq<char> {
    "if !i"@
        + decimal(user as nat)
        + ".items.contains(&&i"@
        + decimal(spell_book as nat)
        + ") { runtime_error!(\"The spell cannot be called, because the caster doesn't own a spellbook.\") };"@
}

/// Appends [`cast_head_text`] to `out`.
pub fn push_cast_head_text(out: &mut String, user: usize, spell_book: usize)
    ensures
        final(out)@ == old(out)@ + cast_head_text(user, spell_book),
{
    out.append("if !i");
    push_decimal(out, user as u64);
    out.append(".items.contains(&&i");
    push_decimal(out, spell_book as u64);
    out.append(") { runtime_error!(\"The spell cannot be called, because the caster doesn't own a spellbook.\") };");
    assert(final(out)@ =~= old(out)@ + cast_head_text(user, spell_book));
}

/// The spell that turns a zombie into a character, or lets it die.
pub open spec fn un_zombify_text(id: usize) -> Seq<char> {
    "let i"@
        + decimal(id as nat)
        + " = if let ActorHealth::Zombie(h) = i"@
        + decimal(id as nat)
        + ".health {if h <= 0 { game.rm_actor("@
        + decimal(id as nat)
        + "); i"@
        + decimal(id as nat)
        + " } else { Actor::new("@
        + decimal(id as nat)
        + ", ActorHealth::Char(h as u32), i"@
        + decimal(id as nat)
        + ".attack) }} else {runtime_error!(\"Tried to call `un_zombify` on a non-zombie.\")};"@
}

/// Appends [`un_zombify_text`] to `out`.
pub fn push_un_zombify_text(out: &mut String, id: usize)
    ensures
        final(out)@ == old(out)@ + un_zombify_text(id),
{
    out.append("let i");
    push_decimal(out, id as u64);
    out.append(" = if let ActorHealth::Zombie(h) = i");
    push_decimal(out, id as u64);
    out.append(".health {if h <= 0 { game.rm_actor(");
    push_decimal(out, id as u64);
    out.append("); i");
    push_decimal(out, id as u64);
    out.append(" } else { Actor::new(");
    push_decimal(out, id as u64);
    out.append(", ActorHealth::Char(h as u32), i");
    push_decimal(out, id as u64);
    out.append(".attack) }} else {runtime_error!(\"Tried to call `un_zombify` on a non-zombie.\")};");
    assert(final(out)@ =~= old(out)@ + un_zombify_text(id));
}

/// The spell that confuses an actor.
pub open spec fn confuse_text(id: usize) -> Seq<char> {
    "i"@
        + decimal(id as nat)
        + ".confused = true;"@
}

/// Appends [`confuse_text`] to `out`.
pub fn push_confuse_text(out: &mut String, id: usize)
    ensures
        final(out)@ == old(out)@ + confuse_text(id),
{
    out.append("i");
    push_decimal(out, id as u64);
    out.append(".confused = true;");
    assert(final(out)@ =~= old(out)@ + confuse_text(id));
}

/// The spell that reads the health of the caster from the input.
pub open spec fn god_speech_text(user: usize) -> Seq<char> {
    "{let mut s = String::new();\n                            let _ = stdout().flush();\n                            stdin().read_line(&mut s).expect(\"Input invalid.\");\n                            if let Some('\\n')=s.chars().next_back() {\n                                s.pop();\n                            }\n                            if let Some('\\r')=s.chars().next_back() {\n                                s.pop();\n                            }\n                            match i"@
        + decimal(user as nat)
        + ".health {\n                                ActorHealth::Char(_) => {i"@
        + decimal(user as nat)
        + ".health = ActorHealth::Char(s.parse::<u32>().expect(\"Invalid input\"))}\n                                ActorHealth::Zombie(_) => {i"@
        + decimal(user as nat)
        + ".health = ActorHealth::Zombie(s.parse::<i32>().expect(\"Invalid input\"))}\n                            }\n                            }"@
}

/// Appends [`god_speech_text`] to `out`.
pub fn push_god_speech_text(out: &mut String, user: usize)
    ensures
        final(out)@ == old(out)@ + god_speech_text(user),
{
    out.append("{let mut s = String::new();\n                            let _ = stdout().flush();\n                            stdin().read_line(&mut s).expect(\"Input invalid.\");\n                            if let Some('\\n')=s.chars().next_back() {\n                                s.pop();\n                            }\n                            if let Some('\\r')=s.chars().next_back() {\n                                s.pop();\n                            }\n                            match i");
    push_decimal(out, user as u64);
    out.append(".health {\n                                ActorHealth::Char(_) => {i");
    push_decimal(out, user as u64);
    out.append(".health = ActorHealth::Char(s.parse::<u32>().expect(\"Invalid input\"))}\n                                ActorHealth::Zombie(_) => {i");
    push_decimal(out, user as u64);
    out.append(".health = ActorHealth::Zombie(s.parse::<i32>().expect(\"Invalid input\"))}\n                            }\n                            }");
    assert(final(out)@ =~= old(out)@ + god_speech_text(user));
}

/// The start of the spell that repeats a body while the character
/// `consumed` has health left: what stands before the body.
pub open spec fn time_warp_head_text(consumed: usize) -> Seq<char> {
    "{\n                                let mut loop_times = match &mut i"@
        + decimal(consumed as nat)
        + ".health {\n                                    ActorHealth::Char(val) => {\n                                        *val\n                                    }\n                                    ActorHealth::Zombie(val) => {runtime_error!(\"Zombies don't like loops.\")}\n                                };\n                                while loop_times != 0 {\n                                    "@
}

/// Appends [`time_warp_head_text`] to `out`.
pub fn push_time_warp_head_text(out: &mut String, consumed: usize)
    ensures
        final(out)@ == old(out)@ + time_warp_head_text(consumed),
{
    out.append("{\n                                let mut loop_times = match &mut i");
    push_decimal(out, consumed as u64);
    out.append(".health {\n                                    ActorHealth::Char(val) => {\n                                        *val\n                                    }\n                                    ActorHealth::Zombie(val) => {runtime_error!(\"Zombies don't like loops.\")}\n                                };\n                                while loop_times != 0 {\n                                    ");
    assert(final(out)@ =~= old(out)@ + time_warp_head_text(consumed));
}

/// The end of the spell that repeats a body: after each round the
/// character `consumed` loses one point of health.
pub open spec fn time_warp_tail_text(consumed: usize) -> Seq<char> {
    "\n                                    i"@
        + decimal(consumed as nat)
        + ".attacked(1, &mut game);\n                                    \n                                    loop_times =  match &mut i"@
        + decimal(consumed as nat)
        + ".health {\n                                        ActorHealth::Char(val) => {\n                                            *val\n                                        }\n                                        ActorHealth::Zombie(val) => {runtime_error!(\"Zombies don't like loops.\")}\n                                    };\n                                }\n                            }"@
}

/// Appends [`time_warp_tail_text`] to `out`.
pub fn push_time_warp_tail_text(out: &mut String, consumed: usize)
    ensures
        final(out)@ == old(out)@ + time_warp_tail_text(consumed),
{
    out.append("\n                                    i");
    push_decimal(out, consumed as u64);
    out.append(".attacked(1, &mut game);\n                                    \n                                    loop_times =  match &mut i");
    push_decimal(out, consumed as u64);
    out.append(".health {\n                                        ActorHealth::Char(val) => {\n                                            *val\n                                        }\n                                        ActorHealth::Zombie(val) => {runtime_error!(\"Zombies don't like loops.\")}\n                                    };\n                                }\n                            }");
    assert(final(out)@ =~= old(out)@ + time_warp_tail_text(consumed));
}

/// The spell that swaps the health and the attack of the caster.
pub open spec fn shift_text(user: usize) -> Seq<char> {
    "{ let health = i"@
        + decimal(user as nat)
        + ".attack;\n                        if let ActorHealth::Char(attack) = i"@
        + decimal(user as nat)
        + ".health {\n                            i"@
        + decimal(user as nat)
        + ".attack = attack;\n                            i"@
        + decimal(user as nat)
        + ".health = ActorHealth::Char(health);\n                        }\n                        }"@
}

/// Appends [`shift_text`] to `out`.
pub fn push_shift_text(out: &mut String, user: usize)
    ensures
        final(out)@ == old(out)@ + shift_text(user),
{
    out.append("{ let health = i");
    push_decimal(out, user as u64);
    out.append(".attack;\n                        if let ActorHealth::Char(attack) = i");
    push_decimal(out, user as u64);
    out.append(".health {\n                            i");
    push_decimal(out, user as u64);
    out.append(".attack = attack;\n                            i");
    push_decimal(out, user as u64);
    out.append(".health = ActorHealth::Char(health);\n                        }\n                        }");
    assert(final(out)@ =~= old(out)@ + shift_text(user));
}

/// The spell that makes a potion anew out of the health of the caster.
pub open spec fn create_potion_text(user: usize, potion: usize) -> Seq<char> {
    "let potion_index = i"@
        + decimal(user as nat)
        + ".items.iter().enumerate().find_map(|(i,item)| if item == &&i"@
        + decimal(potion as nat)
        + " {Some(i)} else {None}); i"@
        + decimal(user as nat)
        + ".items.remove(potion_index.unwrap());let health: u32 = if let ActorHealth::Char(h) = i"@
        + decimal(user as nat)
        + ".health {\n                                h\n                            } else { runtime_error!(\"Only actors can make potions.\") };\n                            let i"@
        + decimal(potion as nat)
        + " = Item::Potion("@
        + decimal(potion as nat)
        + ", health);\n                            i"@
        + decimal(user as nat)
        + ".items.push(&i"@
        + decimal(potion as nat)
        + ");"@
}

/// Appends [`create_potion_text`] to `out`.
pub fn push_create_potion_text(out: &mut String, user: usize, potion: usize)
    ensures
        final(out)@ == old(out)@ + create_potion_text(user, potion),
{
    out.append("let potion_index = i");
    push_decimal(out, user as u64);
    out.append(".items.iter().enumerate().find_map(|(i,item)| if item == &&i");
    push_decimal(out, potion as u64);
    out.append(" {Some(i)} else {None}); i");
    push_decimal(out, user as u64);
    out.append(".items.remove(potion_index.unwrap());let health: u32 = if let ActorHealth::Char(h) = i");
    push_decimal(out, user as u64);
    out.append(".health {\n                                h\n                            } else { runtime_error!(\"Only actors can make potions.\") };\n                            let i");
    push_decimal(out, potion as u64);
    out.append(" = Item::Potion(");
    push_decimal(out, potion as u64);
    out.append(", health);\n                            i");
    push_decimal(out, user as u64);
    out.append(".items.push(&i");
    push_decimal(out, potion as u64);
    out.append(");");
    assert(final(out)@ =~= old(out)@ + create_potion_text(user, potion));
}

/// The start of every program: the support code, then the start of
/// `main`, which sets up the game for at most `max_chars` actors.
pub open spec fn program_head_text(max_chars: usize) -> Seq<char> {
    STD_CODE@
        + "\nfn main() {\n    let mut game = Game { alive: Vec::new(), max_chars: "@
        + decimal(max_chars as nat)
        + " };\n    "@
}

/// Appends [`program_head_text`] to `out`.
pub fn push_program_head_text(out: &mut String, max_chars: usize)
    ensures
        final(out)@ == old(out)@ + program_head_text(max_chars),
{
    out.append(STD_CODE);
    out.append("\nfn main() {\n    let mut game = Game { alive: Vec::new(), max_chars: ");
    push_decimal(out, max_chars as u64);
    out.append(" };\n    ");
    assert(final(out)@ =~= old(out)@ + program_head_text(max_chars));
}

/// The end of every program.
pub open spec fn program_tail_text() -> Seq<char> {
    "\n}"@
}

/// Appends [`program_tail_text`] to `out`.
pub fn push_program_tail_text(out: &mut String)
    ensures
        final(out)@ == old(out)@ + program_tail_text(),
{
    out.append("\n}");
    assert(final(out)@ =~= old(out)@ + program_tail_text());
}

/// The spell that repeats `body` while the character `consumed` has health
/// left, and takes one point of it after each round.
pub open spec fn time_warp_text(consumed: usize, body: Seq<char>) -> Seq<char> {
    time_warp_head_text(consumed) + body + time_warp_tail_text(consumed)
}

/// Appends [`time_warp_text`] to `out`.
pub fn push_time_warp_text(out: &mut String, consumed: usize, body: &str)
    ensures
        final(out)@ == old(out)@ + time_warp_text(consumed, body@),
{
    push_time_warp_head_text(out, consumed);
    out.append(body);
    push_time_warp_tail_text(out, consumed);
    assert(final(out)@ =~= old(out)@ + time_warp_text(consumed, body@));
}

/// The whole program: the support code, then `main`, which sets up the
/// game for at most `max_chars` actors and runs `statements`.
pub open spec fn program_text(max_chars: usize, statements: Seq<char>) -> Seq<char> {
    program_head_text(max_chars) + statements + program_tail_text()
}

/// Appends [`program_text`] to `out`.
pub fn push_program_text(out: &mut String, max_chars: usize, statements: &str)
    ensures
        final(out)@ == old(out)@ + program_text(max_chars, statements@),
{
    push_program_head_text(out, max_chars);
    out.append(statements);
    push_program_tail_text(out);
    assert(final(out)@ =~= old(out)@ + program_text(max_chars, statements@));
}

} // verus!
