//! Lexical analysis: from script text to a sequence of tokens.
//!
//! Each kind of token has a pattern, a regular expression anchored at the
//! start of the text. The patterns are tried in a fixed order and the first
//! that matches gives the token. Matching itself is done by the `regex`
//! crate; everything around it is verified against [`regex_find`], the name
//! for what that crate finds.

use crate::text::{
    char_is_space, is_solid, count_leading_solid, count_leading_spaces, first_chunk, is_space, leading_spaces,
    lemma_leading_solid_bound, lemma_leading_spaces_bound, lemma_leading_spaces_is, skip_spaces,
};
use vstd::prelude::*;

verus! {

/// The kinds of token.
#[derive(Copy, Clone, PartialEq, Eq, Debug, Structural)]
pub enum TokenType {
    Char,
    Zombie,
    Merchant,
    Potion,
    SpellBook,
    End,
    FnBuys,
    FnAttacks,
    FnShouts,
    FnWhispers,
    FnUses,
    FnCasting,
    SbFnSpeak,
    SbFnUnZombify,
    SbFnConfuse,
    SbFnGodSpeech,
    SbFnTimeWarp,
    SbFnShift,
    SbFnCreatePotion,
    From,
    Identifier,
    /// A signed integer.
    Integer,
    /// `=`
    Equals,
    /// `(`
    OParen,
    /// `)`
    CParen,
    /// `,`
    Comma,
}

/// The kinds of token in the order in which their patterns are tried. The
/// identifier comes after every reserved word, since each of them has the
/// shape of an identifier.
pub open spec fn token_types() -> Seq<TokenType> {
    seq![
        TokenType::Char,
        TokenType::Zombie,
        TokenType::Merchant,
        TokenType::Potion,
        TokenType::SpellBook,
        TokenType::End,
        TokenType::FnAttacks,
        TokenType::FnShouts,
        TokenType::FnWhispers,
        TokenType::FnBuys,
        TokenType::FnUses,
        TokenType::FnCasting,
        TokenType::SbFnSpeak,
        TokenType::SbFnUnZombify,
        TokenType::SbFnConfuse,
        TokenType::SbFnGodSpeech,
        TokenType::SbFnTimeWarp,
        TokenType::SbFnShift,
        TokenType::SbFnCreatePotion,
        TokenType::From,
        TokenType::Identifier,
        TokenType::Integer,
        TokenType::Equals,
        TokenType::OParen,
        TokenType::CParen,
        TokenType::Comma,
    ]
}

/// The pattern of a kind of token.
pub open spec fn pattern_of(t: TokenType) -> Seq<char> {
    match t {
        TokenType::Char => r"\A\bchar\b"@,
        TokenType::Zombie => r"\A\bzombie\b"@,
        TokenType::Merchant => r"\A\bmerchant\b"@,
        TokenType::Potion => r"\A\bpotion\b"@,
        TokenType::SpellBook => r"\A\bspellbook\b"@,
        TokenType::End => r"\A\bend\b"@,
        TokenType::FnAttacks => r"\A\battacks\b"@,
        TokenType::FnShouts => r"\A\bshouts\b"@,
        TokenType::FnWhispers => r"\A\bwhispers\b"@,
        TokenType::FnBuys => r"\A\bbuys\b"@,
        TokenType::FnUses => r"\A\buses\b"@,
        TokenType::FnCasting => r"\A\bcasting\b"@,
        TokenType::SbFnSpeak => r"\A\bspeak\b"@,
        TokenType::SbFnUnZombify => r"\A\bun_zombify\b"@,
        TokenType::SbFnConfuse => r"\A\bconfuse\b"@,
        TokenType::SbFnGodSpeech => r"\A\bgod_speech\b"@,
        TokenType::SbFnTimeWarp => r"\A\btime_warp\b"@,
        TokenType::SbFnShift => r"\A\bshift\b"@,
        TokenType::SbFnCreatePotion => r"\A\bcreate_potion\b"@,
        TokenType::From => r"\A\bfrom\b"@,
        TokenType::Identifier => r"\A\b[a-zA-Z_]\w*\b"@,
        TokenType::Integer => r"\A-?[0-9]+"@,
        TokenType::Equals => r"\A="@,
        TokenType::OParen => r"\A\("@,
        TokenType::CParen => r"\A\)"@,
        TokenType::Comma => r"\A,"@,
    }
}

impl TokenType {
    /// The pattern of this kind of token.
    pub fn pattern(&self) -> (r: &'static str)
        ensures
            r@ == pattern_of(*self),
    {
        match self {
            TokenType::Char => r"\A\bchar\b",
            TokenType::Zombie => r"\A\bzombie\b",
            TokenType::Merchant => r"\A\bmerchant\b",
            TokenType::Potion => r"\A\bpotion\b",
            TokenType::SpellBook => r"\A\bspellbook\b",
            TokenType::End => r"\A\bend\b",
            TokenType::FnAttacks => r"\A\battacks\b",
            TokenType::FnShouts => r"\A\bshouts\b",
            TokenType::FnWhispers => r"\A\bwhispers\b",
            TokenType::FnBuys => r"\A\bbuys\b",
            TokenType::FnUses => r"\A\buses\b",
            TokenType::FnCasting => r"\A\bcasting\b",
            TokenType::SbFnSpeak => r"\A\bspeak\b",
            TokenType::SbFnUnZombify => r"\A\bun_zombify\b",
            TokenType::SbFnConfuse => r"\A\bconfuse\b",
            TokenType::SbFnGodSpeech => r"\A\bgod_speech\b",
            TokenType::SbFnTimeWarp => r"\A\btime_warp\b",
            TokenType::SbFnShift => r"\A\bshift\b",
            TokenType::SbFnCreatePotion => r"\A\bcreate_potion\b",
            TokenType::From => r"\A\bfrom\b",
            TokenType::Identifier => r"\A\b[a-zA-Z_]\w*\b",
            TokenType::Integer => r"\A-?[0-9]+",
            TokenType::Equals => r"\A=",
            TokenType::OParen => r"\A\(",
            TokenType::CParen => r"\A\)",
            TokenType::Comma => r"\A,",
        }
    }

    /// How this kind of token is called in a message.
    pub open spec fn name(self) -> Seq<char> {
        match self {
            TokenType::Char => "char"@,
            TokenType::Zombie => "zombie"@,
            TokenType::Merchant => "merchant"@,
            TokenType::Potion => "potion"@,
            TokenType::SpellBook => "spellbook"@,
            TokenType::End => "end"@,
            TokenType::FnAttacks => "attacks"@,
            TokenType::FnShouts => "shouts"@,
            TokenType::FnWhispers => "whispers"@,
            TokenType::FnBuys => "buys"@,
            TokenType::FnUses => "uses"@,
            TokenType::FnCasting => "casting"@,
            TokenType::SbFnSpeak => "speak()"@,
            TokenType::SbFnUnZombify => "un_zombify()"@,
            TokenType::SbFnConfuse => "confuse()"@,
            TokenType::SbFnGodSpeech => "god_speech()"@,
            TokenType::SbFnTimeWarp => "time_warp()"@,
            TokenType::SbFnShift => "shift()"@,
            TokenType::SbFnCreatePotion => "create_potion()"@,
            TokenType::From => "from"@,
            TokenType::Identifier => "identifier"@,
            TokenType::Integer => "integer"@,
            TokenType::Equals => "'='"@,
            TokenType::OParen => "'('"@,
            TokenType::CParen => "')'"@,
            TokenType::Comma => "','"@,
        }
    }

    /// The name of this kind of token as a static text.
    pub fn as_str(&self) -> (r: &'static str)
        ensures
            r@ == self.name(),
    {
        match self {
            TokenType::Char => "char",
            TokenType::Zombie => "zombie",
            TokenType::Merchant => "merchant",
            TokenType::Potion => "potion",
            TokenType::SpellBook => "spellbook",
            TokenType::End => "end",
            TokenType::FnAttacks => "attacks",
            TokenType::FnShouts => "shouts",
            TokenType::FnWhispers => "whispers",
            TokenType::FnBuys => "buys",
            TokenType::FnUses => "uses",
            TokenType::FnCasting => "casting",
            TokenType::SbFnSpeak => "speak()",
            TokenType::SbFnUnZombify => "un_zombify()",
            TokenType::SbFnConfuse => "confuse()",
            TokenType::SbFnGodSpeech => "god_speech()",
            TokenType::SbFnTimeWarp => "time_warp()",
            TokenType::SbFnShift => "shift()",
            TokenType::SbFnCreatePotion => "create_potion()",
            TokenType::From => "from",
            TokenType::Identifier => "identifier",
            TokenType::Integer => "integer",
            TokenType::Equals => "'='",
            TokenType::OParen => "'('",
            TokenType::CParen => "')'",
            TokenType::Comma => "','",
        }
    }

    /// The name of this kind of token.
    pub fn to_string(&self) -> (r: String)
        ensures
            r@ == self.name(),
    {
        String::from_str(self.as_str())
    }

    /// The name with the article that a sentence needs before it.
    pub open spec fn formatted_name(self) -> Seq<char> {
        match self {
            TokenType::Identifier => "an "@ + self.name(),
            TokenType::Integer => "an "@ + self.name(),
            _ => self.name(),
        }
    }

    /// The name of this kind of token as it stands in a sentence.
    pub fn formatted(&self) -> (r: String)
        ensures
            r@ == self.formatted_name(),
    {
        match self {
            TokenType::Identifier => String::from_str("an ").concat(self.as_str()),
            TokenType::Integer => String::from_str("an ").concat(self.as_str()),
            _ => self.to_string(),
        }
    }
}

/// The kinds of token in the order in which their patterns are tried.
pub fn priority() -> (r: Vec<TokenType>)
    ensures
        r@ == token_types(),
{
    let r = vec![
        TokenType::Char,
        TokenType::Zombie,
        TokenType::Merchant,
        TokenType::Potion,
        TokenType::SpellBook,
        TokenType::End,
        TokenType::FnAttacks,
        TokenType::FnShouts,
        TokenType::FnWhispers,
        TokenType::FnBuys,
        TokenType::FnUses,
        TokenType::FnCasting,
        TokenType::SbFnSpeak,
        TokenType::SbFnUnZombify,
        TokenType::SbFnConfuse,
        TokenType::SbFnGodSpeech,
        TokenType::SbFnTimeWarp,
        TokenType::SbFnShift,
        TokenType::SbFnCreatePotion,
        TokenType::From,
        TokenType::Identifier,
        TokenType::Integer,
        TokenType::Equals,
        TokenType::OParen,
        TokenType::CParen,
        TokenType::Comma,
    ];
    assert(r@ =~= token_types());
    r
}

/// A token: its kind and the text it was read from.
#[derive(Debug, Clone, PartialEq, Eq)]
pub struct Token {
    pub ttype: TokenType,
    pub value: String,
}

/// A token as a mathematical value: its kind and its text.
pub type TokenView = (TokenType, Seq<char>);

impl View for Token {
    type V = TokenView;

    open spec fn view(&self) -> TokenView {
        (self.ttype, self.value@)
    }
}

impl Token {
    pub fn new(t: TokenType, v: String) -> (r: Self)
        ensures
            r.ttype == t,
            r.value == v,
    {
        Self { ttype: t, value: v }
    }
}

/// The views of a sequence of tokens.
pub open spec fn token_views(tokens: Seq<Token>) -> Seq<TokenView> {
    tokens.map_values(|t: Token| t@)
}

/// No pattern matches at the start of the text.
#[derive(Debug, Clone, PartialEq, Eq)]
pub struct LexError {
    /// The text up to the next white space, at which no token starts.
    pub found: String,
}

impl LexError {
    pub open spec fn message_spec(self) -> Seq<char> {
        "Unexpected token: found "@ + self.found@
    }

    /// The sentence that tells a user of this error.
    pub fn message(&self) -> (r: String)
        ensures
            r@ == self.message_spec(),
    {
        String::from_str("Unexpected token: found ").concat(self.found.as_str())
    }
}

/// The text of the first match of the regular expression `pattern` in
/// `text`, as the `regex` crate finds it; `None` where there is no match or
/// `pattern` is no regular expression.
pub uninterp spec fn regex_find(pattern: Seq<char>, text: Seq<char>) -> Option<Seq<char>>;

/// Calls `regex::Regex::new` on `pattern` and `regex::Regex::find` on the
/// result and `text`, and hands back the matched text. The contract claims
/// no more than that the outcome is the one that [`regex_find`] names: a
/// function of the two texts.
#[verifier::external_body]
fn find_first(pattern: &str, text: &str) -> (r: Option<String>)
    ensures
        match r {
            Some(m) => regex_find(pattern@, text@) == Some(m@),
            None => regex_find(pattern@, text@) == None::<Seq<char>>,
        },
{
    match regex::Regex::new(pattern) {
        Ok(re) => match re.find(text) {
            Some(m) => Some(m.as_str().to_string()),
            None => None,
        },
        Err(_) => None,
    }
}

/// Whether `m` can be the lexeme at the start of `text`: it is not empty,
/// holds no white space, which only ever stands between tokens, and
/// starts `text`.
pub open spec fn is_lexeme_at(m: Seq<char>, text: Seq<char>) -> bool {
    m.len() > 0 && is_solid(m) && m.is_prefix_of(text)
}

/// What a match is worth to the tokenizer: it counts only where it can be
/// the lexeme at the start of the text.
pub open spec fn accepted(found: Option<Seq<char>>, text: Seq<char>) -> Option<Seq<char>> {
    match found {
        Some(m) => if is_lexeme_at(m, text) {
            Some(m)
        } else {
            None
        },
        None => None,
    }
}

/// The lexeme of kind `t` at the start of `text`, if there is one.
pub open spec fn lexeme_at(t: TokenType, text: Seq<char>) -> Option<Seq<char>> {
    accepted(regex_find(pattern_of(t), text), text)
}

/// The first kind from position `k` of the order on whose pattern gives a
/// lexeme at the start of `text`, with that lexeme.
pub open spec fn first_token_from(text: Seq<char>, k: int) -> Option<TokenView>
    decreases 26 - k,
{
    if k < 0 || k >= 26 {
        None
    } else {
        match lexeme_at(token_types()[k], text) {
            Some(l) => Some((token_types()[k], l)),
            None => first_token_from(text, k + 1),
        }
    }
}

/// The token at the start of `text`.
pub open spec fn next_token(text: Seq<char>) -> Option<TokenView> {
    first_token_from(text, 0)
}

/// The tokens of `text`, or the chunk at which no token starts. White space
/// before each token is passed over. (A lexeme is never empty nor longer
/// than the text, so the inner test always holds.)
pub open spec fn tokens_of(text: Seq<char>) -> Result<Seq<TokenView>, Seq<char>>
    decreases text.len(),
{
    if text.len() == 0 {
        Ok(Seq::empty())
    } else if is_space(text[0]) {
        tokens_of(text.skip(1))
    } else {
        match next_token(text) {
            Some((t, l)) => if 0 < l.len() <= text.len() {
                match tokens_of(text.skip(l.len() as int)) {
                    Ok(more) => Ok(seq![(t, l)] + more),
                    Err(e) => Err(e),
                }
            } else {
                Err(first_chunk(text))
            },
            None => Err(first_chunk(text)),
        }
    }
}

/// Leading white space does not change the tokens of a text.
pub proof fn lemma_tokens_skip_spaces(text: Seq<char>)
    ensures
        tokens_of(text) == tokens_of(skip_spaces(text)),
    decreases text.len(),
{
    if text.len() > 0 && is_space(text[0]) {
        lemma_tokens_skip_spaces(text.skip(1));
        lemma_leading_spaces_bound(text.skip(1));
        assert(skip_spaces(text) =~= skip_spaces(text.skip(1)));
    } else {
        assert(skip_spaces(text) =~= text);
    }
}

/// A token found by [`first_token_from`] is a lexeme that is not empty,
/// holds no white space and starts the text.
pub proof fn lemma_first_token_is_prefix(text: Seq<char>, k: int)
    ensures
        match first_token_from(text, k) {
            Some((t, l)) => is_lexeme_at(l, text) && lexeme_at(t, text) == Some(l),
            None => true,
        },
    decreases 26 - k,
{
    if 0 <= k < 26 {
        if lexeme_at(token_types()[k], text) is None {
            lemma_first_token_is_prefix(text, k + 1);
        }
    }
}

/// Whether the tokens `tokens` spell `text`: reading `text` from its start,
/// passing over white space and then over the lexeme of each token in
/// turn, uses `text` up to its end.
pub open spec fn spelled_by(text: Seq<char>, tokens: Seq<TokenView>) -> bool
    decreases tokens.len(),
{
    let rest = skip_spaces(text);
    if tokens.len() == 0 {
        rest.len() == 0
    } else {
        let l = tokens[0].1;
        l.len() > 0 && l.is_prefix_of(rest) && spelled_by(
            rest.skip(l.len() as int),
            tokens.skip(1),
        )
    }
}

/// The lexemes of `tokens`, one after the other.
pub open spec fn lexemes(tokens: Seq<TokenView>) -> Seq<char>
    decreases tokens.len(),
{
    if tokens.len() == 0 {
        Seq::empty()
    } else {
        tokens[0].1 + lexemes(tokens.skip(1))
    }
}

/// `s` without its white space.
pub open spec fn solid(s: Seq<char>) -> Seq<char>
    decreases s.len(),
{
    if s.len() == 0 {
        Seq::empty()
    } else if is_space(s[0]) {
        solid(s.skip(1))
    } else {
        seq![s[0]] + solid(s.skip(1))
    }
}

/// Whether no lexeme of `tokens` holds white space.
pub open spec fn lexemes_are_solid(tokens: Seq<TokenView>) -> bool {
    forall|i: int, j: int|
        0 <= i < tokens.len() && 0 <= j < tokens[i].1.len() ==> !is_space(
            #[trigger] tokens[i].1[j],
        )
}

/// The tokens of a text spell it: the lexemes, in order and with the white
/// space between them, are the text.
pub proof fn lemma_tokens_spell_text(text: Seq<char>)
    ensures
        tokens_of(text) is Ok ==> spelled_by(text, tokens_of(text)->Ok_0),
    decreases text.len(),
{
    if tokens_of(text) is Ok {
        let rest = skip_spaces(text);
        lemma_tokens_skip_spaces(text);
        lemma_leading_spaces_bound(text);
        if rest.len() > 0 {
            assert(rest[0] == text[leading_spaces(text) as int]);
            lemma_first_token_is_prefix(rest, 0);
            let (t, l) = next_token(rest)->Some_0;
            let after = rest.skip(l.len() as int);
            lemma_tokens_spell_text(after);
            let more = tokens_of(after)->Ok_0;
            let ts = tokens_of(text)->Ok_0;
            assert(ts =~= seq![(t, l)] + more);
            assert(ts.skip(1) =~= more);
        }
    }
}

/// No lexeme of the tokens of a text is empty or holds white space.
pub proof fn lemma_tokens_are_solid(text: Seq<char>)
    ensures
        tokens_of(text) is Ok ==> lexemes_are_solid(tokens_of(text)->Ok_0) && forall|i: int|
            0 <= i < tokens_of(text)->Ok_0.len() ==> (#[trigger] tokens_of(text)->Ok_0[i]).1.len()
                > 0,
    decreases text.len(),
{
    if tokens_of(text) is Ok {
        let rest = skip_spaces(text);
        lemma_tokens_skip_spaces(text);
        lemma_leading_spaces_bound(text);
        if rest.len() > 0 {
            assert(rest[0] == text[leading_spaces(text) as int]);
            lemma_first_token_is_prefix(rest, 0);
            let (t, l) = next_token(rest)->Some_0;
            let after = rest.skip(l.len() as int);
            lemma_tokens_are_solid(after);
            let more = tokens_of(after)->Ok_0;
            let ts = tokens_of(text)->Ok_0;
            assert(ts =~= seq![(t, l)] + more);
            assert forall|i: int, j: int| 0 <= i < ts.len() && 0 <= j < ts[i].1.len() implies
                !is_space(#[trigger] ts[i].1[j]) by {
                if i > 0 {
                    assert(ts[i] == more[i - 1]);
                    assert(!is_space(more[i - 1].1[j]));
                }
            }
            assert forall|i: int| 0 <= i < ts.len() implies (#[trigger] ts[i]).1.len() > 0 by {
                if i > 0 {
                    assert(ts[i] == more[i - 1]);
                }
            }
        }
    }
}

/// The lexemes of the tokens of a text, put together in order, are the
/// text without its white space.
pub proof fn lemma_tokens_are_the_solid_text(text: Seq<char>)
    ensures
        tokens_of(text) is Ok ==> lexemes(tokens_of(text)->Ok_0) == solid(text),
{
    if tokens_of(text) is Ok {
        lemma_tokens_spell_text(text);
        lemma_tokens_are_solid(text);
        lemma_lexemes_are_the_solid_text(text, tokens_of(text)->Ok_0);
    }
}

/// The white space of two texts, one after the other, goes from each.
pub proof fn lemma_solid_add(a: Seq<char>, b: Seq<char>)
    ensures
        solid(a + b) == solid(a) + solid(b),
    decreases a.len(),
{
    if a.len() == 0 {
        assert(a + b =~= b);
        assert(solid(a) + solid(b) =~= solid(b));
    } else {
        assert((a + b).skip(1) =~= a.skip(1) + b);
        lemma_solid_add(a.skip(1), b);
        assert(solid(a + b) =~= solid(a) + solid(b));
    }
}

/// Nothing is left of white space, and a text that holds none stays as it
/// is.
pub proof fn lemma_solid_of_uniform(s: Seq<char>)
    ensures
        (forall|i: int| 0 <= i < s.len() ==> is_space(#[trigger] s[i])) ==> solid(s)
            == Seq::<char>::empty(),
        (forall|i: int| 0 <= i < s.len() ==> !is_space(#[trigger] s[i])) ==> solid(s) == s,
    decreases s.len(),
{
    if s.len() > 0 {
        let t = s.skip(1);
        lemma_solid_of_uniform(t);
        if forall|i: int| 0 <= i < s.len() ==> is_space(#[trigger] s[i]) {
            assert forall|i: int| 0 <= i < t.len() implies is_space(#[trigger] t[i]) by {
                assert(t[i] == s[i + 1]);
            }
        }
        if forall|i: int| 0 <= i < s.len() ==> !is_space(#[trigger] s[i]) {
            assert forall|i: int| 0 <= i < t.len() implies !is_space(#[trigger] t[i]) by {
                assert(t[i] == s[i + 1]);
            }
            assert(seq![s[0]] + t =~= s);
        }
    }
}

/// Where no lexeme holds white space, the lexemes of the tokens that spell
/// a text, put together in order, are the text without its white space.
pub proof fn lemma_lexemes_are_the_solid_text(text: Seq<char>, tokens: Seq<TokenView>)
    requires
        spelled_by(text, tokens),
        lexemes_are_solid(tokens),
    ensures
        lexemes(tokens) == solid(text),
    decreases tokens.len(),
{
    let gap = text.take(leading_spaces(text) as int);
    let rest = skip_spaces(text);
    lemma_leading_spaces_bound(text);
    assert(text =~= gap + rest);
    assert forall|i: int| 0 <= i < gap.len() implies is_space(#[trigger] gap[i]) by {
        assert(gap[i] == text[i]);
    }
    lemma_solid_of_uniform(gap);
    lemma_solid_add(gap, rest);
    assert(solid(text) =~= solid(rest));
    if tokens.len() > 0 {
        let l = tokens[0].1;
        let after = rest.skip(l.len() as int);
        assert(rest =~= l + after);
        assert forall|j: int| 0 <= j < l.len() implies !is_space(#[trigger] l[j]) by {
            assert(l[j] == tokens[0].1[j]);
        }
        lemma_solid_of_uniform(l);
        lemma_solid_add(l, after);
        let more = tokens.skip(1);
        assert forall|i: int, j: int| 0 <= i < more.len() && 0 <= j < more[i].1.len() implies
            !is_space(#[trigger] more[i].1[j]) by {
            assert(more[i] == tokens[i + 1]);
            assert(!is_space(tokens[i + 1].1[j]));
        }
        lemma_lexemes_are_the_solid_text(after, more);
    }
}

/// Whether `m` can be the lexeme at the start of `text`.
pub fn is_lexeme_of(text: &str, m: &str) -> (r: bool)
    ensures
        r == is_lexeme_at(m@, text@),
{
    let n: usize = m.unicode_len();
    let len: usize = text.unicode_len();
    if n == 0 || n > len {
        return false;
    }
    let mut i: usize = 0;
    while i < n
        invariant
            i <= n <= len,
            n == m@.len(),
            len == text@.len(),
            forall|j: int| 0 <= j < i ==> m@[j] == text@[j],
            forall|j: int| 0 <= j < i ==> !is_space(#[trigger] m@[j]),
        decreases n - i,
    {
        let c: char = m.get_char(i);
        if c != text.get_char(i) {
            assert(!m@.is_prefix_of(text@)) by {
                if m@.is_prefix_of(text@) {
                    assert(text@.subrange(0, n as int)[i as int] == text@[i as int]);
                }
            }
            return false;
        }
        if char_is_space(c) {
            return false;
        }
        i += 1;
    }
    assert(m@ =~= text@.subrange(0, n as int));
    true
}

/// Decides what a match is worth: hands `found` back where it can be the
/// lexeme at the start of `text`, and nothing otherwise.
pub fn lexeme_of(text: &str, found: Option<String>) -> (r: Option<String>)
    ensures
        match r {
            Some(m) => Some(m@),
            None => None,
        } == accepted(
            match found {
                Some(m) => Some(m@),
                None => None,
            },
            text@,
        ),
{
    match found {
        None => None,
        Some(m) => {
            if is_lexeme_of(text, m.as_str()) {
                Some(m)
            } else {
                None
            }
        },
    }
}

/// Reads tokens off the start of a text.
pub struct Tokenizer<'a> {
    /// What is left to read.
    pub code: &'a str,
}

impl<'a> Tokenizer<'a> {
    pub fn new(code: &'a str) -> (r: Tokenizer<'a>)
        ensures
            r.code@ == code@,
    {
        Self { code }
    }

    /// Reads the whole text. On success nothing is left of it, and the
    /// lexemes of the tokens, put together in order, are the text without
    /// its white space; on failure what is left starts with the chunk at
    /// which no token starts.
    pub fn tokenize(&mut self) -> (r: Result<Vec<Token>, LexError>)
        ensures
            match tokens_of(old(self).code@) {
                Ok(ts) => r is Ok && token_views(r->Ok_0@) == ts && final(self).code@.len() == 0
                    && lexemes(ts) == solid(old(self).code@) && lexemes_are_solid(ts),
                Err(chunk) => r is Err && r->Err_0.found@ == chunk && next_token(
                    final(self).code@,
                ) is None && first_chunk(final(self).code@) == chunk,
            },
    {
        let mut tokens: Vec<Token> = Vec::new();
        let ghost start = self.code@;
        assert(token_views(tokens@) =~= Seq::empty());
        loop
            invariant
                start == old(self).code@,
                tokens_of(start) == match tokens_of(self.code@) {
                    Ok(more) => Ok::<Seq<TokenView>, Seq<char>>(
                        token_views(tokens@) + more,
                    ),
                    Err(e) => Err(e),
                },
            decreases self.code@.len(),
        {
            let code: &'a str = self.code;
            let gap: usize = count_leading_spaces(code);
            let len: usize = code.unicode_len();
            proof {
                lemma_leading_spaces_bound(code@);
            }
            let rest: &'a str = code.substring_char(gap, len);
            proof {
                assert(rest@ =~= skip_spaces(code@));
                lemma_tokens_skip_spaces(code@);
            }
            self.code = rest;
            if gap == len {
                proof {
                    assert(token_views(tokens@) + Seq::empty() =~= token_views(tokens@));
                    lemma_tokens_are_the_solid_text(start);
                    lemma_tokens_are_solid(start);
                }
                return Ok(tokens);
            }
            proof {
                lemma_first_token_is_prefix(rest@, 0);
                assert(rest@[0] == code@[gap as int]);
            }
            let ghost before = tokens@;
            match self.tokenize_next() {
                Ok(token) => {
                    tokens.push(token);
                    proof {
                        let l = token.value@;
                        assert(token_views(tokens@) =~= token_views(before) + seq![token@]);
                        match tokens_of(rest@.skip(l.len() as int)) {
                            Ok(more) => {
                                assert(token_views(before) + (seq![token@] + more) =~= token_views(
                                    tokens@,
                                ) + more);
                            },
                            Err(e) => {},
                        }
                    }
                },
                Err(e) => {
                    return Err(e);
                },
            }
        }
    }

    /// Reads one token off the start of the text, which is expected not to
    /// start with white space. Where none starts there, the text stays as
    /// it is.
    pub fn tokenize_next(&mut self) -> (r: Result<Token, LexError>)
        ensures
            match next_token(old(self).code@) {
                Some((t, l)) => r is Ok && r->Ok_0@ == (t, l)
                    && final(self).code@ == old(self).code@.skip(l.len() as int),
                None => r is Err && r->Err_0.found@ == first_chunk(old(self).code@)
                    && final(self).code@ == old(self).code@,
            },
    {
        let code: &'a str = self.code;
        let order = priority();
        let mut k: usize = 0;
        while k < order.len()
            invariant
                k <= 26,
                order@ == token_types(),
                self.code@ == code@,
                code@ == old(self).code@,
                next_token(code@) == first_token_from(code@, k as int),
            decreases 26 - k,
        {
            let t: TokenType = order[k];
            let found = find_first(t.pattern(), code);
            match lexeme_of(code, found) {
                Some(m) => {
                    let n: usize = m.as_str().unicode_len();
                    let len: usize = code.unicode_len();
                    self.code = code.substring_char(n, len);
                    assert(self.code@ =~= code@.skip(n as int));
                    return Ok(Token::new(t, m));
                },
                None => {},
            }
            k += 1;
        }
        let n: usize = count_leading_solid(code);
        proof {
            lemma_leading_solid_bound(code@);
        }
        let chunk = code.substring_char(0, n);
        assert(chunk@ =~= first_chunk(code@));
        Err(LexError { found: String::from_str(chunk) })
    }
}

/// The text of a script without its comments: every line cut at its first
/// `#`, and the lines joined by a line feed. A line ends at a line feed; a
/// carriage return just before it belongs to the line end.
pub open spec fn without_comments(s: Seq<char>) -> Seq<char>
    decreases s.len(),
{
    if s.len() == 0 {
        Seq::empty()
    } else {
        let n = line_length(s);
        let line = cut_comment(line_text(s));
        if n + 1 >= s.len() {
            line
        } else {
            line + seq!['\n'] + without_comments(s.skip(n as int + 1))
        }
    }
}

/// The number of characters before the first line feed of `s`, or the
/// length of `s` where it holds none.
pub open spec fn line_length(s: Seq<char>) -> nat
    decreases s.len(),
{
    if s.len() == 0 || s[0] == '\n' {
        0
    } else {
        1 + line_length(s.skip(1))
    }
}

/// The first line of `s`, without its line end.
pub open spec fn line_text(s: Seq<char>) -> Seq<char> {
    let n = line_length(s);
    if n < s.len() && n > 0 && s[n - 1] == '\r' {
        s.take(n - 1)
    } else {
        s.take(n as int)
    }
}

/// The number of characters before the first `#` of `s`, or the length of
/// `s` where it holds none.
pub open spec fn code_length(s: Seq<char>) -> nat
    decreases s.len(),
{
    if s.len() == 0 || s[0] == '#' {
        0
    } else {
        1 + code_length(s.skip(1))
    }
}

/// A line without its comment.
pub open spec fn cut_comment(line: Seq<char>) -> Seq<char> {
    line.take(code_length(line) as int)
}

proof fn lemma_line_length_is(s: Seq<char>, n: nat)
    requires
        n <= s.len(),
        forall|i: int| 0 <= i < n ==> #[trigger] s[i] != '\n',
        n < s.len() ==> s[n as int] == '\n',
    ensures
        line_length(s) == n,
    decreases n,
{
    if n > 0 {
        let t = s.skip(1);
        assert forall|i: int| 0 <= i < n - 1 implies #[trigger] t[i] != '\n' by {
            assert(t[i] == s[i + 1]);
        }
        lemma_line_length_is(t, (n - 1) as nat);
    }
}

proof fn lemma_code_length_is(s: Seq<char>, n: nat)
    requires
        n <= s.len(),
        forall|i: int| 0 <= i < n ==> #[trigger] s[i] != '#',
        n < s.len() ==> s[n as int] == '#',
    ensures
        code_length(s) == n,
    decreases n,
{
    if n > 0 {
        let t = s.skip(1);
        assert forall|i: int| 0 <= i < n - 1 implies #[trigger] t[i] != '#' by {
            assert(t[i] == s[i + 1]);
        }
        lemma_code_length_is(t, (n - 1) as nat);
    }
}

/// What stands before the first `#` of a text holds none, and is no longer
/// than the text.
pub proof fn lemma_code_holds_no_hash(s: Seq<char>)
    ensures
        code_length(s) <= s.len(),
        forall|i: int| 0 <= i < code_length(s) ==> #[trigger] s[i] != '#',
    decreases s.len(),
{
    if s.len() > 0 && s[0] != '#' {
        let t = s.skip(1);
        lemma_code_holds_no_hash(t);
        assert forall|i: int| 0 <= i < code_length(s) implies #[trigger] s[i] != '#' by {
            if i > 0 {
                assert(s[i] == t[i - 1]);
            }
        }
    }
}

/// A text without its comments holds no `#`.
pub proof fn lemma_without_comments_holds_no_hash(s: Seq<char>)
    ensures
        forall|i: int|
            0 <= i < without_comments(s).len() ==> #[trigger] without_comments(s)[i] != '#',
    decreases s.len(),
{
    if s.len() > 0 {
        let n = line_length(s);
        let line = cut_comment(line_text(s));
        lemma_code_holds_no_hash(line_text(s));
        assert forall|i: int| 0 <= i < line.len() implies #[trigger] line[i] != '#' by {
            assert(line[i] == line_text(s)[i]);
        }
        if n + 1 < s.len() {
            let rest = without_comments(s.skip(n as int + 1));
            lemma_without_comments_holds_no_hash(s.skip(n as int + 1));
            let all = without_comments(s);
            assert(all =~= line + seq!['\n'] + rest);
            assert forall|i: int| 0 <= i < all.len() implies #[trigger] all[i] != '#' by {
                if i < line.len() {
                    assert(all[i] == line[i]);
                } else if i > line.len() {
                    assert(all[i] == rest[i - line.len() - 1]);
                }
            }
        }
    }
}

/// Removes the comments from a script.
pub fn rm_comments(code: &str) -> (r: String)
    ensures
        r@ == without_comments(code@),
        forall|i: int| 0 <= i < r@.len() ==> r@[i] != '#',
{
    proof {
        lemma_without_comments_holds_no_hash(code@);
    }
    let len: usize = code.unicode_len();
    let mut out = String::new();
    let mut start: usize = 0;
    assert(code@.skip(0) =~= code@);
    while start < len
        invariant
            start <= len,
            len == code@.len(),
            without_comments(code@) == out@ + without_comments(code@.skip(start as int)),
        decreases len - start,
    {
        let ghost s = code@.skip(start as int);
        let mut end: usize = start;
        while end < len && code.get_char(end) != '\n'
            invariant
                start <= end <= len,
                len == code@.len(),
                forall|i: int| start <= i < end ==> #[trigger] code@[i] != '\n',
            decreases len - end,
        {
            end += 1;
        }
        proof {
            assert forall|i: int| 0 <= i < end - start implies #[trigger] s[i] != '\n' by {
                assert(s[i] == code@[start + i]);
            }
            lemma_line_length_is(s, (end - start) as nat);
        }
        let stop: usize = if end < len && end > start && code.get_char(end - 1) == '\r' {
            end - 1
        } else {
            end
        };
        let ghost line = line_text(s);
        assert(line =~= code@.subrange(start as int, stop as int));
        let mut cut: usize = start;
        while cut < stop && code.get_char(cut) != '#'
            invariant
                start <= cut <= stop <= len,
                len == code@.len(),
                forall|i: int| start <= i < cut ==> #[trigger] code@[i] != '#',
            decreases stop - cut,
        {
            cut += 1;
        }
        proof {
            assert forall|i: int| 0 <= i < cut - start implies #[trigger] line[i] != '#' by {
                assert(line[i] == code@[start + i]);
            }
            lemma_code_length_is(line, (cut - start) as nat);
            assert(cut_comment(line) =~= code@.subrange(start as int, cut as int));
        }
        let ghost before = out@;
        out.append(code.substring_char(start, cut));
        if end < len && len - end > 1 {
            proof {
                reveal_strlit("\n");
            }
            out.append("\n");
            proof {
                assert("\n"@ =~= seq!['\n']);
                assert(s.skip(end - start + 1) =~= code@.skip(end + 1));
                assert(out@ + without_comments(code@.skip(end + 1)) =~= before + (cut_comment(line)
                    + seq!['\n'] + without_comments(s.skip(end - start + 1))));
            }
            start = end + 1;
        } else {
            proof {
                assert(without_comments(code@.skip(len as int)) =~= Seq::<char>::empty());
                assert(out@ + without_comments(code@.skip(len as int)) =~= before + cut_comment(
                    line,
                ));
            }
            start = len;
        }
    }
    proof {
        assert(out@ + Seq::<char>::empty() =~= out@);
    }
    out
}

} // verus!
