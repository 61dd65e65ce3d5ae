use rpg_compiler::text::{
    char_is_space, count_leading_solid, count_leading_spaces, parse_i32, parse_u32, push_decimal,
    push_signed_decimal,
};
use rpg_compiler::tokenizer::{lexeme_of, priority, is_lexeme_of, LexError};
use rpg_compiler::{rm_comments, Token, TokenType, Tokenizer};

fn lex(code: &str) -> Vec<(TokenType, String)> {
    Tokenizer::new(code).tokenize().unwrap().into_iter().map(|t| (t.ttype, t.value)).collect()
}

fn tok(t: TokenType, v: &str) -> (TokenType, String) {
    (t, v.to_string())
}

#[test]
fn declaration_is_split_into_its_tokens() {
    assert_eq!(
        lex("char c1 = (10,2)"),
        vec![
            tok(TokenType::Char, "char"),
            tok(TokenType::Identifier, "c1"),
            tok(TokenType::Equals, "="),
            tok(TokenType::OParen, "("),
            tok(TokenType::Integer, "10"),
            tok(TokenType::Comma, ","),
            tok(TokenType::Integer, "2"),
            tok(TokenType::CParen, ")"),
        ]
    );
}

#[test]
fn every_reserved_word_has_its_own_kind() {
    let words = [
        ("char", TokenType::Char),
        ("zombie", TokenType::Zombie),
        ("merchant", TokenType::Merchant),
        ("potion", TokenType::Potion),
        ("spellbook", TokenType::SpellBook),
        ("end", TokenType::End),
        ("attacks", TokenType::FnAttacks),
        ("shouts", TokenType::FnShouts),
        ("whispers", TokenType::FnWhispers),
        ("buys", TokenType::FnBuys),
        ("uses", TokenType::FnUses),
        ("casting", TokenType::FnCasting),
        ("speak", TokenType::SbFnSpeak),
        ("un_zombify", TokenType::SbFnUnZombify),
        ("confuse", TokenType::SbFnConfuse),
        ("god_speech", TokenType::SbFnGodSpeech),
        ("time_warp", TokenType::SbFnTimeWarp),
        ("shift", TokenType::SbFnShift),
        ("create_potion", TokenType::SbFnCreatePotion),
        ("from", TokenType::From),
    ];
    for (word, kind) in words {
        assert_eq!(lex(word), vec![tok(kind, word)]);
    }
}

#[test]
fn a_word_that_only_starts_like_a_reserved_word_is_an_identifier() {
    assert_eq!(lex("chars"), vec![tok(TokenType::Identifier, "chars")]);
    assert_eq!(lex("ending"), vec![tok(TokenType::Identifier, "ending")]);
    assert_eq!(lex("_x9"), vec![tok(TokenType::Identifier, "_x9")]);
}

#[test]
fn integer_may_carry_a_minus_sign() {
    assert_eq!(lex("-12"), vec![tok(TokenType::Integer, "-12")]);
    assert_eq!(lex("007"), vec![tok(TokenType::Integer, "007")]);
}

#[test]
fn white_space_around_tokens_is_passed_over() {
    assert_eq!(
        lex("  \n\tc1   shouts \r\n"),
        vec![tok(TokenType::Identifier, "c1"), tok(TokenType::FnShouts, "shouts")]
    );
    assert_eq!(lex(""), vec![]);
    assert_eq!(lex("   \n "), vec![]);
}

#[test]
fn text_that_starts_no_token_is_reported_with_its_chunk() {
    let mut t = Tokenizer::new("c1 @home now");
    let e = t.tokenize().unwrap_err();
    assert_eq!(e, LexError { found: "@home".to_string() });
    assert_eq!(e.message(), "Unexpected token: found @home");
    assert_eq!(t.code, "@home now");
}

#[test]
fn tokenizing_leaves_nothing_of_the_text() {
    let mut t = Tokenizer::new("c1 attacks c2 ");
    assert_eq!(t.tokenize().unwrap().len(), 3);
    assert_eq!(t.code, "");
}

#[test]
fn tokenize_next_reads_one_token_and_keeps_the_rest() {
    let mut t = Tokenizer::new("zombie z1");
    let first = t.tokenize_next().unwrap();
    assert_eq!(first, Token::new(TokenType::Zombie, "zombie".to_string()));
    assert_eq!(t.code, " z1");
    let e = t.tokenize_next().unwrap_err();
    assert_eq!(e.found, "");
    assert_eq!(t.code, " z1");
}

#[test]
fn lexemes_in_order_spell_the_text_without_its_white_space() {
    let code = rm_comments("char c1 = (10, 2) # hero\n c1   shouts\n");
    let lexemes: String = lex(&code).into_iter().map(|t| t.1).collect();
    assert_eq!(lexemes, "charc1=(10,2)c1shouts");
    let solid: String = code.chars().filter(|c| !c.is_whitespace()).collect();
    assert_eq!(lexemes, solid);
}

#[test]
fn a_match_counts_only_where_it_starts_the_text() {
    assert_eq!(lexeme_of("char c1", Some("char".to_string())), Some("char".to_string()));
    assert_eq!(lexeme_of("char c1", Some("c1".to_string())), None);
    assert_eq!(lexeme_of("char c1", Some(String::new())), None);
    assert_eq!(lexeme_of("ch", Some("char".to_string())), None);
    assert_eq!(lexeme_of("char c1", None), None);
    assert_eq!(lexeme_of("a b", Some("a b".to_string())), None);
    assert_eq!(lexeme_of("a\tb", Some("a\t".to_string())), None);
    assert!(!is_lexeme_of("a b", "a "));
    assert!(is_lexeme_of("abc", "ab"));
    assert!(is_lexeme_of("abc", "abc"));
    assert!(!is_lexeme_of("abc", "abd"));
    assert!(!is_lexeme_of("abc", ""));
}

#[test]
fn patterns_are_tried_in_their_order() {
    let order = priority();
    assert_eq!(order.len(), 26);
    assert_eq!(order[0], TokenType::Char);
    assert_eq!(order[6], TokenType::FnAttacks);
    assert_eq!(order[20], TokenType::Identifier);
    assert_eq!(order[21], TokenType::Integer);
    assert_eq!(order[25], TokenType::Comma);
    assert_eq!(TokenType::Identifier.pattern(), r"\A\b[a-zA-Z_]\w*\b");
    assert_eq!(TokenType::Integer.pattern(), r"\A-?[0-9]+");
}

#[test]
fn kinds_of_token_have_names() {
    assert_eq!(TokenType::Char.to_string(), "char");
    assert_eq!(TokenType::SbFnSpeak.to_string(), "speak()");
    assert_eq!(TokenType::Equals.to_string(), "'='");
    assert_eq!(TokenType::Comma.to_string(), "','");
    assert_eq!(TokenType::Identifier.formatted(), "an identifier");
    assert_eq!(TokenType::Integer.formatted(), "an integer");
    assert_eq!(TokenType::From.formatted(), "from");
}

#[test]
fn comments_run_from_the_hash_to_the_end_of_the_line() {
    assert_eq!(rm_comments("a # b\nc"), "a \nc");
    assert_eq!(rm_comments("# all\n# gone"), "\n");
    assert_eq!(rm_comments("no comment"), "no comment");
    assert_eq!(rm_comments(""), "");
    assert_eq!(rm_comments("a#b#c"), "a");
}

#[test]
fn line_ends_are_normalised_with_the_comments() {
    assert_eq!(rm_comments("a\r\nb\n"), "a\nb");
    assert_eq!(rm_comments("a\n\nb"), "a\n\nb");
    assert_eq!(rm_comments("a\n\n"), "a\n");
    assert_eq!(rm_comments("\n"), "");
    assert_eq!(rm_comments("a\r"), "a\r");
    assert_eq!(rm_comments("x # y\r\nz"), "x \nz");
}

#[test]
fn white_space_is_what_unicode_says() {
    for c in [' ', '\t', '\n', '\r', '\u{0B}', '\u{0C}', '\u{85}', '\u{A0}', '\u{2003}', '\u{3000}']
    {
        assert!(char_is_space(c));
    }
    for c in ['a', '0', '#', '\u{200B}', '\u{1F}'] {
        assert!(!char_is_space(c));
    }
    let mut c = 0u32;
    while c < 0x3100 {
        if let Some(ch) = char::from_u32(c) {
            assert_eq!(char_is_space(ch), ch.is_whitespace());
        }
        c += 1;
    }
    assert_eq!(count_leading_spaces("  \tx y"), 3);
    assert_eq!(count_leading_spaces("x"), 0);
    assert_eq!(count_leading_solid("ab cd"), 2);
    assert_eq!(count_leading_solid(" ab"), 0);
    assert_eq!(count_leading_solid("abc"), 3);
}

#[test]
fn unsigned_numbers_are_read_as_the_standard_library_reads_them() {
    for s in ["0", "7", "10", "007", "+5", "4294967295", "4294967296", "-1", "-0", "", "+", "-", "1a", "a", " 1", "99999999999999999999", "1 "] {
        assert_eq!(parse_u32(s), s.parse::<u32>().ok(), "{}", s);
    }
    assert_eq!(parse_u32("4294967295"), Some(4294967295));
    assert_eq!(parse_u32("4294967296"), None);
}

#[test]
fn signed_numbers_are_read_as_the_standard_library_reads_them() {
    for s in ["0", "-0", "+0", "5", "-5", "+5", "2147483647", "2147483648", "-2147483648", "-2147483649", "", "+", "-", "--1", "+-1", "1-", "12x"] {
        assert_eq!(parse_i32(s), s.parse::<i32>().ok(), "{}", s);
    }
    assert_eq!(parse_i32("-2147483648"), Some(i32::MIN));
    assert_eq!(parse_i32("2147483648"), None);
}

#[test]
fn numbers_are_written_in_decimal() {
    for n in [0u64, 1, 9, 10, 11, 99, 100, 12345, u32::MAX as u64, u64::MAX] {
        let mut out = String::from("n=");
        push_decimal(&mut out, n);
        assert_eq!(out, format!("n={}", n));
    }
    for n in [0i64, -1, 1, -10, i32::MIN as i64, i32::MAX as i64, i64::MAX, i64::MIN + 1] {
        let mut out = String::new();
        push_signed_decimal(&mut out, n);
        assert_eq!(out, format!("{}", n));
    }
}

/// What the standard library makes of the same rule: the lines, each cut
/// at its first hash, joined by line feeds.
fn cut_lines(code: &str) -> String {
    code.lines()
        .map(|line| match line.find('#') {
            Some(at) => &line[..at],
            None => line,
        })
        .collect::<Vec<&str>>()
        .join("\n")
}

#[test]
fn comments_go_as_they_go_from_the_lines_of_the_standard_library() {
    let pieces = ["", "a", "#", "\n", "\r", "\r\n", " ", "b#c", "é", "#\r", "x\r\ny"];
    let mut texts: Vec<String> = vec![
        "char c1 = (10,2) # hero\nc1 shouts".to_string(),
        "# only\r\n# comments\r\n".to_string(),
        "a\r\r\nb".to_string(),
        "a#b\r\n#c\nd#\r".to_string(),
    ];
    for a in pieces {
        for b in pieces {
            for c in pieces {
                texts.push(format!("{}{}{}", a, b, c));
                for d in pieces {
                    texts.push(format!("{}{}{}{}", a, b, c, d));
                }
            }
        }
    }
    for text in &texts {
        let plain = rm_comments(text);
        assert_eq!(plain, cut_lines(text), "{:?}", text);
        assert!(!plain.contains('#'), "{:?}", text);
    }
    assert_eq!(
        rm_comments("char c1 = (10,2) # hero\nc1 shouts"),
        "char c1 = (10,2) \nc1 shouts"
    );
}

#[test]
fn no_lexeme_is_empty_or_holds_white_space() {
    let code = "char  c1=(10 ,2)\n\tc1 shouts\r\nzombie z = ( -3 , 4 )\nz attacks c1";
    let mut tokenizer = Tokenizer::new(code);
    let tokens = tokenizer.tokenize().unwrap();
    assert_eq!(tokenizer.code, "");
    for token in &tokens {
        assert!(!token.value.is_empty());
        assert!(!token.value.chars().any(char::is_whitespace));
    }
    let lexemes: String = tokens.iter().map(|t| t.value.as_str()).collect();
    let solid: String = code.chars().filter(|c| !c.is_whitespace()).collect();
    assert_eq!(lexemes, solid);
}

#[test]
fn every_number_of_its_width_is_written_in_decimal() {
    let mut out = String::new();
    push_signed_decimal(&mut out, i64::MIN);
    assert_eq!(out, "-9223372036854775808");
    let mut out = String::from("x");
    push_signed_decimal(&mut out, i64::MIN + 1);
    assert_eq!(out, "x-9223372036854775807");
}
