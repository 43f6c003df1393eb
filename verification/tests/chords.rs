use keyseq_macro::{
    bevy_pkey, lkey, pkey, read_key, read_key_chord, read_modifiers, read_single_chord,
    winit_lkey, Chord, Diagnostic, ErrorKind, KeyId, KeyMode, ModifierMask, Resolver, Token,
};

fn name(text: &str) -> Token {
    Token::Name(text.to_string())
}

fn literal(text: &str) -> Token {
    Token::Literal(text.to_string())
}

fn dash() -> Token {
    Token::Punct('-')
}

fn chord(bits: u8, key: &str) -> Chord {
    Chord {
        modifiers: ModifierMask::from_bits(bits).unwrap(),
        key: KeyId { name: key.to_string() },
    }
}

fn failure(kind: ErrorKind, position: usize) -> Diagnostic {
    Diagnostic { kind, position }
}

#[test]
fn pkey_reads_a_letter_alone() {
    assert_eq!(pkey(&[name("A")]), Ok(chord(0, "A")));
}

#[test]
fn pkey_reads_each_modifier() {
    assert_eq!(pkey(&[name("shift"), dash(), name("A")]), Ok(chord(1, "A")));
    assert_eq!(pkey(&[name("ctrl"), dash(), name("A")]), Ok(chord(2, "A")));
    assert_eq!(pkey(&[name("alt"), dash(), name("A")]), Ok(chord(4, "A")));
    assert_eq!(pkey(&[name("super"), dash(), name("A")]), Ok(chord(8, "A")));
}

#[test]
fn pkey_reads_every_uppercase_letter() {
    for letter in 'A'..='Z' {
        let text = letter.to_string();
        assert_eq!(pkey(&[name(&text)]), Ok(chord(0, &text)));
    }
}

#[test]
fn pkey_refuses_every_lowercase_letter() {
    for letter in 'a'..='z' {
        let text = letter.to_string();
        assert_eq!(pkey(&[name(&text)]), Err(failure(ErrorKind::LowercaseKeyName, 0)));
    }
}

#[test]
fn pkey_refuses_a_lowercase_letter_after_modifiers() {
    let tokens = [name("ctrl"), dash(), name("a")];
    assert_eq!(pkey(&tokens), Err(failure(ErrorKind::LowercaseKeyName, 2)));
}

#[test]
fn pkey_ors_the_flags_in_any_order() {
    let shift_ctrl = [name("shift"), dash(), name("ctrl"), dash(), name("A")];
    let ctrl_shift = [name("ctrl"), dash(), name("shift"), dash(), name("A")];
    assert_eq!(pkey(&shift_ctrl), Ok(chord(3, "A")));
    assert_eq!(pkey(&ctrl_shift), Ok(chord(3, "A")));
}

#[test]
fn pkey_gives_the_or_of_every_subset_of_modifiers() {
    let words = ["shift", "ctrl", "alt", "super"];
    for bits in 0u8..16 {
        let mut forward = Vec::new();
        let mut backward = Vec::new();
        for i in 0..4 {
            if bits & (1 << i) != 0 {
                forward.push(name(words[i]));
                forward.push(dash());
            }
            if bits & (1 << (3 - i)) != 0 {
                backward.push(name(words[3 - i]));
                backward.push(dash());
            }
        }
        forward.push(name("K"));
        backward.push(name("K"));
        assert_eq!(pkey(&forward), Ok(chord(bits, "K")));
        assert_eq!(pkey(&backward), Ok(chord(bits, "K")));
    }
}

#[test]
fn pkey_takes_a_repeated_modifier_once() {
    let tokens = [name("alt"), dash(), name("alt"), dash(), name("A")];
    assert_eq!(pkey(&tokens), Ok(chord(4, "A")));
}

#[test]
fn pkey_names_punctuation() {
    let tokens = [name("alt"), dash(), name("ctrl"), dash(), Token::Punct(';')];
    assert_eq!(pkey(&tokens), Ok(chord(6, "Semicolon")));
    let table = [
        (';', "Semicolon"),
        (':', "Colon"),
        (',', "Comma"),
        ('.', "Period"),
        ('^', "Caret"),
        ('=', "Equals"),
        ('/', "Slash"),
        ('-', "Minus"),
        ('*', "Asterisk"),
        ('+', "Plus"),
        ('@', "At"),
    ];
    for (c, key) in table {
        assert_eq!(pkey(&[Token::Punct(c)]), Ok(chord(0, key)));
    }
}

#[test]
fn pkey_refuses_other_punctuation() {
    for c in ['!', '#', '$', '%', '&', '?', '~', '|', '<', '>'] {
        assert_eq!(
            pkey(&[Token::Punct(c)]),
            Err(failure(ErrorKind::UnrecognizedPunctuation, 0))
        );
    }
}

#[test]
fn pkey_reads_a_dash_as_the_key_after_a_chain() {
    let tokens = [name("ctrl"), dash(), dash()];
    assert_eq!(pkey(&tokens), Ok(chord(2, "Minus")));
}

#[test]
fn pkey_names_digits() {
    assert_eq!(pkey(&[literal("1")]), Ok(chord(0, "Key1")));
    assert_eq!(pkey(&[name("alt"), dash(), literal("1")]), Ok(chord(4, "Key1")));
    for digit in '0'..='9' {
        let text = digit.to_string();
        assert_eq!(pkey(&[literal(&text)]), Ok(chord(0, &format!("Key{digit}"))));
    }
}

#[test]
fn pkey_names_quoted_characters() {
    assert_eq!(pkey(&[literal("'\\''")]), Ok(chord(0, "Apostrophe")));
    assert_eq!(pkey(&[literal("'`'")]), Ok(chord(0, "Grave")));
    assert_eq!(pkey(&[literal("'\\\\'")]), Ok(chord(0, "Backslash")));
}

#[test]
fn pkey_refuses_other_literals() {
    for text in ["'x'", "12", "\"A\"", "1.5", "x", ""] {
        assert_eq!(pkey(&[literal(text)]), Err(failure(ErrorKind::UnrecognizedLiteral, 0)));
    }
}

#[test]
fn pkey_refuses_a_one_character_name_that_is_no_letter() {
    assert_eq!(pkey(&[name("_")]), Err(failure(ErrorKind::UnrecognizedLiteral, 0)));
    assert_eq!(pkey(&[name("\u{e9}")]), Err(failure(ErrorKind::UnrecognizedLiteral, 0)));
}

#[test]
fn pkey_takes_longer_names_as_they_are() {
    let tokens = [name("alt"), dash(), name("ctrl"), dash(), name("Semicolon")];
    assert_eq!(pkey(&tokens), Ok(chord(6, "Semicolon")));
    assert_eq!(pkey(&[name("Escape")]), Ok(chord(0, "Escape")));
    assert_eq!(pkey(&[name("Key1")]), Ok(chord(0, "Key1")));
    assert_eq!(pkey(&[name("NoSuchKey")]), Ok(chord(0, "NoSuchKey")));
}

#[test]
fn pkey_reads_a_modifier_without_a_dash_as_the_key() {
    assert_eq!(pkey(&[name("shift")]), Ok(chord(0, "shift")));
    assert_eq!(pkey(&[name("shift"), dash(), name("shift")]), Ok(chord(1, "shift")));
}

#[test]
fn pkey_refuses_a_second_key() {
    assert_eq!(pkey(&[name("A"), name("B")]), Err(failure(ErrorKind::ExcessTokens, 1)));
    let tokens = [name("ctrl"), dash(), name("A"), name("shift"), dash(), name("B")];
    assert_eq!(pkey(&tokens), Err(failure(ErrorKind::ExcessTokens, 3)));
}

#[test]
fn pkey_leaves_an_unknown_word_before_a_dash_as_the_key() {
    let tokens = [name("hyper"), dash(), name("A")];
    assert_eq!(pkey(&tokens), Err(failure(ErrorKind::ExcessTokens, 1)));
}

#[test]
fn pkey_misses_the_key() {
    assert_eq!(pkey(&[]), Err(failure(ErrorKind::MissingKeyToken, 0)));
    assert_eq!(pkey(&[name("shift"), dash()]), Err(failure(ErrorKind::MissingKeyToken, 2)));
    let tokens = [name("shift"), dash(), name("alt"), dash()];
    assert_eq!(pkey(&tokens), Err(failure(ErrorKind::MissingKeyToken, 4)));
}

#[test]
fn pkey_refuses_a_group_as_the_key() {
    let group = Token::Group(keyseq_macro::Delimiter::Parenthesis, vec![name("A")]);
    assert_eq!(pkey(&[group]), Err(failure(ErrorKind::MissingKeyToken, 0)));
    let group = Token::Group(keyseq_macro::Delimiter::Invisible, vec![]);
    assert_eq!(
        pkey(&[name("ctrl"), dash(), group]),
        Err(failure(ErrorKind::MissingKeyToken, 2))
    );
}

#[test]
fn lkey_keeps_what_is_typed() {
    assert_eq!(lkey(&[name("a")]), Ok(chord(0, "a")));
    assert_eq!(lkey(&[name("A")]), Ok(chord(0, "A")));
    assert_eq!(lkey(&[name("shift"), dash(), name("A")]), Ok(chord(1, "A")));
    assert_eq!(lkey(&[name("ctrl"), dash(), name("A")]), Ok(chord(2, "A")));
    assert_eq!(lkey(&[name("alt"), dash(), name("A")]), Ok(chord(4, "A")));
    assert_eq!(lkey(&[name("super"), dash(), name("A")]), Ok(chord(8, "A")));
    let tokens = [name("alt"), dash(), name("ctrl"), dash(), Token::Punct(';')];
    assert_eq!(lkey(&tokens), Ok(chord(6, ";")));
    assert_eq!(lkey(&[literal("1")]), Ok(chord(0, "1")));
    assert_eq!(lkey(&[name("alt"), dash(), literal("1")]), Ok(chord(4, "1")));
    assert_eq!(lkey(&[Token::Punct('!')]), Ok(chord(0, "!")));
    assert_eq!(lkey(&[name("shift"), dash(), name("a")]), Ok(chord(1, "a")));
}

#[test]
fn lkey_takes_names_and_quoted_characters() {
    assert_eq!(lkey(&[name("Escape")]), Ok(chord(0, "Escape")));
    assert_eq!(lkey(&[literal("'\\''")]), Ok(chord(0, "Apostrophe")));
    assert_eq!(lkey(&[literal("'`'")]), Ok(chord(0, "Grave")));
    assert_eq!(lkey(&[literal("'\\\\'")]), Ok(chord(0, "Backslash")));
    assert_eq!(lkey(&[literal("'x'")]), Err(failure(ErrorKind::UnrecognizedLiteral, 0)));
}

#[test]
fn lkey_refuses_a_second_key_and_a_missing_one() {
    assert_eq!(lkey(&[name("A"), name("B")]), Err(failure(ErrorKind::ExcessTokens, 1)));
    assert_eq!(lkey(&[name("alt"), dash()]), Err(failure(ErrorKind::MissingKeyToken, 2)));
}

#[test]
fn bevy_pkey_takes_keys_of_the_backend_only() {
    let codes = ["A".to_string(), "Semicolon".to_string(), "Key1".to_string()];
    assert_eq!(bevy_pkey(&[name("A")], &codes), Ok(chord(0, "A")));
    let tokens = [name("shift"), dash(), name("ctrl"), dash(), name("A")];
    assert_eq!(bevy_pkey(&tokens, &codes), Ok(chord(3, "A")));
    let tokens = [name("alt"), dash(), name("ctrl"), dash(), Token::Punct(';')];
    assert_eq!(bevy_pkey(&tokens, &codes), Ok(chord(6, "Semicolon")));
    let tokens = [name("alt"), dash(), name("ctrl"), dash(), name("Semicolon")];
    assert_eq!(bevy_pkey(&tokens, &codes), Ok(chord(6, "Semicolon")));
    assert_eq!(bevy_pkey(&[name("alt"), dash(), literal("1")], &codes), Ok(chord(4, "Key1")));
    let tokens = [name("alt"), dash(), name("NoSuchKey")];
    assert_eq!(bevy_pkey(&tokens, &codes), Err(failure(ErrorKind::UnknownBackendKey, 2)));
    assert_eq!(bevy_pkey(&[name("B")], &codes), Err(failure(ErrorKind::UnknownBackendKey, 0)));
    assert_eq!(bevy_pkey(&[name("A")], &[]), Err(failure(ErrorKind::UnknownBackendKey, 0)));
}

#[test]
fn bevy_pkey_fails_as_pkey_does_before_it_asks_the_backend() {
    let codes = ["a".to_string()];
    assert_eq!(bevy_pkey(&[name("a")], &codes), Err(failure(ErrorKind::LowercaseKeyName, 0)));
    assert_eq!(
        bevy_pkey(&[name("A"), name("B")], &["A".to_string()]),
        Err(failure(ErrorKind::ExcessTokens, 1))
    );
}

#[test]
fn winit_lkey_takes_characters_and_names_of_the_backend() {
    let names = ["Escape".to_string()];
    assert_eq!(winit_lkey(&[Token::Punct(';')], &names), Ok(chord(0, ";")));
    assert_eq!(winit_lkey(&[name("ctrl"), dash(), Token::Punct(';')], &names), Ok(chord(2, ";")));
    assert_eq!(winit_lkey(&[name("a")], &names), Ok(chord(0, "a")));
    assert_eq!(winit_lkey(&[name("A")], &names), Ok(chord(0, "A")));
    assert_eq!(winit_lkey(&[literal("1")], &names), Ok(chord(0, "1")));
    assert_eq!(winit_lkey(&[Token::Punct('!')], &names), Ok(chord(0, "!")));
    assert_eq!(winit_lkey(&[name("alt"), dash(), name("Escape")], &names), Ok(chord(4, "Escape")));
    assert_eq!(
        winit_lkey(&[name("ctrl"), dash(), name("Semicolon")], &names),
        Err(failure(ErrorKind::UnknownBackendKey, 2))
    );
}

#[test]
fn read_single_chord_follows_the_resolver() {
    let names = ["Tab".to_string()];
    let tokens = [name("super"), dash(), name("Tab")];
    let generic = Resolver::generic(KeyMode::Physical);
    let backend = Resolver::backend(KeyMode::Physical, &names);
    assert_eq!(read_single_chord(&tokens, generic), Ok(chord(8, "Tab")));
    assert_eq!(read_single_chord(&tokens, backend), Ok(chord(8, "Tab")));
    let tokens = [name("super"), dash(), name("Q")];
    assert_eq!(read_single_chord(&tokens, generic), Ok(chord(8, "Q")));
    assert_eq!(
        read_single_chord(&tokens, backend),
        Err(failure(ErrorKind::UnknownBackendKey, 2))
    );
}

#[test]
fn read_modifiers_stops_at_the_first_token_that_is_no_link() {
    let tokens = [name("ctrl"), dash(), name("alt"), dash(), name("A"), name("shift"), dash()];
    let (mask, next) = read_modifiers(&tokens, 0);
    assert_eq!((mask.bits(), next), (6, 4));
    let (mask, next) = read_modifiers(&tokens, 2);
    assert_eq!((mask.bits(), next), (4, 4));
    let (mask, next) = read_modifiers(&tokens, 4);
    assert_eq!((mask.bits(), next), (0, 4));
    let (mask, next) = read_modifiers(&tokens, 5);
    assert_eq!((mask.bits(), next), (1, 7));
    let (mask, next) = read_modifiers(&tokens, 7);
    assert_eq!((mask.bits(), next), (0, 7));
    let (mask, next) = read_modifiers(&tokens, 9);
    assert_eq!((mask.bits(), next), (0, 9));
    let (mask, next) = read_modifiers(&[], 0);
    assert_eq!((mask.bits(), next), (0, 0));
}

#[test]
fn read_modifiers_takes_no_word_without_a_dash_and_no_dash_without_a_word() {
    let (mask, next) = read_modifiers(&[name("shift"), name("A")], 0);
    assert_eq!((mask.bits(), next), (0, 0));
    let (mask, next) = read_modifiers(&[dash(), name("A")], 0);
    assert_eq!((mask.bits(), next), (0, 0));
    let (mask, next) = read_modifiers(&[name("Shift"), dash(), name("A")], 0);
    assert_eq!((mask.bits(), next), (0, 0));
    let (mask, next) = read_modifiers(&[literal("shift"), dash(), name("A")], 0);
    assert_eq!((mask.bits(), next), (0, 0));
    let (mask, next) = read_modifiers(&[name("shift"), Token::Punct('+'), name("A")], 0);
    assert_eq!((mask.bits(), next), (0, 0));
}

#[test]
fn read_key_takes_one_token() {
    let tokens = [name("A"), Token::Punct(';'), name("b")];
    let physical = Resolver::generic(KeyMode::Physical);
    let logical = Resolver::generic(KeyMode::Logical);
    assert_eq!(read_key(&tokens, 0, physical), Ok((KeyId { name: "A".to_string() }, 1)));
    assert_eq!(read_key(&tokens, 1, physical), Ok((KeyId { name: "Semicolon".to_string() }, 2)));
    assert_eq!(read_key(&tokens, 1, logical), Ok((KeyId { name: ";".to_string() }, 2)));
    assert_eq!(read_key(&tokens, 2, physical), Err(failure(ErrorKind::LowercaseKeyName, 2)));
    assert_eq!(read_key(&tokens, 2, logical), Ok((KeyId { name: "b".to_string() }, 3)));
    assert_eq!(read_key(&tokens, 3, logical), Err(failure(ErrorKind::MissingKeyToken, 3)));
    assert_eq!(read_key(&tokens, 8, logical), Err(failure(ErrorKind::MissingKeyToken, 8)));
}

#[test]
fn read_key_chord_hands_back_where_the_rest_begins() {
    let tokens = [name("shift"), dash(), name("A"), name("ctrl"), dash(), name("B")];
    let resolver = Resolver::generic(KeyMode::Physical);
    assert_eq!(read_key_chord(&tokens, 0, resolver), Ok((chord(1, "A"), 3)));
    assert_eq!(read_key_chord(&tokens, 3, resolver), Ok((chord(2, "B"), 6)));
    assert_eq!(read_key_chord(&tokens, 5, resolver), Ok((chord(0, "B"), 6)));
    assert_eq!(
        read_key_chord(&tokens, 6, resolver),
        Err(failure(ErrorKind::MissingKeyToken, 6))
    );
}

#[test]
fn written_chords_read_back() {
    for bits in 0u8..16 {
        for key in ["A", "Z", "Semicolon", "Key1", "Escape", "shift"] {
            let written = chord(bits, key);
            let tokens = written.to_tokens();
            assert_eq!(pkey(&tokens), Ok(written.clone()));
            assert_eq!(lkey(&tokens), Ok(written));
        }
        for key in ["a", ";", "1", "!"] {
            let written = chord(bits, key);
            assert_eq!(lkey(&written.to_tokens()), Ok(written));
        }
    }
}

#[test]
fn chords_read_from_tokens_read_back_from_their_notation() {
    let inputs = [
        vec![name("alt"), dash(), name("ctrl"), dash(), Token::Punct(';')],
        vec![name("super"), dash(), name("shift"), dash(), literal("7")],
        vec![literal("'`'")],
        vec![name("ctrl"), dash(), dash()],
        vec![name("Q")],
    ];
    for tokens in inputs {
        let physical = pkey(&tokens).unwrap();
        assert_eq!(pkey(&physical.to_tokens()), Ok(physical));
        let logical = lkey(&tokens).unwrap();
        assert_eq!(lkey(&logical.to_tokens()), Ok(logical));
    }
}

#[test]
fn to_tokens_writes_the_modifiers_in_one_order() {
    assert_eq!(chord(0, "A").to_tokens(), vec![name("A")]);
    assert_eq!(chord(6, "Semicolon").to_tokens(), vec![
        name("ctrl"),
        dash(),
        name("alt"),
        dash(),
        name("Semicolon"),
    ]);
    assert_eq!(chord(15, "Key1").to_tokens(), vec![
        name("shift"),
        dash(),
        name("ctrl"),
        dash(),
        name("alt"),
        dash(),
        name("super"),
        dash(),
        name("Key1"),
    ]);
}
