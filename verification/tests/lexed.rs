use keyseq_macro::{
    lkey, pkey, pkeyseq, Chord, Delimiter, Diagnostic, ErrorKind, KeyId, ModifierMask, Token,
};
use proc_macro2::{TokenStream, TokenTree};

fn delimiter(outside: proc_macro2::Delimiter) -> Delimiter {
    match outside {
        proc_macro2::Delimiter::Parenthesis => Delimiter::Parenthesis,
        proc_macro2::Delimiter::Brace => Delimiter::Brace,
        proc_macro2::Delimiter::Bracket => Delimiter::Bracket,
        proc_macro2::Delimiter::None => Delimiter::Invisible,
    }
}

fn tokens_of(stream: TokenStream) -> Vec<Token> {
    stream
        .into_iter()
        .map(|tree| match tree {
            TokenTree::Literal(literal) => Token::Literal(literal.to_string()),
            TokenTree::Punct(punct) => Token::Punct(punct.as_char()),
            TokenTree::Ident(ident) => Token::Name(ident.to_string()),
            TokenTree::Group(group) => {
                Token::Group(delimiter(group.delimiter()), tokens_of(group.stream()))
            }
        })
        .collect()
}

fn lex(notation: &str) -> Vec<Token> {
    tokens_of(notation.parse::<TokenStream>().unwrap())
}

fn read(bits: u8, key: &str) -> Chord {
    Chord {
        modifiers: ModifierMask::from_bits(bits).unwrap(),
        key: KeyId { name: key.to_string() },
    }
}

#[test]
fn lexed_physical_chords() {
    assert_eq!(pkey(&lex("A")), Ok(read(0, "A")));
    assert_eq!(pkey(&lex("shift-A")), Ok(read(1, "A")));
    assert_eq!(pkey(&lex("ctrl-A")), Ok(read(2, "A")));
    assert_eq!(pkey(&lex("alt-A")), Ok(read(4, "A")));
    assert_eq!(pkey(&lex("super-A")), Ok(read(8, "A")));
    assert_eq!(pkey(&lex("shift-ctrl-A")), Ok(read(3, "A")));
    assert_eq!(pkey(&lex("ctrl-shift-A")), Ok(read(3, "A")));
    assert_eq!(pkey(&lex("alt-ctrl-;")), Ok(read(6, "Semicolon")));
    assert_eq!(pkey(&lex("alt-ctrl-Semicolon")), Ok(read(6, "Semicolon")));
    assert_eq!(pkey(&lex("1")), Ok(read(0, "Key1")));
    assert_eq!(pkey(&lex("alt-1")), Ok(read(4, "Key1")));
    assert_eq!(pkey(&lex("ctrl--")), Ok(read(2, "Minus")));
    assert_eq!(pkey(&lex("ctrl-:")), Ok(read(2, "Colon")));
}

#[test]
fn lexed_quoted_characters() {
    assert_eq!(pkey(&lex("'\\''")), Ok(read(0, "Apostrophe")));
    assert_eq!(pkey(&lex("'`'")), Ok(read(0, "Grave")));
    assert_eq!(pkey(&lex("shift-'\\\\'")), Ok(read(1, "Backslash")));
    assert_eq!(
        pkey(&lex("'x'")),
        Err(Diagnostic { kind: ErrorKind::UnrecognizedLiteral, position: 0 })
    );
}

#[test]
fn lexed_logical_chords() {
    assert_eq!(lkey(&lex("a")), Ok(read(0, "a")));
    assert_eq!(lkey(&lex("A")), Ok(read(0, "A")));
    assert_eq!(lkey(&lex("shift-A")), Ok(read(1, "A")));
    assert_eq!(lkey(&lex("alt-ctrl-;")), Ok(read(6, ";")));
    assert_eq!(lkey(&lex("1")), Ok(read(0, "1")));
    assert_eq!(lkey(&lex("alt-1")), Ok(read(4, "1")));
    assert_eq!(lkey(&lex("!")), Ok(read(0, "!")));
}

#[test]
fn lexed_failures() {
    assert_eq!(
        pkey(&lex("a")),
        Err(Diagnostic { kind: ErrorKind::LowercaseKeyName, position: 0 })
    );
    assert_eq!(
        pkey(&lex("A B")),
        Err(Diagnostic { kind: ErrorKind::ExcessTokens, position: 1 })
    );
    assert_eq!(
        lkey(&lex("A B")),
        Err(Diagnostic { kind: ErrorKind::ExcessTokens, position: 1 })
    );
    assert_eq!(
        pkey(&lex("ctrl-")),
        Err(Diagnostic { kind: ErrorKind::MissingKeyToken, position: 2 })
    );
    assert_eq!(
        pkey(&lex("ctrl-(A)")),
        Err(Diagnostic { kind: ErrorKind::MissingKeyToken, position: 2 })
    );
    assert_eq!(
        pkey(&lex("ctrl-!")),
        Err(Diagnostic { kind: ErrorKind::UnrecognizedPunctuation, position: 2 })
    );
    assert_eq!(pkeyseq(&lex("")), Err(Diagnostic { kind: ErrorKind::EmptyInput, position: 0 }));
}

#[test]
fn lexed_sequences() {
    assert_eq!(pkeyseq(&lex("A B")), Ok(vec![read(0, "A"), read(0, "B")]));
    assert_eq!(pkeyseq(&lex("shift-A ctrl-B")), Ok(vec![read(1, "A"), read(2, "B")]));
    assert_eq!(pkeyseq(&lex("A NoSuchKey")), Ok(vec![read(0, "A"), read(0, "NoSuchKey")]));
    assert_eq!(
        pkeyseq(&lex("alt-ctrl-A Escape")),
        Ok(vec![read(6, "A"), read(0, "Escape")])
    );
}

#[test]
fn lexed_notation_reads_back() {
    for notation in ["A", "shift-A", "super-alt-ctrl-shift-;", "alt-7", "ctrl-'`'"] {
        let first = pkey(&lex(notation)).unwrap();
        assert_eq!(pkey(&first.to_tokens()), Ok(first));
    }
}
