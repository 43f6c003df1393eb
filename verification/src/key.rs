//! From one token to the name of a key.

use vstd::prelude::*;
use vstd::string::*;
use crate::error::ErrorKind;
use crate::token::{text_is, Token, TokenView};

verus! {

/// The canonical name of a key: `A`, `Key1`, `Semicolon`, or, for a logical
/// key, the character itself.
#[derive(Debug, PartialEq, Eq)]
pub struct KeyId {
    pub name: String,
}

impl View for KeyId {
    type V = Seq<char>;

    open spec fn view(&self) -> Seq<char> {
        self.name@
    }
}

impl Clone for KeyId {
    fn clone(&self) -> (copy: Self)
        ensures
            copy@ == self@,
    {
        KeyId { name: self.name.clone() }
    }
}

/// A logical key before it is written as a name: a character that was typed,
/// or a key that has a name only.
#[derive(Debug, PartialEq, Eq)]
pub enum LogicalKey {
    Character(char),
    Named(String),
}

impl Clone for LogicalKey {
    fn clone(&self) -> (copy: Self)
        ensures
            copy@ == self@,
    {
        match self {
            LogicalKey::Character(c) => LogicalKey::Character(*c),
            LogicalKey::Named(name) => LogicalKey::Named(name.clone()),
        }
    }
}

/// What a [`LogicalKey`] denotes.
pub enum LogicalKeyView {
    Character(char),
    Named(Seq<char>),
}

impl View for LogicalKey {
    type V = LogicalKeyView;

    open spec fn view(&self) -> LogicalKeyView {
        match self {
            LogicalKey::Character(c) => LogicalKeyView::Character(*c),
            LogicalKey::Named(name) => LogicalKeyView::Named(name@),
        }
    }
}

impl LogicalKeyView {
    /// The key's name: the character alone, or the name as it is.
    pub open spec fn name(self) -> Seq<char> {
        match self {
            LogicalKeyView::Character(c) => seq![c],
            LogicalKeyView::Named(name) => name,
        }
    }
}

/// The key that a quoted character stands for, by the literal's source text:
/// the apostrophe, the backtick and the backslash have one.
pub open spec fn quoted_key_name(text: Seq<char>) -> Option<Seq<char>> {
    if text == "'\\''"@ {
        Some("Apostrophe"@)
    } else if text == "'`'"@ {
        Some("Grave"@)
    } else if text == "'\\\\'"@ {
        Some("Backslash"@)
    } else {
        None
    }
}

/// The key that a punctuation character stands for, if it stands for one.
pub open spec fn punct_key_name(c: char) -> Option<Seq<char>> {
    if c == ';' {
        Some("Semicolon"@)
    } else if c == ':' {
        Some("Colon"@)
    } else if c == ',' {
        Some("Comma"@)
    } else if c == '.' {
        Some("Period"@)
    } else if c == '^' {
        Some("Caret"@)
    } else if c == '=' {
        Some("Equals"@)
    } else if c == '/' {
        Some("Slash"@)
    } else if c == '-' {
        Some("Minus"@)
    } else if c == '*' {
        Some("Asterisk"@)
    } else if c == '+' {
        Some("Plus"@)
    } else if c == '@' {
        Some("At"@)
    } else {
        None
    }
}

/// The physical key that a token names. A digit gives `Key` and the digit, a
/// quoted character and a punctuation character their table's name, an
/// uppercase letter itself, and a longer name itself.
pub open spec fn physical_key(token: TokenView) -> Result<Seq<char>, ErrorKind> {
    match token {
        TokenView::Literal(text) => {
            if text.len() == 1 && '0' <= text[0] && text[0] <= '9' {
                Ok("Key"@ + text)
            } else {
                match quoted_key_name(text) {
                    Some(name) => Ok(name),
                    None => Err(ErrorKind::UnrecognizedLiteral),
                }
            }
        },
        TokenView::Punct(c) => match punct_key_name(c) {
            Some(name) => Ok(name),
            None => Err(ErrorKind::UnrecognizedPunctuation),
        },
        TokenView::Name(text) => {
            if text.len() == 1 {
                if 'A' <= text[0] && text[0] <= 'Z' {
                    Ok(text)
                } else if 'a' <= text[0] && text[0] <= 'z' {
                    Err(ErrorKind::LowercaseKeyName)
                } else {
                    Err(ErrorKind::UnrecognizedLiteral)
                }
            } else {
                Ok(text)
            }
        },
        TokenView::Group(_, _) => Err(ErrorKind::MissingKeyToken),
    }
}

/// The logical key that a token names: what was typed. A token of one
/// character gives that character, whatever its case; a quoted character its
/// table's name; a longer name itself.
pub open spec fn logical_key_raw(token: TokenView) -> Result<LogicalKeyView, ErrorKind> {
    match token {
        TokenView::Literal(text) => {
            if text.len() == 1 {
                Ok(LogicalKeyView::Character(text[0]))
            } else {
                match quoted_key_name(text) {
                    Some(name) => Ok(LogicalKeyView::Named(name)),
                    None => Err(ErrorKind::UnrecognizedLiteral),
                }
            }
        },
        TokenView::Punct(c) => Ok(LogicalKeyView::Character(c)),
        TokenView::Name(text) => {
            if text.len() == 1 {
                Ok(LogicalKeyView::Character(text[0]))
            } else {
                Ok(LogicalKeyView::Named(text))
            }
        },
        TokenView::Group(_, _) => Err(ErrorKind::MissingKeyToken),
    }
}

/// The name of the logical key that a token names.
pub open spec fn logical_key(token: TokenView) -> Result<Seq<char>, ErrorKind> {
    match logical_key_raw(token) {
        Ok(key) => Ok(key.name()),
        Err(kind) => Err(kind),
    }
}

/// A resolved key, or the failure, with the key taken by its view.
pub open spec fn key_view(key: Result<KeyId, ErrorKind>) -> Result<Seq<char>, ErrorKind> {
    match key {
        Ok(id) => Ok(id@),
        Err(kind) => Err(kind),
    }
}

/// A resolved logical key, or the failure, with the key taken by its view.
pub open spec fn logical_key_view(key: Result<LogicalKey, ErrorKind>) -> Result<
    LogicalKeyView,
    ErrorKind,
> {
    match key {
        Ok(k) => Ok(k@),
        Err(kind) => Err(kind),
    }
}

fn quoted_name(text: &String) -> (name: Option<&'static str>)
    ensures
        match name {
            Some(n) => quoted_key_name(text@) == Some(n@),
            None => quoted_key_name(text@) is None,
        },
{
    if text_is(text, "'\\''") {
        Some("Apostrophe")
    } else if text_is(text, "'`'") {
        Some("Grave")
    } else if text_is(text, "'\\\\'") {
        Some("Backslash")
    } else {
        None
    }
}

fn punct_name(c: char) -> (name: Option<&'static str>)
    ensures
        match name {
            Some(n) => punct_key_name(c) == Some(n@),
            None => punct_key_name(c) is None,
        },
{
    if c == ';' {
        Some("Semicolon")
    } else if c == ':' {
        Some("Colon")
    } else if c == ',' {
        Some("Comma")
    } else if c == '.' {
        Some("Period")
    } else if c == '^' {
        Some("Caret")
    } else if c == '=' {
        Some("Equals")
    } else if c == '/' {
        Some("Slash")
    } else if c == '-' {
        Some("Minus")
    } else if c == '*' {
        Some("Asterisk")
    } else if c == '+' {
        Some("Plus")
    } else if c == '@' {
        Some("At")
    } else {
        None
    }
}

/// Resolves a token to a physical key.
///
/// Fails with `UnrecognizedLiteral` for a literal outside the table and for a
/// one-character name that is no ASCII letter, with `UnrecognizedPunctuation`
/// for punctuation outside the table, with `LowercaseKeyName` for a lowercase
/// letter, and with `MissingKeyToken` for a group.
pub fn get_pkey(token: &Token) -> (key: Result<KeyId, ErrorKind>)
    ensures
        key_view(key) == physical_key(token@),
{
    match token {
        Token::Literal(text) => {
            let source = text.as_str();
            if source.unicode_len() == 1 && '0' <= source.get_char(0) && source.get_char(0) <= '9' {
                Ok(KeyId { name: "Key".to_owned().concat(source) })
            } else {
                match quoted_name(text) {
                    Some(name) => Ok(KeyId { name: name.to_owned() }),
                    None => Err(ErrorKind::UnrecognizedLiteral),
                }
            }
        },
        Token::Punct(c) => match punct_name(*c) {
            Some(name) => Ok(KeyId { name: name.to_owned() }),
            None => Err(ErrorKind::UnrecognizedPunctuation),
        },
        Token::Name(text) => {
            let source = text.as_str();
            if source.unicode_len() == 1 {
                let c = source.get_char(0);
                if 'A' <= c && c <= 'Z' {
                    Ok(KeyId { name: text.clone() })
                } else if 'a' <= c && c <= 'z' {
                    Err(ErrorKind::LowercaseKeyName)
                } else {
                    Err(ErrorKind::UnrecognizedLiteral)
                }
            } else {
                Ok(KeyId { name: text.clone() })
            }
        },
        Token::Group(_, _) => Err(ErrorKind::MissingKeyToken),
    }
}

/// Resolves a token to a logical key, a character or a name.
///
/// Fails with `UnrecognizedLiteral` for a literal of several characters
/// outside the table, and with `MissingKeyToken` for a group.
pub fn get_key_raw(token: &Token) -> (key: Result<LogicalKey, ErrorKind>)
    ensures
        logical_key_view(key) == logical_key_raw(token@),
{
    match token {
        Token::Literal(text) => {
            let source = text.as_str();
            if source.unicode_len() == 1 {
                Ok(LogicalKey::Character(source.get_char(0)))
            } else {
                match quoted_name(text) {
                    Some(name) => Ok(LogicalKey::Named(name.to_owned())),
                    None => Err(ErrorKind::UnrecognizedLiteral),
                }
            }
        },
        Token::Punct(c) => Ok(LogicalKey::Character(*c)),
        Token::Name(text) => {
            let source = text.as_str();
            if source.unicode_len() == 1 {
                Ok(LogicalKey::Character(source.get_char(0)))
            } else {
                Ok(LogicalKey::Named(text.clone()))
            }
        },
        Token::Group(_, _) => Err(ErrorKind::MissingKeyToken),
    }
}

/// `String::from` on a `char`, which gives the string of that one character.
#[verifier::external_body]
fn char_to_string(c: char) -> (text: String)
    ensures
        text@ == seq![c],
{
    String::from(c)
}

/// Resolves a token to the name of a logical key.
///
/// Fails as [`get_key_raw`] does.
pub fn get_key(token: &Token) -> (key: Result<KeyId, ErrorKind>)
    ensures
        key_view(key) == logical_key(token@),
{
    match get_key_raw(token) {
        Ok(LogicalKey::Character(c)) => Ok(KeyId { name: char_to_string(c) }),
        Ok(LogicalKey::Named(name)) => Ok(KeyId { name }),
        Err(kind) => Err(kind),
    }
}

/// Which key a token is read as: the physical key, by the name of the key
/// on the board, or the logical key, by what is typed.
#[derive(Clone, Copy, Debug, PartialEq, Eq, Structural)]
pub enum KeyMode {
    Physical,
    Logical,
}

/// How keys are resolved: in which mode, and against which backend. Without a
/// namespace every key that the mode yields is taken. With one, the key must
/// be among the backend's names; a logical key of one character is a
/// character, not a name, and is taken as it is.
#[derive(Clone, Copy, Debug)]
pub struct Resolver<'a> {
    pub mode: KeyMode,
    pub namespace: Option<&'a [String]>,
}

/// What a [`Resolver`] denotes.
pub struct ResolverView {
    pub mode: KeyMode,
    pub namespace: Option<Seq<Seq<char>>>,
}

impl<'a> View for Resolver<'a> {
    type V = ResolverView;

    open spec fn view(&self) -> ResolverView {
        ResolverView {
            mode: self.mode,
            namespace: match self.namespace {
                Some(names) => Some(names.deep_view()),
                None => None,
            },
        }
    }
}

impl ResolverView {
    /// The key that the mode gives for a token, before any backend is asked.
    pub open spec fn key_of(self, token: TokenView) -> Result<Seq<char>, ErrorKind> {
        match self.mode {
            KeyMode::Physical => physical_key(token),
            KeyMode::Logical => logical_key(token),
        }
    }

    /// Whether the backend, if there is one, has the key.
    pub open spec fn admits(self, key: Seq<char>) -> bool {
        match self.namespace {
            None => true,
            Some(names) => (self.mode == KeyMode::Logical && key.len() == 1) || names.contains(
                key,
            ),
        }
    }

    /// The key that a token resolves to: the mode's key where the backend
    /// admits it, `UnknownBackendKey` where it does not.
    pub open spec fn resolve(self, token: TokenView) -> Result<Seq<char>, ErrorKind> {
        match self.key_of(token) {
            Ok(key) => if self.admits(key) {
                Ok(key)
            } else {
                Err(ErrorKind::UnknownBackendKey)
            },
            Err(kind) => Err(kind),
        }
    }
}

fn names_contain(names: &[String], key: &String) -> (found: bool)
    ensures
        found == names.deep_view().contains(key@),
{
    let mut i: usize = 0;
    while i < names.len()
        invariant
            i <= names.len(),
            forall|j: int| 0 <= j < i ==> names.deep_view()[j] != key@,
        decreases names.len() - i,
    {
        if names[i] == *key {
            assert(names.deep_view()[i as int] == key@);
            return true;
        }
        i += 1;
    }
    false
}

impl<'a> Resolver<'a> {
    /// The resolver that asks no backend.
    pub fn generic(mode: KeyMode) -> (resolver: Self)
        ensures
            resolver@ == (ResolverView { mode, namespace: None }),
    {
        Resolver { mode, namespace: None }
    }

    /// The resolver that takes only keys of the backend whose names are given.
    pub fn backend(mode: KeyMode, namespace: &'a [String]) -> (resolver: Self)
        ensures
            resolver@ == (ResolverView { mode, namespace: Some(namespace.deep_view()) }),
    {
        Resolver { mode, namespace: Some(namespace) }
    }

    /// Resolves a token to a key.
    ///
    /// Fails as [`get_pkey`] or [`get_key`] does, by the mode, and with
    /// `UnknownBackendKey` where the backend does not have the key.
    pub fn resolve(&self, token: &Token) -> (key: Result<KeyId, ErrorKind>)
        ensures
            key_view(key) == self@.resolve(token@),
    {
        let found = match self.mode {
            KeyMode::Physical => get_pkey(token),
            KeyMode::Logical => get_key(token),
        };
        match found {
            Ok(id) => {
                let admitted = match self.namespace {
                    None => true,
                    Some(names) => {
                        let character = match self.mode {
                            KeyMode::Physical => false,
                            KeyMode::Logical => id.name.as_str().unicode_len() == 1,
                        };
                        character || names_contain(names, &id.name)
                    },
                };
                if admitted {
                    Ok(id)
                } else {
                    Err(ErrorKind::UnknownBackendKey)
                }
            },
            Err(kind) => Err(kind),
        }
    }
}

} // verus!
