//! One chord: a chain of modifiers and the key after it.

use vstd::prelude::*;
use crate::error::{Diagnostic, DiagnosticView, ErrorKind};
use crate::key::{key_view, KeyId, Resolver, ResolverView};
use crate::modifier::{combined_flags, has_flag, modifier_named, Modifier, ModifierMask};
use crate::token::{is_dash, Token, TokenView};

verus! {

/// A set of modifiers and the key that is pressed with them.
#[derive(Debug, PartialEq, Eq)]
pub struct Chord {
    pub modifiers: ModifierMask,
    pub key: KeyId,
}

/// What a [`Chord`] denotes: the mask as a number and the key's name.
pub struct ChordView {
    pub mask: u8,
    pub key: Seq<char>,
}

impl DeepView for Chord {
    type V = ChordView;

    open spec fn deep_view(&self) -> ChordView {
        ChordView { mask: self.modifiers@, key: self.key@ }
    }
}

impl View for Chord {
    type V = ChordView;

    open spec fn view(&self) -> ChordView {
        self.deep_view()
    }
}

impl Clone for Chord {
    fn clone(&self) -> (copy: Self)
        ensures
            copy@ == self@,
    {
        Chord { modifiers: self.modifiers, key: self.key.clone() }
    }
}

/// The modifier that a token names, if it is a name and names one.
pub open spec fn modifier_of(token: TokenView) -> Option<Modifier> {
    match token {
        TokenView::Name(word) => modifier_named(word),
        _ => None,
    }
}

/// The modifier of the link of a chain that stands at `at`, if one stands
/// there: the name of a modifier, and a dash right after it.
pub open spec fn link_at(tokens: Seq<TokenView>, at: int) -> Option<Modifier> {
    if 0 <= at && at + 1 < tokens.len() && is_dash(tokens[at + 1]) {
        modifier_of(tokens[at])
    } else {
        None
    }
}

/// The modifiers of the chain that starts at `from`, in the order in which
/// they are written. The chain ends before the first token that is no
/// modifier's name or has no dash after it.
pub open spec fn leading_modifiers(tokens: Seq<TokenView>, from: int) -> Seq<Modifier>
    decreases tokens.len() - from,
{
    match link_at(tokens, from) {
        Some(modifier) => seq![modifier] + leading_modifiers(tokens, from + 2),
        None => Seq::empty(),
    }
}

/// The key that the token at `at` resolves to, and the index after it.
/// Where no token stands at `at`, the key is missing.
pub open spec fn key_at(tokens: Seq<TokenView>, at: int, resolver: ResolverView) -> Result<
    (Seq<char>, int),
    DiagnosticView,
> {
    if 0 <= at < tokens.len() {
        match resolver.resolve(tokens[at]) {
            Ok(key) => Ok((key, at + 1)),
            Err(kind) => Err(DiagnosticView { kind, position: at }),
        }
    } else {
        Err(DiagnosticView { kind: ErrorKind::MissingKeyToken, position: at })
    }
}

/// The chord that starts at `from`, and the index after its key: the mask
/// of the leading modifiers, and the one token after them as the key.
pub open spec fn chord_at(tokens: Seq<TokenView>, from: int, resolver: ResolverView) -> Result<
    (ChordView, int),
    DiagnosticView,
> {
    let modifiers = leading_modifiers(tokens, from);
    match key_at(tokens, from + 2 * modifiers.len(), resolver) {
        Ok((key, next)) => Ok((ChordView { mask: combined_flags(modifiers), key }, next)),
        Err(diagnostic) => Err(diagnostic),
    }
}

/// A key and the index after it, or the failure, each taken by its view.
pub open spec fn key_read_view(read: Result<(KeyId, usize), Diagnostic>) -> Result<
    (Seq<char>, int),
    DiagnosticView,
> {
    match read {
        Ok((key, next)) => Ok((key@, next as int)),
        Err(diagnostic) => Err(diagnostic@),
    }
}

/// A chord and the index after it, or the failure, each taken by its view.
pub open spec fn chord_read_view(read: Result<(Chord, usize), Diagnostic>) -> Result<
    (ChordView, int),
    DiagnosticView,
> {
    match read {
        Ok((chord, next)) => Ok((chord@, next as int)),
        Err(diagnostic) => Err(diagnostic@),
    }
}

fn read_link(tokens: &[Token], at: usize) -> (modifier: Option<Modifier>)
    ensures
        modifier == link_at(tokens.deep_view(), at as int),
{
    if at < tokens.len() && tokens.len() - at >= 2 && tokens[at + 1].is_dash() {
        match &tokens[at] {
            Token::Name(word) => Modifier::from_word(word),
            _ => None,
        }
    } else {
        None
    }
}

/// Reads the chain of modifiers that starts at `from`: as long as the name
/// of a modifier stands there with a dash after it, both are taken and the
/// modifier's flag is set in the mask. Returns the mask and the index of the
/// first token that was not taken, which no link stands at; it is the
/// input's length at most, unless `from` is beyond that.
pub fn read_modifiers(tokens: &[Token], from: usize) -> (read: (ModifierMask, usize))
    ensures
        read.0@ == combined_flags(leading_modifiers(tokens.deep_view(), from as int)),
        read.1 == from + 2 * leading_modifiers(tokens.deep_view(), from as int).len(),
        link_at(tokens.deep_view(), read.1 as int) is None,
        from <= tokens.len() ==> read.1 <= tokens.len(),
{
    let ghost all = leading_modifiers(tokens.deep_view(), from as int);
    let mut mask = ModifierMask::empty();
    let mut cursor = from;
    proof {
        let rest = combined_flags(all);
        assert(0u8 | rest == rest) by (bit_vector);
    }
    loop
        invariant
            combined_flags(all) == mask@ | combined_flags(
                leading_modifiers(tokens.deep_view(), cursor as int),
            ),
            from + 2 * all.len() == cursor + 2 * leading_modifiers(
                tokens.deep_view(),
                cursor as int,
            ).len(),
            from <= tokens.len() ==> cursor <= tokens.len(),
        ensures
            link_at(tokens.deep_view(), cursor as int) is None,
        decreases tokens.len() - cursor,
    {
        match read_link(tokens, cursor) {
            Some(modifier) => {
                proof {
                    let seen = mask@;
                    let flag = modifier.flag();
                    let after = leading_modifiers(tokens.deep_view(), cursor + 2);
                    let rest = combined_flags(after);
                    assert((seq![modifier] + after).drop_first() =~= after);
                    assert(seen | (flag | rest) == (seen | flag) | rest) by (bit_vector);
                }
                mask = mask.with(modifier);
                cursor = cursor + 2;
            },
            None => {
                break ;
            },
        }
    }
    proof {
        let seen = mask@;
        assert(seen | 0u8 == seen) by (bit_vector);
    }
    (mask, cursor)
}

/// Reads the token at `at` as the key.
///
/// Fails with `MissingKeyToken` where no token stands at `at`, and as the
/// resolver does on the token that stands there; the failure's position is
/// `at`.
pub fn read_key(tokens: &[Token], at: usize, resolver: Resolver) -> (read: Result<
    (KeyId, usize),
    Diagnostic,
>)
    ensures
        key_read_view(read) == key_at(tokens.deep_view(), at as int, resolver@),
{
    if at < tokens.len() {
        match resolver.resolve(&tokens[at]) {
            Ok(key) => Ok((key, at + 1)),
            Err(kind) => Err(Diagnostic { kind, position: at }),
        }
    } else {
        Err(Diagnostic { kind: ErrorKind::MissingKeyToken, position: at })
    }
}

/// Reads one chord that starts at `from`: the chain of modifiers, then
/// exactly one token as the key, however many tokens follow. Returns the
/// chord and the index of the first token after it.
///
/// Fails as [`read_key`] does on the token after the chain.
pub fn read_key_chord(tokens: &[Token], from: usize, resolver: Resolver) -> (read: Result<
    (Chord, usize),
    Diagnostic,
>)
    ensures
        chord_read_view(read) == chord_at(tokens.deep_view(), from as int, resolver@),
{
    let (modifiers, at) = read_modifiers(tokens, from);
    match read_key(tokens, at, resolver) {
        Ok((key, next)) => Ok((Chord { modifiers, key }, next)),
        Err(diagnostic) => Err(diagnostic),
    }
}

/// The two tokens that write one modifier of a chain: its word and a dash.
pub open spec fn link(modifier: Modifier) -> Seq<TokenView> {
    seq![TokenView::Name(modifier.word_text()), TokenView::Punct('-')]
}

/// The tokens that write a chain of modifiers, in the order given.
pub open spec fn chain_notation(modifiers: Seq<Modifier>) -> Seq<TokenView>
    decreases modifiers.len(),
{
    if modifiers.len() == 0 {
        Seq::empty()
    } else {
        link(modifiers[0]) + chain_notation(modifiers.drop_first())
    }
}

/// The modifiers whose flags are set in `mask`, in the order shift, control,
/// alt, super.
pub open spec fn mask_modifiers(mask: u8) -> Seq<Modifier> {
    let shift = if has_flag(mask, Modifier::Shift) {
        seq![Modifier::Shift]
    } else {
        Seq::empty()
    };
    let control = if has_flag(mask, Modifier::Control) {
        seq![Modifier::Control]
    } else {
        Seq::empty()
    };
    let alt = if has_flag(mask, Modifier::Alt) {
        seq![Modifier::Alt]
    } else {
        Seq::empty()
    };
    let sup = if has_flag(mask, Modifier::Super) {
        seq![Modifier::Super]
    } else {
        Seq::empty()
    };
    shift + control + alt + sup
}

impl ChordView {
    /// The chord written back as tokens: its modifiers as a chain, in the
    /// order shift, control, alt, super, and its key as a name.
    pub open spec fn notation(self) -> Seq<TokenView> {
        chain_notation(mask_modifiers(self.mask)) + seq![TokenView::Name(self.key)]
    }
}

/// A chain with one more modifier is written with one more link at its end.
pub proof fn lemma_chain_notation_push(modifiers: Seq<Modifier>, modifier: Modifier)
    ensures
        chain_notation(modifiers.push(modifier)) == chain_notation(modifiers) + link(modifier),
    decreases modifiers.len(),
{
    let longer = modifiers.push(modifier);
    if modifiers.len() == 0 {
        assert(longer.drop_first() =~= modifiers);
        assert(chain_notation(longer) =~= chain_notation(modifiers) + link(modifier));
    } else {
        let tail = modifiers.drop_first();
        lemma_chain_notation_push(tail, modifier);
        assert(longer.drop_first() =~= tail.push(modifier));
        assert(chain_notation(longer) =~= chain_notation(modifiers) + link(modifier));
    }
}

fn push_link(tokens: &mut Vec<Token>, modifier: Modifier)
    ensures
        final(tokens).deep_view() == old(tokens).deep_view() + link(modifier),
{
    tokens.push(Token::Name(modifier.word().to_owned()));
    tokens.push(Token::Punct('-'));
    assert(tokens.deep_view() =~= old(tokens).deep_view() + link(modifier));
}

impl Chord {
    /// Writes the chord back as tokens of the notation: a link for each
    /// modifier of the mask, in the order shift, control, alt, super, then
    /// the key as a name.
    pub fn to_tokens(&self) -> (tokens: Vec<Token>)
        ensures
            tokens.deep_view() == self@.notation(),
    {
        let mut tokens: Vec<Token> = Vec::new();
        let ghost mut written = Seq::<Modifier>::empty();
        assert(tokens.deep_view() =~= chain_notation(written));
        if self.modifiers.contains(Modifier::Shift) {
            push_link(&mut tokens, Modifier::Shift);
            proof {
                lemma_chain_notation_push(written, Modifier::Shift);
                written = written.push(Modifier::Shift);
            }
        }
        if self.modifiers.contains(Modifier::Control) {
            push_link(&mut tokens, Modifier::Control);
            proof {
                lemma_chain_notation_push(written, Modifier::Control);
                written = written.push(Modifier::Control);
            }
        }
        if self.modifiers.contains(Modifier::Alt) {
            push_link(&mut tokens, Modifier::Alt);
            proof {
                lemma_chain_notation_push(written, Modifier::Alt);
                written = written.push(Modifier::Alt);
            }
        }
        if self.modifiers.contains(Modifier::Super) {
            push_link(&mut tokens, Modifier::Super);
            proof {
                lemma_chain_notation_push(written, Modifier::Super);
                written = written.push(Modifier::Super);
            }
        }
        assert(written =~= mask_modifiers(self.modifiers@));
        let ghost chain = tokens.deep_view();
        tokens.push(Token::Name(self.key.name.clone()));
        assert(tokens.deep_view() =~= chain + seq![TokenView::Name(self.key@)]);
        tokens
    }
}

} // verus!
