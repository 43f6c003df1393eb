//! The entry points: one chord alone, or a sequence of chords.

use vstd::prelude::*;
use crate::chord::{chord_at, read_key_chord, Chord, ChordView};
use crate::error::{Diagnostic, DiagnosticView, ErrorKind};
use crate::key::{KeyMode, Resolver, ResolverView};
use crate::token::{Token, TokenView};

verus! {

/// The one chord that the tokens spell. Tokens after it are in excess.
pub open spec fn single_chord(tokens: Seq<TokenView>, resolver: ResolverView) -> Result<
    ChordView,
    DiagnosticView,
> {
    match chord_at(tokens, 0, resolver) {
        Ok((chord, next)) => if next >= tokens.len() {
            Ok(chord)
        } else {
            Err(DiagnosticView { kind: ErrorKind::ExcessTokens, position: next })
        },
        Err(diagnostic) => Err(diagnostic),
    }
}

/// The chords that the tokens from `from` on spell, one after the other
/// until no token is left. The first failure is the failure of the whole.
pub open spec fn chords_from(tokens: Seq<TokenView>, from: int, resolver: ResolverView) -> Result<
    Seq<ChordView>,
    DiagnosticView,
>
    decreases tokens.len() - from,
{
    match chord_at(tokens, from, resolver) {
        Ok((chord, next)) => if next >= tokens.len() {
            Ok(seq![chord])
        } else {
            match chords_from(tokens, next, resolver) {
                Ok(rest) => Ok(seq![chord] + rest),
                Err(diagnostic) => Err(diagnostic),
            }
        },
        Err(diagnostic) => Err(diagnostic),
    }
}

/// The sequence of chords that the tokens spell. It has at least one chord:
/// no tokens at all are an error.
pub open spec fn chord_sequence(tokens: Seq<TokenView>, resolver: ResolverView) -> Result<
    Seq<ChordView>,
    DiagnosticView,
> {
    if tokens.len() == 0 {
        Err(DiagnosticView { kind: ErrorKind::EmptyInput, position: 0 })
    } else {
        chords_from(tokens, 0, resolver)
    }
}

/// A chord, or the failure, each taken by its view.
pub open spec fn chord_view(read: Result<Chord, Diagnostic>) -> Result<ChordView, DiagnosticView> {
    match read {
        Ok(chord) => Ok(chord@),
        Err(diagnostic) => Err(diagnostic@),
    }
}

/// A list of chords, or the failure, each taken by its view.
pub open spec fn sequence_view(read: Result<Vec<Chord>, Diagnostic>) -> Result<
    Seq<ChordView>,
    DiagnosticView,
> {
    match read {
        Ok(chords) => Ok(chords.deep_view()),
        Err(diagnostic) => Err(diagnostic@),
    }
}

/// The chords read so far, put before what is still to be read.
spec fn continued(done: Seq<ChordView>, rest: Result<Seq<ChordView>, DiagnosticView>) -> Result<
    Seq<ChordView>,
    DiagnosticView,
> {
    match rest {
        Ok(chords) => Ok(done + chords),
        Err(diagnostic) => Err(diagnostic),
    }
}

/// Reads the tokens as exactly one chord.
///
/// Fails as [`read_key_chord`] does, and with `ExcessTokens`, at the first
/// token after the chord, where any token is left.
pub fn read_single_chord(tokens: &[Token], resolver: Resolver) -> (read: Result<Chord, Diagnostic>)
    ensures
        chord_view(read) == single_chord(tokens.deep_view(), resolver@),
{
    match read_key_chord(tokens, 0, resolver) {
        Ok((chord, next)) => {
            if next >= tokens.len() {
                Ok(chord)
            } else {
                Err(Diagnostic { kind: ErrorKind::ExcessTokens, position: next })
            }
        },
        Err(diagnostic) => Err(diagnostic),
    }
}

/// Reads the tokens as a sequence of chords, in the order in which they are
/// written, until no token is left.
///
/// Fails with `EmptyInput` where there is no token, and with the failure of
/// the first chord that cannot be read.
pub fn read_sequence(tokens: &[Token], resolver: Resolver) -> (read: Result<
    Vec<Chord>,
    Diagnostic,
>)
    ensures
        sequence_view(read) == chord_sequence(tokens.deep_view(), resolver@),
{
    if tokens.len() == 0 {
        return Err(Diagnostic { kind: ErrorKind::EmptyInput, position: 0 });
    }
    let ghost whole = chords_from(tokens.deep_view(), 0, resolver@);
    let mut chords: Vec<Chord> = Vec::new();
    let mut cursor: usize = 0;
    assert(chords.deep_view() + seq![] =~= Seq::<ChordView>::empty());
    loop
        invariant
            cursor < tokens.len(),
            whole == chord_sequence(tokens.deep_view(), resolver@),
            whole == continued(
                chords.deep_view(),
                chords_from(tokens.deep_view(), cursor as int, resolver@),
            ),
        decreases tokens.len() - cursor,
    {
        match read_key_chord(tokens, cursor, resolver) {
            Ok((chord, next)) => {
                let ghost done = chords.deep_view();
                let ghost last = chord@;
                chords.push(chord);
                assert(chords.deep_view() =~= done + seq![last]);
                if next >= tokens.len() {
                    return Ok(chords);
                }
                proof {
                    let rest = chords_from(tokens.deep_view(), next as int, resolver@);
                    if let Ok(more) = rest {
                        assert(done + (seq![last] + more) =~= (done + seq![last]) + more);
                    }
                }
                cursor = next;
            },
            Err(diagnostic) => {
                return Err(diagnostic);
            },
        }
    }
}

/// Reads one chord with a physical key, asking no backend.
///
/// Fails as [`read_single_chord`] does.
pub fn pkey(tokens: &[Token]) -> (read: Result<Chord, Diagnostic>)
    ensures
        chord_view(read) == single_chord(
            tokens.deep_view(),
            ResolverView { mode: KeyMode::Physical, namespace: None },
        ),
{
    read_single_chord(tokens, Resolver::generic(KeyMode::Physical))
}

/// Reads one chord with a physical key that must be among the names of the
/// backend's keys.
///
/// Fails as [`read_single_chord`] does.
pub fn bevy_pkey(tokens: &[Token], key_codes: &[String]) -> (read: Result<Chord, Diagnostic>)
    ensures
        chord_view(read) == single_chord(
            tokens.deep_view(),
            ResolverView { mode: KeyMode::Physical, namespace: Some(key_codes.deep_view()) },
        ),
{
    read_single_chord(tokens, Resolver::backend(KeyMode::Physical, key_codes))
}

/// Reads one chord with a logical key, asking no backend.
///
/// Fails as [`read_single_chord`] does.
pub fn lkey(tokens: &[Token]) -> (read: Result<Chord, Diagnostic>)
    ensures
        chord_view(read) == single_chord(
            tokens.deep_view(),
            ResolverView { mode: KeyMode::Logical, namespace: None },
        ),
{
    read_single_chord(tokens, Resolver::generic(KeyMode::Logical))
}

/// Reads one chord with a logical key for a backend of characters and named
/// keys: a character is taken as it is, a longer name must be among the
/// backend's names.
///
/// Fails as [`read_single_chord`] does.
pub fn winit_lkey(tokens: &[Token], key_names: &[String]) -> (read: Result<Chord, Diagnostic>)
    ensures
        chord_view(read) == single_chord(
            tokens.deep_view(),
            ResolverView { mode: KeyMode::Logical, namespace: Some(key_names.deep_view()) },
        ),
{
    read_single_chord(tokens, Resolver::backend(KeyMode::Logical, key_names))
}

/// Reads a sequence of chords, asking no backend; each key is taken as it
/// is typed.
///
/// Fails as [`read_sequence`] does.
pub fn pkeyseq(tokens: &[Token]) -> (read: Result<Vec<Chord>, Diagnostic>)
    ensures
        sequence_view(read) == chord_sequence(
            tokens.deep_view(),
            ResolverView { mode: KeyMode::Logical, namespace: None },
        ),
{
    read_sequence(tokens, Resolver::generic(KeyMode::Logical))
}

} // verus!
