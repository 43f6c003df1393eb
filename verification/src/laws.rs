//! What holds of the notation on every input.

use vstd::prelude::*;
use crate::chord::{
    chain_notation, leading_modifiers, link, link_at, mask_modifiers, ChordView,
};
use crate::error::{DiagnosticView, ErrorKind};
use crate::key::{logical_key, physical_key, KeyMode, ResolverView};
use crate::modifier::{combined_flags, has_flag, modifier_named, Modifier};
use crate::sequence::{chord_sequence, chords_from, single_chord};
use crate::token::TokenView;

verus! {

/// The word of a modifier names that modifier and no other.
pub proof fn lemma_word_names_modifier(modifier: Modifier)
    requires
        modifier != Modifier::Empty,
    ensures
        modifier_named(modifier.word_text()) == Some(modifier),
{
    reveal_strlit("shift");
    reveal_strlit("ctrl");
    reveal_strlit("alt");
    reveal_strlit("super");
    assert("shift"@.len() == 5 && "ctrl"@.len() == 4 && "alt"@.len() == 3);
    assert("shift"@[1] != "super"@[1]);
}

/// The flags of any modifiers leave the bits above the four flags clear.
pub proof fn lemma_flags_fit(modifiers: Seq<Modifier>)
    ensures
        combined_flags(modifiers) <= 15,
    decreases modifiers.len(),
{
    if modifiers.len() > 0 {
        lemma_flags_fit(modifiers.drop_first());
        let flag = modifiers[0].flag();
        let rest = combined_flags(modifiers.drop_first());
        assert(flag | rest <= 15) by (bit_vector)
            requires
                flag <= 15,
                rest <= 15,
        ;
    }
}

/// A modifier's flag is set in the OR of the flags of a list of modifiers
/// exactly if the modifier is in the list.
pub proof fn lemma_flag_set_iff_written(modifiers: Seq<Modifier>, modifier: Modifier)
    requires
        modifier != Modifier::Empty,
    ensures
        has_flag(combined_flags(modifiers), modifier) <==> modifiers.contains(modifier),
    decreases modifiers.len(),
{
    let wanted = modifier.flag();
    if modifiers.len() == 0 {
        assert(0u8 & wanted == 0) by (bit_vector);
    } else {
        let head = modifiers[0];
        let tail = modifiers.drop_first();
        lemma_flag_set_iff_written(tail, modifier);
        let flag = head.flag();
        let rest = combined_flags(tail);
        assert(((flag | rest) & wanted != 0) <==> (flag & wanted != 0) || (rest & wanted != 0))
            by (bit_vector);
        assert((flag & wanted != 0) <==> flag == wanted) by (bit_vector)
            requires
                flag == 0 || flag == 1 || flag == 2 || flag == 4 || flag == 8,
                wanted == 1 || wanted == 2 || wanted == 4 || wanted == 8,
        ;
        if tail.contains(modifier) {
            let i = choose|i: int| 0 <= i < tail.len() && tail[i] == modifier;
            assert(modifiers[i + 1] == modifier);
        }
        if modifiers.contains(modifier) && head != modifier {
            let i = choose|i: int| 0 <= i < modifiers.len() && modifiers[i] == modifier;
            assert(tail[i - 1] == modifier);
        }
    }
}

/// The OR of the flags depends only on which modifiers are in the list, not
/// on their order nor on how often one is written: `shift-ctrl` and
/// `ctrl-shift` both give 3.
pub proof fn law_flags_ignore_order(first: Seq<Modifier>, second: Seq<Modifier>)
    requires
        forall|modifier: Modifier| first.contains(modifier) <==> second.contains(modifier),
    ensures
        combined_flags(first) == combined_flags(second),
{
    let a = combined_flags(first);
    let b = combined_flags(second);
    lemma_flags_fit(first);
    lemma_flags_fit(second);
    lemma_flag_set_iff_written(first, Modifier::Shift);
    lemma_flag_set_iff_written(second, Modifier::Shift);
    lemma_flag_set_iff_written(first, Modifier::Control);
    lemma_flag_set_iff_written(second, Modifier::Control);
    lemma_flag_set_iff_written(first, Modifier::Alt);
    lemma_flag_set_iff_written(second, Modifier::Alt);
    lemma_flag_set_iff_written(first, Modifier::Super);
    lemma_flag_set_iff_written(second, Modifier::Super);
    assert(a == b) by (bit_vector)
        requires
            a <= 15,
            b <= 15,
            (a & 1 != 0) == (b & 1 != 0),
            (a & 2 != 0) == (b & 2 != 0),
            (a & 4 != 0) == (b & 4 != 0),
            (a & 8 != 0) == (b & 8 != 0),
    ;
}

/// The modifiers of a chain are those of its links, two tokens apart, and
/// no link stands where the chain ends: the reader takes every link and
/// stops at the first token that is no modifier's name or has no dash
/// after it.
pub proof fn law_chain_ends_at_first_break(tokens: Seq<TokenView>, from: int)
    ensures
        forall|i: int|
            0 <= i < leading_modifiers(tokens, from).len() ==> link_at(tokens, from + 2 * i)
                == Some(#[trigger] leading_modifiers(tokens, from)[i]),
        link_at(tokens, from + 2 * leading_modifiers(tokens, from).len()) is None,
    decreases tokens.len() - from,
{
    if link_at(tokens, from) is Some {
        law_chain_ends_at_first_break(tokens, from + 2);
        let chain = leading_modifiers(tokens, from);
        let after = leading_modifiers(tokens, from + 2);
        assert forall|i: int| 0 <= i < chain.len() implies link_at(tokens, from + 2 * i) == Some(
            #[trigger] chain[i],
        ) by {
            if i > 0 {
                assert(chain[i] == after[i - 1]);
                assert(from + 2 * i == (from + 2) + 2 * (i - 1));
            }
        }
    }
}

/// A chain of modifiers is written with two tokens for each.
pub proof fn lemma_chain_notation_len(modifiers: Seq<Modifier>)
    ensures
        chain_notation(modifiers).len() == 2 * modifiers.len(),
    decreases modifiers.len(),
{
    if modifiers.len() > 0 {
        lemma_chain_notation_len(modifiers.drop_first());
    }
}

/// Reading a written chain gives back the modifiers that were written, in
/// their order, followed by whatever chain the tokens after it begin with.
pub proof fn lemma_chain_reads_back(
    before: Seq<TokenView>,
    modifiers: Seq<Modifier>,
    after: Seq<TokenView>,
)
    requires
        forall|i: int| 0 <= i < modifiers.len() ==> modifiers[i] != Modifier::Empty,
    ensures
        leading_modifiers(before + chain_notation(modifiers) + after, before.len() as int)
            == modifiers + leading_modifiers(
            before + chain_notation(modifiers) + after,
            (before.len() + 2 * modifiers.len()) as int,
        ),
    decreases modifiers.len(),
{
    let tokens = before + chain_notation(modifiers) + after;
    let start = before.len() as int;
    if modifiers.len() == 0 {
        assert(modifiers + leading_modifiers(tokens, start) =~= leading_modifiers(tokens, start));
    } else {
        let head = modifiers[0];
        let tail = modifiers.drop_first();
        lemma_word_names_modifier(head);
        lemma_chain_notation_len(tail);
        assert(tokens[start] == link(head)[0]);
        assert(tokens[start + 1] == link(head)[1]);
        assert(link_at(tokens, start) == Some(head));
        let longer = before + link(head);
        assert(longer + chain_notation(tail) + after =~= tokens);
        lemma_chain_reads_back(longer, tail, after);
        assert(seq![head] + (tail + leading_modifiers(tokens, start + 2 + 2 * tail.len()))
            =~= modifiers + leading_modifiers(tokens, start + 2 * modifiers.len()));
    }
}

/// The mask of a chord is the OR of the flags of the modifiers written
/// before its key, and its key is what the one token after them resolves to.
pub proof fn law_mask_is_or_of_flags(
    modifiers: Seq<Modifier>,
    key: TokenView,
    resolver: ResolverView,
)
    requires
        forall|i: int| 0 <= i < modifiers.len() ==> modifiers[i] != Modifier::Empty,
    ensures
        single_chord(chain_notation(modifiers) + seq![key], resolver) == (match resolver.resolve(
            key,
        ) {
            Ok(name) => Ok::<ChordView, DiagnosticView>(
                ChordView { mask: combined_flags(modifiers), key: name },
            ),
            Err(kind) => Err(DiagnosticView { kind, position: 2 * modifiers.len() as int }),
        }),
{
    let tokens = chain_notation(modifiers) + seq![key];
    let at = 2 * modifiers.len() as int;
    lemma_chain_notation_len(modifiers);
    lemma_chain_reads_back(Seq::empty(), modifiers, seq![key]);
    assert(Seq::<TokenView>::empty() + chain_notation(modifiers) + seq![key] =~= tokens);
    assert(link_at(tokens, at) is None);
    assert(modifiers + leading_modifiers(tokens, at) =~= modifiers);
    assert(leading_modifiers(tokens, 0) == modifiers);
    assert(tokens[at] == key);
}

/// The same modifiers before the same key give the same chord, in whatever
/// order they are written.
pub proof fn law_chord_ignores_modifier_order(
    first: Seq<Modifier>,
    second: Seq<Modifier>,
    key: TokenView,
    resolver: ResolverView,
)
    requires
        forall|i: int| 0 <= i < first.len() ==> first[i] != Modifier::Empty,
        forall|i: int| 0 <= i < second.len() ==> second[i] != Modifier::Empty,
        forall|modifier: Modifier| first.contains(modifier) <==> second.contains(modifier),
        resolver.resolve(key) is Ok,
    ensures
        single_chord(chain_notation(first) + seq![key], resolver) == single_chord(
            chain_notation(second) + seq![key],
            resolver,
        ),
{
    law_mask_is_or_of_flags(first, key, resolver);
    law_mask_is_or_of_flags(second, key, resolver);
    law_flags_ignore_order(first, second);
}

/// An uppercase letter alone is a chord without modifiers whose key is the
/// letter, in either mode and with any backend that has the letter.
pub proof fn law_uppercase_letter_is_its_key(letter: char, resolver: ResolverView)
    requires
        'A' <= letter <= 'Z',
        resolver.admits(seq![letter]),
    ensures
        single_chord(seq![TokenView::Name(seq![letter])], resolver) == Ok::<
            ChordView,
            DiagnosticView,
        >(ChordView { mask: 0, key: seq![letter] }),
{
    let tokens = seq![TokenView::Name(seq![letter])];
    assert(link_at(tokens, 0) is None);
    assert(logical_key(tokens[0]) == Ok::<Seq<char>, ErrorKind>(seq![letter]));
    assert(physical_key(tokens[0]) == Ok::<Seq<char>, ErrorKind>(seq![letter]));
}

/// A lowercase letter alone is refused as a physical key and never turned
/// into the uppercase letter.
pub proof fn law_lowercase_letter_is_refused(letter: char, resolver: ResolverView)
    requires
        'a' <= letter <= 'z',
        resolver.mode == KeyMode::Physical,
    ensures
        single_chord(seq![TokenView::Name(seq![letter])], resolver) == Err::<
            ChordView,
            DiagnosticView,
        >(DiagnosticView { kind: ErrorKind::LowercaseKeyName, position: 0 }),
{
    let tokens = seq![TokenView::Name(seq![letter])];
    assert(link_at(tokens, 0) is None);
}

/// A key that a token resolved to resolves to itself when it is written as
/// a name.
pub proof fn lemma_resolved_key_is_stable(token: TokenView, resolver: ResolverView)
    ensures
        match resolver.resolve(token) {
            Ok(key) => resolver.resolve(TokenView::Name(key)) == Ok::<Seq<char>, ErrorKind>(key),
            Err(_) => true,
        },
{
    if let Ok(key) = resolver.resolve(token) {
        match resolver.mode {
            KeyMode::Physical => {
                reveal_strlit("Key");
                reveal_strlit("Apostrophe");
                reveal_strlit("Grave");
                reveal_strlit("Backslash");
                reveal_strlit("Semicolon");
                reveal_strlit("Colon");
                reveal_strlit("Comma");
                reveal_strlit("Period");
                reveal_strlit("Caret");
                reveal_strlit("Equals");
                reveal_strlit("Slash");
                reveal_strlit("Minus");
                reveal_strlit("Asterisk");
                reveal_strlit("Plus");
                reveal_strlit("At");
                assert(physical_key(TokenView::Name(key)) == Ok::<Seq<char>, ErrorKind>(key));
            },
            KeyMode::Logical => {
                if key.len() == 1 {
                    assert(seq![key[0]] =~= key);
                }
                assert(logical_key(TokenView::Name(key)) == Ok::<Seq<char>, ErrorKind>(key));
            },
        }
    }
}

/// The OR of the flags of two lists, one after the other, is the OR of
/// their ORs.
pub proof fn lemma_flags_of_concat(first: Seq<Modifier>, second: Seq<Modifier>)
    ensures
        combined_flags(first + second) == combined_flags(first) | combined_flags(second),
    decreases first.len(),
{
    let right = combined_flags(second);
    if first.len() == 0 {
        assert(first + second =~= second);
        assert(0u8 | right == right) by (bit_vector);
    } else {
        let tail = first.drop_first();
        lemma_flags_of_concat(tail, second);
        assert((first + second).drop_first() =~= tail + second);
        let flag = first[0].flag();
        let left = combined_flags(tail);
        assert(flag | (left | right) == (flag | left) | right) by (bit_vector);
    }
}

/// A mask is the OR of the flags of the modifiers that are set in it.
pub proof fn lemma_mask_modifiers_combine(mask: u8)
    requires
        mask <= 15,
    ensures
        combined_flags(mask_modifiers(mask)) == mask,
        forall|i: int|
            0 <= i < mask_modifiers(mask).len() ==> mask_modifiers(mask)[i] != Modifier::Empty,
{
    let shift = if has_flag(mask, Modifier::Shift) {
        seq![Modifier::Shift]
    } else {
        Seq::empty()
    };
    let control = if has_flag(mask, Modifier::Control) {
        seq![Modifier::Control]
    } else {
        Seq::empty()
    };
    let alt = if has_flag(mask, Modifier::Alt) {
        seq![Modifier::Alt]
    } else {
        Seq::empty()
    };
    let sup = if has_flag(mask, Modifier::Super) {
        seq![Modifier::Super]
    } else {
        Seq::empty()
    };
    lemma_flags_of_concat(shift + control + alt, sup);
    lemma_flags_of_concat(shift + control, alt);
    lemma_flags_of_concat(shift, control);
    lemma_flags_of_single(Modifier::Shift);
    lemma_flags_of_single(Modifier::Control);
    lemma_flags_of_single(Modifier::Alt);
    lemma_flags_of_single(Modifier::Super);
    let s = combined_flags(shift);
    let c = combined_flags(control);
    let a = combined_flags(alt);
    let u = combined_flags(sup);
    assert(((s | c) | a) | u == mask) by (bit_vector)
        requires
            mask <= 15,
            s == (if mask & 1 != 0 { 1u8 } else { 0u8 }),
            c == (if mask & 2 != 0 { 2u8 } else { 0u8 }),
            a == (if mask & 4 != 0 { 4u8 } else { 0u8 }),
            u == (if mask & 8 != 0 { 8u8 } else { 0u8 }),
    ;
}

/// The OR of the flags of one modifier alone is its flag.
proof fn lemma_flags_of_single(modifier: Modifier)
    ensures
        combined_flags(seq![modifier]) == modifier.flag(),
        combined_flags(Seq::empty()) == 0,
{
    let flag = modifier.flag();
    assert(seq![modifier].drop_first() =~= Seq::<Modifier>::empty());
    assert(combined_flags(Seq::<Modifier>::empty()) == 0);
    assert(flag | 0u8 == flag) by (bit_vector);
}

/// Writing a chord back as tokens and reading them again gives the chord:
/// every chord that is read from some tokens is read from its own notation
/// too.
pub proof fn law_notation_reads_back(tokens: Seq<TokenView>, resolver: ResolverView)
    ensures
        match single_chord(tokens, resolver) {
            Ok(chord) => single_chord(chord.notation(), resolver) == Ok::<
                ChordView,
                DiagnosticView,
            >(chord),
            Err(_) => true,
        },
{
    if let Ok(chord) = single_chord(tokens, resolver) {
        let chain = leading_modifiers(tokens, 0);
        let at = 2 * chain.len() as int;
        lemma_flags_fit(chain);
        lemma_resolved_key_is_stable(tokens[at], resolver);
        lemma_mask_modifiers_combine(chord.mask);
        law_mask_is_or_of_flags(mask_modifiers(chord.mask), TokenView::Name(chord.key), resolver);
    }
}

/// A sequence that is read has at least one chord.
pub proof fn law_sequence_is_never_empty(tokens: Seq<TokenView>, resolver: ResolverView)
    ensures
        match chord_sequence(tokens, resolver) {
            Ok(chords) => chords.len() >= 1,
            Err(_) => true,
        },
{
}

/// No tokens at all are no sequence and no chord: the sequence is refused as
/// empty, the single chord for want of a key.
pub proof fn law_empty_input_is_refused(resolver: ResolverView)
    ensures
        chord_sequence(Seq::empty(), resolver) == Err::<Seq<ChordView>, DiagnosticView>(
            DiagnosticView { kind: ErrorKind::EmptyInput, position: 0 },
        ),
        single_chord(Seq::empty(), resolver) == Err::<ChordView, DiagnosticView>(
            DiagnosticView { kind: ErrorKind::MissingKeyToken, position: 0 },
        ),
{
}

/// Tokens that spell one chord spell the sequence of that chord alone.
pub proof fn law_one_chord_is_a_sequence_of_one(tokens: Seq<TokenView>, resolver: ResolverView)
    ensures
        match single_chord(tokens, resolver) {
            Ok(chord) => chord_sequence(tokens, resolver) == Ok::<
                Seq<ChordView>,
                DiagnosticView,
            >(seq![chord]),
            Err(_) => true,
        },
{
}

/// Two keys side by side, the second no dash, are two chords without
/// modifiers in the order written. Read as one chord, the second key is in
/// excess.
pub proof fn law_two_keys_are_two_chords(
    first: TokenView,
    second: TokenView,
    resolver: ResolverView,
)
    requires
        resolver.resolve(first) is Ok,
        resolver.resolve(second) is Ok,
        second != TokenView::Punct('-'),
    ensures
        chord_sequence(seq![first, second], resolver) == Ok::<Seq<ChordView>, DiagnosticView>(
            seq![
                ChordView { mask: 0, key: resolver.resolve(first).unwrap() },
                ChordView { mask: 0, key: resolver.resolve(second).unwrap() },
            ],
        ),
        single_chord(seq![first, second], resolver) == Err::<ChordView, DiagnosticView>(
            DiagnosticView { kind: ErrorKind::ExcessTokens, position: 1 },
        ),
{
    let tokens = seq![first, second];
    assert(link_at(tokens, 0) is None);
    assert(link_at(tokens, 1) is None);
    assert(leading_modifiers(tokens, 0) =~= Seq::empty());
    assert(leading_modifiers(tokens, 1) =~= Seq::empty());
    let one = ChordView { mask: 0, key: resolver.resolve(first).unwrap() };
    let two = ChordView { mask: 0, key: resolver.resolve(second).unwrap() };
    assert(chords_from(tokens, 1, resolver) == Ok::<Seq<ChordView>, DiagnosticView>(seq![two]));
    assert(seq![one] + seq![two] =~= seq![one, two]);
}

} // verus!
