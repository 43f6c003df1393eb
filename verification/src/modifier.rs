//! The four modifiers, their flags and the mask that collects them.

use vstd::prelude::*;
use crate::token::{text_is, Delimiter, Token, TokenView};

verus! {

/// A modifier key, or the absence of one.
#[derive(Clone, Copy, Debug, PartialEq, Eq, Structural)]
pub enum Modifier {
    Empty,
    Shift,
    Control,
    Alt,
    Super,
}

impl Modifier {
    /// The bit that stands for the modifier in a mask; no bit for `Empty`.
    pub open spec fn flag(self) -> u8 {
        match self {
            Modifier::Empty => 0,
            Modifier::Shift => 1,
            Modifier::Control => 2,
            Modifier::Alt => 4,
            Modifier::Super => 8,
        }
    }

    /// The word that the notation uses for the modifier. `Empty` has none.
    pub open spec fn word_text(self) -> Seq<char> {
        match self {
            Modifier::Empty => Seq::empty(),
            Modifier::Shift => "shift"@,
            Modifier::Control => "ctrl"@,
            Modifier::Alt => "alt"@,
            Modifier::Super => "super"@,
        }
    }

    /// The word that the notation uses for the modifier: `shift`, `ctrl`, `alt`
    /// or `super`, and the empty word for `Empty`.
    pub fn word(&self) -> (word: &'static str)
        ensures
            word@ == self.word_text(),
    {
        match self {
            Modifier::Empty => {
                proof {
                    reveal_strlit("");
                }
                assert(""@ =~= Seq::<char>::empty());
                ""
            },
            Modifier::Shift => "shift",
            Modifier::Control => "ctrl",
            Modifier::Alt => "alt",
            Modifier::Super => "super",
        }
    }

    /// The modifier that a word of the notation names, if it names one.
    pub fn from_word(word: &String) -> (modifier: Option<Modifier>)
        ensures
            modifier == modifier_named(word@),
    {
        if text_is(word, "shift") {
            Some(Modifier::Shift)
        } else if text_is(word, "ctrl") {
            Some(Modifier::Control)
        } else if text_is(word, "alt") {
            Some(Modifier::Alt)
        } else if text_is(word, "super") {
            Some(Modifier::Super)
        } else {
            None
        }
    }

    /// The tokens that name the modifier as a constant of a set of flags.
    pub open spec fn constant_tokens(self) -> Seq<TokenView> {
        match self {
            Modifier::Empty => seq![
                TokenView::Name("empty"@),
                TokenView::Group(Delimiter::Parenthesis, Seq::empty()),
            ],
            Modifier::Shift => seq![TokenView::Name("SHIFT"@)],
            Modifier::Control => seq![TokenView::Name("CONTROL"@)],
            Modifier::Alt => seq![TokenView::Name("ALT"@)],
            Modifier::Super => seq![TokenView::Name("SUPER"@)],
        }
    }

    /// Names the modifier as a constant of a set of flags: `SHIFT`, `CONTROL`,
    /// `ALT`, `SUPER`, and the call `empty()` for no modifier.
    pub fn to_tokens(&self) -> (tokens: Vec<Token>)
        ensures
            tokens.deep_view() == self.constant_tokens(),
    {
        let mut tokens: Vec<Token> = Vec::new();
        match self {
            Modifier::Empty => {
                tokens.push(Token::Name("empty".to_owned()));
                tokens.push(Token::Group(Delimiter::Parenthesis, Vec::new()));
                assert(tokens.deep_view()[1] matches TokenView::Group(_, inner) && inner
                    =~= Seq::<TokenView>::empty());
            },
            Modifier::Shift => {
                tokens.push(Token::Name("SHIFT".to_owned()));
            },
            Modifier::Control => {
                tokens.push(Token::Name("CONTROL".to_owned()));
            },
            Modifier::Alt => {
                tokens.push(Token::Name("ALT".to_owned()));
            },
            Modifier::Super => {
                tokens.push(Token::Name("SUPER".to_owned()));
            },
        }
        assert(tokens.deep_view() =~= self.constant_tokens());
        tokens
    }
}

/// The modifier that a word of the notation names, if it names one.
pub open spec fn modifier_named(word: Seq<char>) -> Option<Modifier> {
    if word == "shift"@ {
        Some(Modifier::Shift)
    } else if word == "ctrl"@ {
        Some(Modifier::Control)
    } else if word == "alt"@ {
        Some(Modifier::Alt)
    } else if word == "super"@ {
        Some(Modifier::Super)
    } else {
        None
    }
}

/// The flag of a modifier as a number: 1, 2, 4 and 8 for shift, control, alt
/// and super, 0 for none.
pub fn modifiers_id(modifier: Modifier) -> (flag: u8)
    ensures
        flag == modifier.flag(),
{
    match modifier {
        Modifier::Empty => 0,
        Modifier::Shift => 1,
        Modifier::Control => 2,
        Modifier::Alt => 4,
        Modifier::Super => 8,
    }
}

/// The bitwise OR of the flags of the modifiers in `modifiers`.
pub open spec fn combined_flags(modifiers: Seq<Modifier>) -> u8
    decreases modifiers.len(),
{
    if modifiers.len() == 0 {
        0
    } else {
        modifiers[0].flag() | combined_flags(modifiers.drop_first())
    }
}

/// Whether the bit of `modifier` is set in `bits`. No bit stands for `Empty`.
pub open spec fn has_flag(bits: u8, modifier: Modifier) -> bool {
    bits & modifier.flag() != 0
}

/// A set of modifiers, held as the OR of their flags. No bit above the four
/// flags is ever set.
#[derive(Clone, Copy, Debug, PartialEq, Eq, Structural)]
pub struct ModifierMask {
    bits: u8,
}

impl View for ModifierMask {
    type V = u8;

    closed spec fn view(&self) -> u8 {
        self.bits
    }
}

impl ModifierMask {
    #[verifier::type_invariant]
    spec fn in_range(self) -> bool {
        self.bits <= 15
    }

    /// The mask of no modifier.
    pub fn empty() -> (mask: Self)
        ensures
            mask@ == 0,
    {
        ModifierMask { bits: 0 }
    }

    /// The mask with the given bits, where they are bits of the four flags.
    pub fn from_bits(bits: u8) -> (mask: Option<Self>)
        ensures
            match mask {
                Some(m) => bits <= 15 && m@ == bits,
                None => bits > 15,
            },
    {
        if bits <= 15 {
            Some(ModifierMask { bits })
        } else {
            None
        }
    }

    /// The mask as a number, from 0 to 15.
    pub fn bits(&self) -> (bits: u8)
        ensures
            bits == self@,
            bits <= 15,
    {
        proof {
            use_type_invariant(self);
        }
        self.bits
    }

    /// The mask with the flag of `modifier` set as well.
    pub fn with(self, modifier: Modifier) -> (mask: Self)
        ensures
            mask@ == self@ | modifier.flag(),
    {
        let flag = modifiers_id(modifier);
        let bits = self.bits;
        proof {
            use_type_invariant(self);
            assert(bits | flag <= 15) by (bit_vector)
                requires
                    bits <= 15,
                    flag <= 15,
            ;
        }
        ModifierMask { bits: bits | flag }
    }

    /// Whether the flag of `modifier` is set.
    pub fn contains(&self, modifier: Modifier) -> (found: bool)
        ensures
            found == has_flag(self@, modifier),
    {
        self.bits & modifiers_id(modifier) != 0
    }
}

} // verus!
