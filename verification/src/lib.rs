//! Reads the short notation for keyboard chords, such as `ctrl-alt-A`, from a
//! list of tokens and turns it into modifier masks paired with key names.
//!
//! A chord is a chain of modifiers, each followed by a dash, and one key
//! after them. The entry points read one chord alone ([`pkey`], [`lkey`] and
//! their backend forms) or a sequence of chords ([`pkeyseq`]).

pub mod chord;
pub mod error;
pub mod key;
pub mod laws;
pub mod modifier;
pub mod sequence;
pub mod token;

pub use chord::{read_key, read_key_chord, read_modifiers, Chord};
pub use error::{Diagnostic, ErrorKind};
pub use key::{get_key, get_key_raw, get_pkey, KeyId, KeyMode, LogicalKey, Resolver};
pub use modifier::{modifiers_id, Modifier, ModifierMask};
pub use sequence::{bevy_pkey, lkey, pkey, pkeyseq, read_sequence, read_single_chord, winit_lkey};
pub use token::{Delimiter, Token};
