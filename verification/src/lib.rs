//! Converts romanized Chinese syllables written with trailing tone numbers,
//! in the CC-CEDICT convention of space-separated syllables with a digit
//! `1`–`5` appended to each, into syllables carrying tone-mark diacritics:
//! `"ni3 hao3"` becomes `"nǐ hǎo"`.
//!
//! The conversion is total and never fails: a token without a valid trailing
//! tone digit passes through unchanged, the informal umlaut spellings `v`,
//! `V`, `u:`, `U:` are normalized to `ü`/`Ü` first, and marks already present
//! are cleared before the requested tone is applied.

pub mod convert;
pub mod laws;
pub mod table;

pub use convert::prettify;
pub use table::clear_tone_mark;
pub use table::lookup_replacement;
