//! The tone table: the twelve toneable vowel letters, their five variants
//! (macron, acute, caron, grave, bare), and the reverse mapping that clears
//! an existing mark back to its base letter.

use vstd::prelude::*;

verus! {

/// A letter that can carry a tone mark: one of `a e u i o ü`, lower or upper case.
pub open spec fn is_toneable(c: char) -> bool {
    c == 'a' || c == 'e' || c == 'u' || c == 'i' || c == 'o' || c == 'ü'
        || c == 'A' || c == 'E' || c == 'U' || c == 'I' || c == 'O' || c == 'Ü'
}

/// A medial vowel: when it immediately precedes another toneable vowel,
/// the mark goes on the following vowel instead.
pub open spec fn is_medial(c: char) -> bool {
    c == 'i' || c == 'u' || c == 'ü' || c == 'I' || c == 'U' || c == 'Ü'
}

/// The five-column tone row of a toneable letter: columns 0 to 3 are the
/// marked forms for tones 1 to 4, column 4 is the bare letter used for the
/// neutral tone. The upper-case `Ü` row deliberately carries `U` in its
/// fifth column. A non-toneable letter is its own variant in every column.
pub open spec fn tone_variant(base: char, column: int) -> char {
    match base {
        'a' => if column == 0 { 'ā' } else if column == 1 { 'á' }
               else if column == 2 { 'ǎ' } else if column == 3 { 'à' } else { 'a' },
        'e' => if column == 0 { 'ē' } else if column == 1 { 'é' }
               else if column == 2 { 'ě' } else if column == 3 { 'è' } else { 'e' },
        'u' => if column == 0 { 'ū' } else if column == 1 { 'ú' }
               else if column == 2 { 'ǔ' } else if column == 3 { 'ù' } else { 'u' },
        'i' => if column == 0 { 'ī' } else if column == 1 { 'í' }
               else if column == 2 { 'ǐ' } else if column == 3 { 'ì' } else { 'i' },
        'o' => if column == 0 { 'ō' } else if column == 1 { 'ó' }
               else if column == 2 { 'ǒ' } else if column == 3 { 'ò' } else { 'o' },
        'ü' => if column == 0 { 'ǖ' } else if column == 1 { 'ǘ' }
               else if column == 2 { 'ǚ' } else if column == 3 { 'ǜ' } else { 'ü' },
        'A' => if column == 0 { 'Ā' } else if column == 1 { 'Á' }
               else if column == 2 { 'Ǎ' } else if column == 3 { 'À' } else { 'A' },
        'E' => if column == 0 { 'Ē' } else if column == 1 { 'É' }
               else if column == 2 { 'Ě' } else if column == 3 { 'È' } else { 'E' },
        'U' => if column == 0 { 'Ū' } else if column == 1 { 'Ú' }
               else if column == 2 { 'Ǔ' } else if column == 3 { 'Ù' } else { 'U' },
        'I' => if column == 0 { 'Ī' } else if column == 1 { 'Í' }
               else if column == 2 { 'Ǐ' } else if column == 3 { 'Ì' } else { 'I' },
        'O' => if column == 0 { 'Ō' } else if column == 1 { 'Ó' }
               else if column == 2 { 'Ǒ' } else if column == 3 { 'Ò' } else { 'O' },
        'Ü' => if column == 0 { 'Ǖ' } else if column == 1 { 'Ǘ' }
               else if column == 2 { 'Ǚ' } else if column == 3 { 'Ǜ' } else { 'U' },
        _ => base,
    }
}

/// Maps a character that appears anywhere in a tone row back to that row's
/// base letter; any other character is left as it is. The bare letters are
/// their own rows' fifth column, so every base letter is a fixed point.
pub open spec fn clear_mark(c: char) -> char {
    match c {
        'ā' | 'á' | 'ǎ' | 'à' | 'a' => 'a',
        'ē' | 'é' | 'ě' | 'è' | 'e' => 'e',
        'ū' | 'ú' | 'ǔ' | 'ù' | 'u' => 'u',
        'ī' | 'í' | 'ǐ' | 'ì' | 'i' => 'i',
        'ō' | 'ó' | 'ǒ' | 'ò' | 'o' => 'o',
        'ǖ' | 'ǘ' | 'ǚ' | 'ǜ' | 'ü' => 'ü',
        'Ā' | 'Á' | 'Ǎ' | 'À' | 'A' => 'A',
        'Ē' | 'É' | 'Ě' | 'È' | 'E' => 'E',
        'Ū' | 'Ú' | 'Ǔ' | 'Ù' | 'U' => 'U',
        'Ī' | 'Í' | 'Ǐ' | 'Ì' | 'I' => 'I',
        'Ō' | 'Ó' | 'Ǒ' | 'Ò' | 'O' => 'O',
        'Ǖ' | 'Ǘ' | 'Ǚ' | 'Ǜ' => 'Ü',
        _ => c,
    }
}

/// The column selected by a numeric tone argument: tones 1 to 5 pick
/// columns 0 to 4; out-of-range arguments wrap as a saturating decrement
/// followed by reduction modulo the row width.
pub open spec fn tone_column(tone: u8) -> int {
    if tone == 0 {
        0
    } else {
        (tone - 1) as int % 5
    }
}

/// What a table lookup returns: the selected variant for a toneable letter,
/// nothing for any other character.
pub open spec fn spec_lookup_replacement(input: char, tone: u8) -> Option<char> {
    if is_toneable(input) {
        Some(tone_variant(input, tone_column(tone)))
    } else {
        None
    }
}

/// Looks a letter up in the tone table: for a toneable letter, returns the
/// variant in the column selected by `tone`; for any other character, `None`.
pub fn lookup_replacement(input: char, tone: u8) -> (r: Option<char>)
    ensures
        r == spec_lookup_replacement(input, tone),
{
    if is_toneable_letter(input) {
        let column: u8 = if tone == 0 { 0 } else { (tone - 1) % 5 };
        Some(variant_in_column(input, column))
    } else {
        None
    }
}

/// Replaces a character that already carries a tone mark with its bare base
/// letter; any other character comes back unchanged.
pub fn clear_tone_mark(input: char) -> (r: char)
    ensures
        r == clear_mark(input),
{
    match input {
        'ā' | 'á' | 'ǎ' | 'à' | 'a' => 'a',
        'ē' | 'é' | 'ě' | 'è' | 'e' => 'e',
        'ū' | 'ú' | 'ǔ' | 'ù' | 'u' => 'u',
        'ī' | 'í' | 'ǐ' | 'ì' | 'i' => 'i',
        'ō' | 'ó' | 'ǒ' | 'ò' | 'o' => 'o',
        'ǖ' | 'ǘ' | 'ǚ' | 'ǜ' | 'ü' => 'ü',
        'Ā' | 'Á' | 'Ǎ' | 'À' | 'A' => 'A',
        'Ē' | 'É' | 'Ě' | 'È' | 'E' => 'E',
        'Ū' | 'Ú' | 'Ǔ' | 'Ù' | 'U' => 'U',
        'Ī' | 'Í' | 'Ǐ' | 'Ì' | 'I' => 'I',
        'Ō' | 'Ó' | 'Ǒ' | 'Ò' | 'O' => 'O',
        'Ǖ' | 'Ǘ' | 'Ǚ' | 'Ǜ' => 'Ü',
        _ => input,
    }
}

/// Runtime test for membership in the tone table's key set.
pub(crate) fn is_toneable_letter(c: char) -> (r: bool)
    ensures
        r == is_toneable(c),
{
    c == 'a' || c == 'e' || c == 'u' || c == 'i' || c == 'o' || c == 'ü'
        || c == 'A' || c == 'E' || c == 'U' || c == 'I' || c == 'O' || c == 'Ü'
}

/// Runtime test for membership in the medial-vowel set.
pub(crate) fn is_medial_letter(c: char) -> (r: bool)
    ensures
        r == is_medial(c),
{
    c == 'i' || c == 'u' || c == 'ü' || c == 'I' || c == 'U' || c == 'Ü'
}

/// Picks the variant in a given column of a letter's tone row.
pub(crate) fn variant_in_column(base: char, column: u8) -> (r: char)
    ensures
        r == tone_variant(base, column as int),
{
    match base {
        'a' => if column == 0 { 'ā' } else if column == 1 { 'á' }
               else if column == 2 { 'ǎ' } else if column == 3 { 'à' } else { 'a' },
        'e' => if column == 0 { 'ē' } else if column == 1 { 'é' }
               else if column == 2 { 'ě' } else if column == 3 { 'è' } else { 'e' },
        'u' => if column == 0 { 'ū' } else if column == 1 { 'ú' }
               else if column == 2 { 'ǔ' } else if column == 3 { 'ù' } else { 'u' },
        'i' => if column == 0 { 'ī' } else if column == 1 { 'í' }
               else if column == 2 { 'ǐ' } else if column == 3 { 'ì' } else { 'i' },
        'o' => if column == 0 { 'ō' } else if column == 1 { 'ó' }
               else if column == 2 { 'ǒ' } else if column == 3 { 'ò' } else { 'o' },
        'ü' => if column == 0 { 'ǖ' } else if column == 1 { 'ǘ' }
               else if column == 2 { 'ǚ' } else if column == 3 { 'ǜ' } else { 'ü' },
        'A' => if column == 0 { 'Ā' } else if column == 1 { 'Á' }
               else if column == 2 { 'Ǎ' } else if column == 3 { 'À' } else { 'A' },
        'E' => if column == 0 { 'Ē' } else if column == 1 { 'É' }
               else if column == 2 { 'Ě' } else if column == 3 { 'È' } else { 'E' },
        'U' => if column == 0 { 'Ū' } else if column == 1 { 'Ú' }
               else if column == 2 { 'Ǔ' } else if column == 3 { 'Ù' } else { 'U' },
        'I' => if column == 0 { 'Ī' } else if column == 1 { 'Í' }
               else if column == 2 { 'Ǐ' } else if column == 3 { 'Ì' } else { 'I' },
        'O' => if column == 0 { 'Ō' } else if column == 1 { 'Ó' }
               else if column == 2 { 'Ǒ' } else if column == 3 { 'Ò' } else { 'O' },
        'Ü' => if column == 0 { 'Ǖ' } else if column == 1 { 'Ǘ' }
               else if column == 2 { 'Ǚ' } else if column == 3 { 'Ǜ' } else { 'U' },
        _ => base,
    }
}

/// A character standing for a valid tone: the digits `1` through `5`.
pub open spec fn is_tone_digit(c: char) -> bool {
    c == '1' || c == '2' || c == '3' || c == '4' || c == '5'
}

/// The numeric value of a trailing character read as a base-6 digit, the
/// way the tone is extracted from a syllable: `0` through `5` parse, every
/// other character does not.
pub open spec fn spec_tone_of(c: char) -> Option<u8> {
    match c {
        '0' => Some(0u8),
        '1' => Some(1u8),
        '2' => Some(2u8),
        '3' => Some(3u8),
        '4' => Some(4u8),
        '5' => Some(5u8),
        _ => None,
    }
}

/// Reads a character as a base-6 digit.
pub(crate) fn tone_of(c: char) -> (r: Option<u8>)
    ensures
        r == spec_tone_of(c),
{
    match c {
        '0' => Some(0u8),
        '1' => Some(1u8),
        '2' => Some(2u8),
        '3' => Some(3u8),
        '4' => Some(4u8),
        '5' => Some(5u8),
        _ => None,
    }
}

} // verus!
