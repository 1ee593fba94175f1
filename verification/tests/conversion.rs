use prettify_pinyin::clear_tone_mark;
use prettify_pinyin::lookup_replacement;
use prettify_pinyin::prettify;

#[test]
fn prettify_basic() {
    let hello = "nǐ hǎo";
    let china = "zhōng guó";
    let all_tones = "mā má mǎ mà";
    let no_tones = "ma";
    let capital_letter = "Ān huī";
    let yelling = "NǏ HǍO ZHŌNG GUÓ";

    assert_eq!(hello, prettify("ni3 hao3"));
    assert_eq!(china, prettify("zhong1 guo2"));
    assert_eq!(all_tones, prettify("ma1 ma2 ma3 ma4"));
    assert_eq!(no_tones, prettify("ma"));
    assert_eq!(capital_letter, prettify("An1 hui1"));
    assert_eq!(yelling, prettify("NI3 HAO3 ZHONG1 GUO2"));
}

#[test]
fn prettify_umlaut() {
    assert_eq!("nǚ nǚ", prettify("nu:3 nu:3"));
    assert_eq!("NǙ", prettify("NU:3"));
    assert_eq!("nǚ NǙ", prettify("nu:3 NU:3"));
}

#[test]
fn invalid_tone() {
    assert_eq!("ni7", prettify("ni7"));
}

#[test]
fn clear_tones() {
    assert_eq!("ni", prettify("nǐ5"));
    assert_eq!("nǚ nü", prettify("nǚ nǚ5"));
}

#[test]
fn reassign_tones() {
    assert_eq!("nī", prettify("nǐ1"));
    assert_eq!("nǘ nǜ", prettify("nǚ2 nǚ4"));
}

#[test]
fn all_five_tones_with_neutral() {
    assert_eq!("mā má mǎ mà ma", prettify("ma1 ma2 ma3 ma4 ma"));
    assert_eq!("ma", prettify("ma5"));
}

#[test]
fn v_spelling_for_umlaut() {
    assert_eq!("nǚ", prettify("nv3"));
    assert_eq!("NǙ", prettify("NV3"));
    assert_eq!("lǜ", prettify("lv4"));
    // Normalization happens even when the token then passes through.
    assert_eq!("nü7", prettify("nv7"));
    assert_eq!("üü", prettify("vu:"));
}

#[test]
fn uppercase_umlaut_neutral_tone_row() {
    // The fifth column of the upper-case Ü row holds a plain U.
    assert_eq!("NU", prettify("NU:5"));
    assert_eq!("LU", prettify("LV5"));
}

#[test]
fn no_vowel_still_trims_digit() {
    assert_eq!("m", prettify("m3"));
    assert_eq!("xyz", prettify("xyz3"));
    assert_eq!("", prettify("3"));
}

#[test]
fn empty_and_spaces() {
    assert_eq!("", prettify(""));
    assert_eq!("mā  má", prettify("ma1  ma2"));
    assert_eq!("nǐ ", prettify("ni3 "));
    assert_eq!(" nǐ", prettify(" ni3"));
}

#[test]
fn lookup_replacement_table() {
    assert_eq!(Some('ǎ'), lookup_replacement('a', 3));
    assert_eq!(Some('ē'), lookup_replacement('e', 1));
    assert_eq!(Some('ǜ'), lookup_replacement('ü', 4));
    assert_eq!(Some('a'), lookup_replacement('a', 5));
    assert_eq!(Some('U'), lookup_replacement('Ü', 5));
    assert_eq!(None, lookup_replacement('x', 1));
    assert_eq!(None, lookup_replacement('3', 1));
}

#[test]
fn clear_tone_mark_table() {
    assert_eq!('i', clear_tone_mark('ǐ'));
    assert_eq!('u', clear_tone_mark('ú'));
    assert_eq!('Ü', clear_tone_mark('Ǜ'));
    assert_eq!('a', clear_tone_mark('a'));
    assert_eq!('U', clear_tone_mark('U'));
    assert_eq!('x', clear_tone_mark('x'));
}
