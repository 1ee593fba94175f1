use prettify_pinyin::prettify;

#[test]
fn remarking_is_idempotent() {
    // Converting, appending the same tone digit again, and converting once
    // more lands on the same output as the single conversion.
    let once = prettify("ni3");
    let again = prettify(&format!("{}3", once));
    assert_eq!(once, again);
    assert_eq!("nī", prettify("nǐ1"));
}

#[test]
fn valid_tone_shortens_by_one() {
    assert_eq!(5, prettify("zhong1").chars().count());
    assert_eq!(2, prettify("ma3").chars().count());
    assert_eq!(1, prettify("a5").chars().count());
}

#[test]
fn pass_through_tokens_unchanged() {
    assert_eq!("hello", prettify("hello"));
    assert_eq!("ni0", prettify("ni0"));
    assert_eq!("ni9", prettify("ni9"));
    assert_eq!("ma!", prettify("ma!"));
}

#[test]
fn token_count_is_preserved() {
    let input = "ni3 hao3  ma5 x 42";
    let output = prettify(input);
    assert_eq!(
        input.split(' ').count(),
        output.split(' ').count()
    );
}

#[test]
fn medial_vowel_passes_mark_on() {
    // The first vowel is a medial glide, so the following vowel is marked.
    assert_eq!("huī", prettify("hui1"));
    assert_eq!("guì", prettify("gui4"));
    assert_eq!("niú", prettify("niu2"));
    // A lone medial vowel keeps the mark itself.
    assert_eq!("nǐ", prettify("ni3"));
}

#[test]
fn umlaut_spellings_normalize_case_preserving() {
    assert_eq!(prettify("nu:3"), prettify("nv3"));
    assert_eq!(prettify("NU:3"), prettify("NV3"));
    assert_eq!("ǖ Ǖ", prettify("v1 V1"));
}

#[test]
fn case_is_preserved() {
    assert_eq!("MĀ", prettify("MA1"));
    assert_eq!("Mā", prettify("Ma1"));
    assert_eq!("HǑU", prettify("HOU3"));
}
