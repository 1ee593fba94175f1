//! The conversion pipeline: normalize the informal umlaut spellings, split
//! the text on spaces, convert each syllable independently, and rejoin.
//!
//! Every step is specified as a function on `Seq<char>`; the executable
//! code is proved to return exactly what the specification describes.

use vstd::prelude::*;
use vstd::pervasive::VecAdditionalExecFns;
use vstd::string::StrSliceExecFns;

use crate::table::clear_mark;
use crate::table::clear_tone_mark;
use crate::table::is_medial;
use crate::table::is_medial_letter;
use crate::table::is_toneable;
use crate::table::is_toneable_letter;
use crate::table::spec_tone_of;
use crate::table::tone_of;
use crate::table::tone_variant;
use crate::table::variant_in_column;

verus! {

/// The syllable with every pre-existing tone mark cleared back to its base
/// letter: the toneless skeleton.
pub open spec fn clear_seq(s: Seq<char>) -> Seq<char> {
    Seq::new(s.len(), |i: int| clear_mark(s[i]))
}

/// One left-to-right pass over the suffix of `s` starting at `i` that
/// rewrites the informal umlaut spellings: `v` to `ü`, `V` to `Ü`, and the
/// two-character sequences `u:` to `ü` and `U:` to `Ü`.
pub open spec fn normalize_from(s: Seq<char>, i: int) -> Seq<char>
    decreases s.len() - i,
{
    if i < 0 || i >= s.len() {
        Seq::empty()
    } else if s[i] == 'v' {
        seq!['ü'] + normalize_from(s, i + 1)
    } else if s[i] == 'V' {
        seq!['Ü'] + normalize_from(s, i + 1)
    } else if s[i] == 'u' && i + 1 < s.len() && s[i + 1] == ':' {
        seq!['ü'] + normalize_from(s, i + 2)
    } else if s[i] == 'U' && i + 1 < s.len() && s[i + 1] == ':' {
        seq!['Ü'] + normalize_from(s, i + 2)
    } else {
        seq![s[i]] + normalize_from(s, i + 1)
    }
}

/// The whole text with the umlaut spellings rewritten.
pub open spec fn normalize(s: Seq<char>) -> Seq<char> {
    normalize_from(s, 0)
}

/// The index of the first space at or after `i`, or `s.len()` if there is none.
pub open spec fn find_space_from(s: Seq<char>, i: int) -> int
    decreases s.len() - i,
{
    if i < 0 || i >= s.len() {
        s.len() as int
    } else if s[i] == ' ' {
        i
    } else {
        find_space_from(s, i + 1)
    }
}

/// The index of the first toneable letter in `s` at or after `i` and before
/// `end`, or `end` if there is none.
pub open spec fn find_toneable_from(s: Seq<char>, i: int, end: int) -> int
    decreases end - i,
{
    if i < 0 || i >= end {
        end
    } else if is_toneable(s[i]) {
        i
    } else {
        find_toneable_from(s, i + 1, end)
    }
}

/// `find_space_from` stays between its starting point and the length, finds
/// no earlier space, and lands on a space unless it reaches the end.
pub proof fn lemma_find_space_from_props(s: Seq<char>, i: int)
    requires
        0 <= i <= s.len(),
    ensures
        i <= find_space_from(s, i) <= s.len(),
        forall|j: int| i <= j < find_space_from(s, i) ==> s[j] != ' ',
        find_space_from(s, i) < s.len() ==> s[find_space_from(s, i)] == ' ',
    decreases s.len() - i,
{
    if i < s.len() && s[i] != ' ' {
        lemma_find_space_from_props(s, i + 1);
    }
}

/// `find_toneable_from` stays between its starting point and `end`, finds no
/// earlier toneable letter, and lands on one unless it reaches `end`.
pub proof fn lemma_find_toneable_from_props(s: Seq<char>, i: int, end: int)
    requires
        0 <= i <= end <= s.len(),
    ensures
        i <= find_toneable_from(s, i, end) <= end,
        forall|j: int| i <= j < find_toneable_from(s, i, end) ==> !is_toneable(s[j]),
        find_toneable_from(s, i, end) < end ==> is_toneable(s[find_toneable_from(s, i, end)]),
    decreases end - i,
{
    if i < end && !is_toneable(s[i]) {
        lemma_find_toneable_from_props(s, i + 1, end);
    }
}

/// Places the requested tone mark in a cleared skeleton whose last character
/// is the tone digit. The first toneable letter before the digit receives
/// the mark, except that a medial vowel immediately followed by another
/// toneable letter passes the mark on to that following letter. A skeleton
/// with no toneable letter is left unchanged.
pub open spec fn place_mark(skeleton: Seq<char>, tone: u8) -> Seq<char>
    recommends
        skeleton.len() >= 1,
        1 <= tone <= 5,
{
    let end: int = skeleton.len() - 1;
    let i: int = find_toneable_from(skeleton, 0, end);
    if i == end {
        skeleton
    } else if is_medial(skeleton[i]) && is_toneable(skeleton[i + 1]) {
        skeleton.update(i + 1, tone_variant(skeleton[i + 1], tone as int - 1))
    } else {
        skeleton.update(i, tone_variant(skeleton[i], tone as int - 1))
    }
}

/// Converts one space-free token. The token's marks are cleared; if the last
/// character of the cleared form is a digit `1` to `5`, the corresponding
/// mark is placed and the digit is trimmed; otherwise the token is returned
/// exactly as given.
pub open spec fn convert_syllable(syl: Seq<char>) -> Seq<char> {
    let n: int = syl.len() as int;
    if n == 0 {
        syl
    } else {
        let cleared = clear_seq(syl);
        match spec_tone_of(cleared[n - 1]) {
            Option::None => syl,
            Option::Some(tone) => {
                if tone == 0 {
                    syl
                } else {
                    place_mark(cleared, tone).take(n - 1)
                }
            },
        }
    }
}

/// The converted form of the suffix of `s` starting at `pos`, where `s` is
/// already normalized: the syllable up to the next space is converted, and
/// the rest follows after a single space.
pub open spec fn convert_text_from(s: Seq<char>, pos: int) -> Seq<char>
    decreases s.len() - pos,
{
    if pos < 0 || pos > s.len() {
        Seq::empty()
    } else {
        let k: int = find_space_from(s, pos);
        if k >= s.len() {
            convert_syllable(s.subrange(pos, s.len() as int))
        } else {
            proof {
                lemma_find_space_from_props(s, pos);
            }
            convert_syllable(s.subrange(pos, k)) + seq![' '] + convert_text_from(s, k + 1)
        }
    }
}

/// What `prettify` returns: the normalized text, split on spaces, each
/// token converted, and the results rejoined with single spaces.
pub open spec fn prettify_spec(text: Seq<char>) -> Seq<char> {
    convert_text_from(normalize(text), 0)
}

/// The number of space-delimited tokens in the suffix of `s` starting at `pos`.
pub open spec fn token_count_from(s: Seq<char>, pos: int) -> int
    decreases s.len() - pos,
{
    if pos < 0 || pos > s.len() {
        0
    } else {
        let k: int = find_space_from(s, pos);
        if k >= s.len() {
            1
        } else {
            proof {
                lemma_find_space_from_props(s, pos);
            }
            1 + token_count_from(s, k + 1)
        }
    }
}

/// The number of space-delimited tokens in `s`.
pub open spec fn token_count(s: Seq<char>) -> int {
    token_count_from(s, 0)
}

/// Collects the characters of a string slice.
fn char_vec_of_str(text: &str) -> (r: Vec<char>)
    ensures
        r@ == text@,
{
    let n: usize = text.unicode_len();
    let mut chars: Vec<char> = Vec::new();
    let mut i: usize = 0;
    while i < n
        invariant
            n == text@.len(),
            i <= n,
            chars@ == text@.take(i as int),
        decreases n - i,
    {
        chars.push(text.get_char(i));
        i = i + 1;
        proof {
            assert(chars@ =~= text@.take(i as int));
        }
    }
    proof {
        assert(chars@ =~= text@);
    }
    chars
}

/// Relies on `String::push`: appends exactly the given character at the end.
#[verifier::external_body]
fn push_char(s: &mut String, c: char)
    ensures
        final(s)@ == old(s)@.push(c),
{
    s.push(c);
}

/// Builds a string out of a character vector.
fn string_of_chars(chars: &Vec<char>) -> (r: String)
    ensures
        r@ == chars@,
{
    let mut out = String::new();
    let mut i: usize = 0;
    while i < chars.len()
        invariant
            i <= chars@.len(),
            out@ == chars@.take(i as int),
        decreases chars@.len() - i,
    {
        push_char(&mut out, chars[i]);
        i = i + 1;
        proof {
            assert(out@ =~= chars@.take(i as int));
        }
    }
    proof {
        assert(out@ =~= chars@);
    }
    out
}

/// Copies the characters of `v` between `from` and `to`.
fn subvec(v: &Vec<char>, from: usize, to: usize) -> (r: Vec<char>)
    requires
        from <= to <= v@.len(),
    ensures
        r@ == v@.subrange(from as int, to as int),
{
    let mut out: Vec<char> = Vec::new();
    let mut i: usize = from;
    while i < to
        invariant
            from <= i <= to <= v@.len(),
            out@ == v@.subrange(from as int, i as int),
        decreases to - i,
    {
        out.push(v[i]);
        i = i + 1;
        proof {
            assert(out@ =~= v@.subrange(from as int, i as int));
        }
    }
    out
}

/// Rewrites the umlaut spellings in one pass.
fn normalize_chars(text: &Vec<char>) -> (r: Vec<char>)
    ensures
        r@ == normalize(text@),
{
    let ghost s = text@;
    let n: usize = text.len();
    let mut out: Vec<char> = Vec::new();
    let mut i: usize = 0;
    while i < n
        invariant
            s == text@,
            n == s.len(),
            i <= n,
            normalize(s) == out@ + normalize_from(s, i as int),
        decreases n - i,
    {
        let c = text[i];
        if c == 'v' {
            proof {
                assert(normalize_from(s, i as int) == seq!['ü'] + normalize_from(s, i + 1));
                assert(out@.push('ü') + normalize_from(s, i + 1) =~= out@ + normalize_from(
                    s,
                    i as int,
                ));
            }
            out.push('ü');
            i = i + 1;
        } else if c == 'V' {
            proof {
                assert(normalize_from(s, i as int) == seq!['Ü'] + normalize_from(s, i + 1));
                assert(out@.push('Ü') + normalize_from(s, i + 1) =~= out@ + normalize_from(
                    s,
                    i as int,
                ));
            }
            out.push('Ü');
            i = i + 1;
        } else if c == 'u' && i + 1 < n && text[i + 1] == ':' {
            proof {
                assert(normalize_from(s, i as int) == seq!['ü'] + normalize_from(s, i + 2));
                assert(out@.push('ü') + normalize_from(s, i + 2) =~= out@ + normalize_from(
                    s,
                    i as int,
                ));
            }
            out.push('ü');
            i = i + 2;
        } else if c == 'U' && i + 1 < n && text[i + 1] == ':' {
            proof {
                assert(normalize_from(s, i as int) == seq!['Ü'] + normalize_from(s, i + 2));
                assert(out@.push('Ü') + normalize_from(s, i + 2) =~= out@ + normalize_from(
                    s,
                    i as int,
                ));
            }
            out.push('Ü');
            i = i + 2;
        } else {
            proof {
                assert(normalize_from(s, i as int) == seq![s[i as int]] + normalize_from(
                    s,
                    i + 1,
                ));
                assert(out@.push(c) + normalize_from(s, i + 1) =~= out@ + normalize_from(
                    s,
                    i as int,
                ));
            }
            out.push(c);
            i = i + 1;
        }
    }
    proof {
        assert(normalize_from(s, n as int) == Seq::<char>::empty());
        assert(out@ + normalize_from(s, n as int) =~= out@);
    }
    out
}

/// Finds the first space in `v` at or after `from`.
fn find_space_index(v: &Vec<char>, from: usize) -> (k: usize)
    requires
        from <= v@.len(),
    ensures
        k == find_space_from(v@, from as int),
        from <= k <= v@.len(),
{
    let n: usize = v.len();
    let mut i: usize = from;
    while i < n && v[i] != ' '
        invariant
            from <= i <= n,
            n == v@.len(),
            find_space_from(v@, from as int) == find_space_from(v@, i as int),
        decreases n - i,
    {
        i = i + 1;
    }
    i
}

/// Converts one space-free token, exactly as `convert_syllable` describes.
fn convert_syllable_chars(syl: &Vec<char>) -> (r: Vec<char>)
    ensures
        r@ == convert_syllable(syl@),
{
    let n: usize = syl.len();
    if n == 0 {
        let r: Vec<char> = Vec::new();
        proof {
            assert(r@ =~= syl@);
        }
        return r;
    }
    let mut cleared: Vec<char> = Vec::new();
    let mut i: usize = 0;
    while i < n
        invariant
            n == syl@.len(),
            i <= n,
            cleared@ == clear_seq(syl@).take(i as int),
        decreases n - i,
    {
        cleared.push(clear_tone_mark(syl[i]));
        i = i + 1;
        proof {
            assert(cleared@ =~= clear_seq(syl@).take(i as int));
        }
    }
    proof {
        assert(cleared@ =~= clear_seq(syl@));
    }
    let tone: u8 = match tone_of(cleared[n - 1]) {
        Option::Some(t) => t,
        Option::None => {
            let r = subvec(syl, 0, n);
            proof {
                assert(r@ =~= syl@);
            }
            return r;
        },
    };
    if tone == 0 {
        let r = subvec(syl, 0, n);
        proof {
            assert(r@ =~= syl@);
        }
        return r;
    }
    let end: usize = n - 1;
    let mut j: usize = 0;
    while j < end && !is_toneable_letter(cleared[j])
        invariant
            end == n - 1,
            n == syl@.len(),
            cleared@ == clear_seq(syl@),
            j <= end,
            find_toneable_from(cleared@, 0, end as int) == find_toneable_from(
                cleared@,
                j as int,
                end as int,
            ),
        decreases end - j,
    {
        j = j + 1;
    }
    proof {
        assert(find_toneable_from(cleared@, 0, end as int) == j as int);
    }
    if j < end {
        let tcol: u8 = tone - 1;
        if is_medial_letter(cleared[j]) && is_toneable_letter(cleared[j + 1]) {
            let repl = variant_in_column(cleared[j + 1], tcol);
            cleared.set(j + 1, repl);
        } else {
            let repl = variant_in_column(cleared[j], tcol);
            cleared.set(j, repl);
        }
    }
    proof {
        assert(cleared@ == place_mark(clear_seq(syl@), tone));
    }
    cleared.truncate(n - 1);
    proof {
        assert(cleared@ == convert_syllable(syl@));
    }
    cleared
}

/// The converted text that still follows once everything before `pos` is done:
/// nothing if `pos` is at the end, otherwise a space and the rest.
spec fn converted_tail(s: Seq<char>, pos: int) -> Seq<char> {
    if pos >= s.len() {
        Seq::empty()
    } else {
        seq![' '] + convert_text_from(s, pos + 1)
    }
}

/// Converts pinyin written with trailing tone numbers into pinyin with tone
/// marks: each space-delimited syllable with a valid trailing digit `1`–`5`
/// has the digit removed and the mark placed on the proper vowel, after the
/// umlaut spellings `v`, `V`, `u:`, `U:` are rewritten to `ü`/`Ü`; every
/// other token passes through unchanged.
pub fn prettify(text: &str) -> (res: String)
    ensures
        res@ == prettify_spec(text@),
{
    let chars = char_vec_of_str(text);
    let norm = normalize_chars(&chars);
    let ghost s = norm@;
    let n: usize = norm.len();
    let mut out: Vec<char> = Vec::new();
    let k0: usize = find_space_index(&norm, 0);
    let token = subvec(&norm, 0, k0);
    let mut conv = convert_syllable_chars(&token);
    proof {
        lemma_find_space_from_props(s, 0);
        if k0 == s.len() {
            assert(token@ =~= s.subrange(0, s.len() as int));
            assert(convert_text_from(s, 0) =~= conv@ + converted_tail(s, k0 as int));
        } else {
            assert(convert_text_from(s, 0) =~= conv@ + converted_tail(s, k0 as int));
        }
    }
    out.append(&mut conv);
    let mut pos: usize = k0;
    while pos < n
        invariant
            s == norm@,
            n == s.len(),
            pos <= n,
            pos < n ==> s[pos as int] == ' ',
            convert_text_from(s, 0) == out@ + converted_tail(s, pos as int),
        decreases n - pos,
    {
        out.push(' ');
        let k: usize = find_space_index(&norm, pos + 1);
        let token = subvec(&norm, pos + 1, k);
        let mut conv = convert_syllable_chars(&token);
        proof {
            lemma_find_space_from_props(s, pos + 1);
            if k == s.len() {
                assert(token@ =~= s.subrange(pos + 1, s.len() as int));
            }
            assert(convert_text_from(s, pos + 1) =~= conv@ + converted_tail(s, k as int));
            assert(out@ + conv@ + converted_tail(s, k as int) =~= convert_text_from(s, 0));
        }
        out.append(&mut conv);
        pos = k;
    }
    proof {
        assert(converted_tail(s, pos as int) == Seq::<char>::empty());
        assert(out@ =~= out@ + converted_tail(s, pos as int));
        assert(s == normalize(text@));
    }
    string_of_chars(&out)
}

} // verus!
