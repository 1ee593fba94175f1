//! The general properties of the converter, stated and proved once and for
//! all inputs: idempotence of re-marking, the length and pass-through
//! behaviour of a token, the medial tie-break, token-count preservation,
//! umlaut normalization, and case preservation.

use vstd::prelude::*;

use crate::convert::clear_seq;
use crate::convert::convert_syllable;
use crate::convert::convert_text_from;
use crate::convert::find_space_from;
use crate::convert::find_toneable_from;
use crate::convert::lemma_find_space_from_props;
use crate::convert::lemma_find_toneable_from_props;
use crate::convert::normalize;
use crate::convert::normalize_from;
use crate::convert::place_mark;
use crate::convert::prettify_spec;
use crate::convert::token_count;
use crate::convert::token_count_from;
use crate::table::clear_mark;
use crate::table::is_medial;
use crate::table::is_tone_digit;
use crate::table::is_toneable;
use crate::table::spec_tone_of;
use crate::table::tone_variant;

verus! {

/// Clearing a mark is idempotent: what `clear_mark` returns is always a
/// fixed point of `clear_mark`.
pub proof fn lemma_clear_mark_idempotent(c: char)
    ensures
        clear_mark(clear_mark(c)) == clear_mark(c),
{
}

/// Clearing marks never makes a tone digit appear or disappear.
pub proof fn lemma_clear_mark_digit(c: char)
    ensures
        is_tone_digit(clear_mark(c)) == is_tone_digit(c),
        spec_tone_of(clear_mark(c)) == spec_tone_of(c),
{
}

/// Clearing the whole syllable twice is the same as clearing it once.
pub proof fn lemma_clear_seq_idempotent(s: Seq<char>)
    ensures
        clear_seq(clear_seq(s)) == clear_seq(s),
{
    assert forall|i: int| 0 <= i < s.len() implies clear_seq(clear_seq(s))[i] == clear_seq(s)[i] by {
        lemma_clear_mark_idempotent(s[i]);
    }
    assert(clear_seq(clear_seq(s)) =~= clear_seq(s));
}

/// Re-marking is idempotent: a syllable that already carries tone marks and
/// ends in a valid tone digit converts to exactly what its mark-cleared form
/// converts to, so marks left over from an earlier conversion never change
/// where the new mark is placed.
pub proof fn lemma_remark_idempotent(syl: Seq<char>)
    requires
        syl.len() > 0,
        is_tone_digit(syl[syl.len() - 1]),
    ensures
        convert_syllable(clear_seq(syl)) == convert_syllable(syl),
{
    let n: int = syl.len() as int;
    let cs = clear_seq(syl);
    lemma_clear_seq_idempotent(syl);
    lemma_clear_mark_digit(syl[n - 1]);
    assert(cs[n - 1] == clear_mark(syl[n - 1]));
    assert(spec_tone_of(cs[n - 1]) == spec_tone_of(syl[n - 1]));
}

/// A syllable whose cleared form ends in a valid tone digit comes out
/// exactly one character shorter: the digit is trimmed and one letter is
/// replaced in place.
pub proof fn lemma_converted_length(syl: Seq<char>)
    requires
        syl.len() > 0,
        is_tone_digit(syl[syl.len() - 1]),
    ensures
        convert_syllable(syl).len() == syl.len() - 1,
{
    let n: int = syl.len() as int;
    let cs = clear_seq(syl);
    lemma_clear_mark_digit(syl[n - 1]);
    lemma_find_toneable_from_props(cs, 0, n - 1);
    assert(place_mark(cs, spec_tone_of(cs[n - 1])->Some_0).len() == n);
}

/// A token that does not end in a digit `1` to `5` once its marks are
/// cleared passes through entirely unchanged: no trimming, no marking.
pub proof fn lemma_pass_through(syl: Seq<char>)
    requires
        syl.len() == 0 || !is_tone_digit(clear_seq(syl)[syl.len() - 1]),
    ensures
        convert_syllable(syl) == syl,
{
}

/// The pass-through condition can be read off the raw token as well:
/// clearing marks never changes whether the last character is a tone digit.
pub proof fn lemma_pass_through_raw(syl: Seq<char>)
    requires
        syl.len() == 0 || !is_tone_digit(syl[syl.len() - 1]),
    ensures
        convert_syllable(syl) == syl,
{
    if syl.len() > 0 {
        lemma_clear_mark_digit(syl[syl.len() - 1]);
    }
    lemma_pass_through(syl);
}

/// If no toneable letter stands before position `i`, and `i` itself is
/// toneable or the scan range is exhausted, the scan finds exactly `i`.
proof fn lemma_find_toneable_at(s: Seq<char>, lo: int, i: int, end: int)
    requires
        0 <= lo <= i <= end,
        forall|j: int| lo <= j < i ==> !is_toneable(s[j]),
        i < end ==> is_toneable(s[i]),
    ensures
        find_toneable_from(s, lo, end) == i,
    decreases i - lo,
{
    if lo < i {
        lemma_find_toneable_at(s, lo + 1, i, end);
    }
}

/// The medial tie-break: when the first toneable letter of the cleared
/// syllable is a medial vowel and the very next character is toneable too,
/// the mark lands on that following vowel and the medial itself stays bare.
pub proof fn lemma_medial_tie_break(syl: Seq<char>, i: int, tone: u8)
    requires
        syl.len() >= 2,
        spec_tone_of(clear_seq(syl)[syl.len() - 1]) == Some(tone),
        1 <= tone <= 5,
        0 <= i < syl.len() - 1,
        forall|j: int| 0 <= j < i ==> !is_toneable(clear_seq(syl)[j]),
        is_medial(clear_seq(syl)[i]),
        is_toneable(clear_seq(syl)[i + 1]),
    ensures
        i + 1 < syl.len() - 1,
        convert_syllable(syl)[i + 1] == tone_variant(clear_seq(syl)[i + 1], tone as int - 1),
        convert_syllable(syl)[i] == clear_seq(syl)[i],
{
    let n: int = syl.len() as int;
    let cs = clear_seq(syl);
    assert(is_toneable(cs[i]));
    assert(!is_toneable(cs[n - 1]));
    lemma_find_toneable_at(cs, 0, i, n - 1);
}

/// The number of space characters in `s`.
spec fn space_count(s: Seq<char>) -> int
    decreases s.len(),
{
    if s.len() == 0 {
        0
    } else {
        (if s[0] == ' ' {
            1int
        } else {
            0int
        }) + space_count(s.drop_first())
    }
}

proof fn lemma_space_count_concat(a: Seq<char>, b: Seq<char>)
    ensures
        space_count(a + b) == space_count(a) + space_count(b),
    decreases a.len(),
{
    if a.len() == 0 {
        assert(a + b =~= b);
    } else {
        assert((a + b).drop_first() =~= a.drop_first() + b);
        lemma_space_count_concat(a.drop_first(), b);
        assert((a + b)[0] == a[0]);
    }
}

proof fn lemma_space_count_single(c: char)
    ensures
        space_count(seq![c]) == if c == ' ' {
            1int
        } else {
            0int
        },
{
    assert(seq![c].drop_first() =~= Seq::<char>::empty());
    assert(space_count(Seq::<char>::empty()) == 0);
}

proof fn lemma_space_count_none(s: Seq<char>)
    requires
        forall|j: int| 0 <= j < s.len() ==> s[j] != ' ',
    ensures
        space_count(s) == 0,
    decreases s.len(),
{
    if s.len() > 0 {
        lemma_space_count_none(s.drop_first());
    }
}

proof fn lemma_subrange_split(s: Seq<char>, a: int, b: int, c: int)
    requires
        0 <= a <= b <= c <= s.len(),
    ensures
        s.subrange(a, c) == s.subrange(a, b) + s.subrange(b, c),
{
    assert(s.subrange(a, c) =~= s.subrange(a, b) + s.subrange(b, c));
}

/// Normalization rewrites letters and colons only: the spaces, and with
/// them the token boundaries, stay exactly where they were.
proof fn lemma_normalize_from_space_count(s: Seq<char>, i: int)
    requires
        0 <= i <= s.len(),
    ensures
        space_count(normalize_from(s, i)) == space_count(s.subrange(i, s.len() as int)),
    decreases s.len() - i,
{
    let len: int = s.len() as int;
    if i >= len {
        assert(s.subrange(i, len) =~= Seq::<char>::empty());
    } else if s[i] == 'v' || s[i] == 'V' {
        let c: char = if s[i] == 'v' {
            'ü'
        } else {
            'Ü'
        };
        lemma_normalize_from_space_count(s, i + 1);
        lemma_space_count_concat(seq![c], normalize_from(s, i + 1));
        lemma_space_count_single(c);
        lemma_space_count_single(s[i]);
        assert(s.subrange(i, len) =~= seq![s[i]] + s.subrange(i + 1, len));
        lemma_space_count_concat(seq![s[i]], s.subrange(i + 1, len));
    } else if (s[i] == 'u' || s[i] == 'U') && i + 1 < len && s[i + 1] == ':' {
        let c: char = if s[i] == 'u' {
            'ü'
        } else {
            'Ü'
        };
        lemma_normalize_from_space_count(s, i + 2);
        lemma_space_count_concat(seq![c], normalize_from(s, i + 2));
        lemma_space_count_single(c);
        lemma_space_count_single(s[i]);
        lemma_space_count_single(s[i + 1]);
        lemma_space_count_concat(seq![s[i]], seq![s[i + 1]]);
        lemma_space_count_concat(seq![s[i]] + seq![s[i + 1]], s.subrange(i + 2, len));
        assert(s.subrange(i, len) =~= seq![s[i]] + seq![s[i + 1]] + s.subrange(i + 2, len));
    } else {
        lemma_normalize_from_space_count(s, i + 1);
        lemma_space_count_concat(seq![s[i]], normalize_from(s, i + 1));
        lemma_space_count_single(s[i]);
        assert(s.subrange(i, len) =~= seq![s[i]] + s.subrange(i + 1, len));
        lemma_space_count_concat(seq![s[i]], s.subrange(i + 1, len));
    }
}

/// Counting tokens is counting spaces: one more token than spaces.
proof fn lemma_token_count_space_count(s: Seq<char>, pos: int)
    requires
        0 <= pos <= s.len(),
    ensures
        token_count_from(s, pos) == space_count(s.subrange(pos, s.len() as int)) + 1,
    decreases s.len() - pos,
{
    let len: int = s.len() as int;
    let k: int = find_space_from(s, pos);
    lemma_find_space_from_props(s, pos);
    if k >= len {
        assert forall|j: int| 0 <= j < len - pos implies s.subrange(pos, len)[j] != ' ' by {
            assert(s.subrange(pos, len)[j] == s[pos + j]);
        }
        lemma_space_count_none(s.subrange(pos, len));
    } else {
        lemma_token_count_space_count(s, k + 1);
        lemma_subrange_split(s, pos, k, len);
        lemma_subrange_split(s, k, k + 1, len);
        assert(s.subrange(k, k + 1) =~= seq![s[k]]);
        lemma_space_count_concat(s.subrange(pos, k), s.subrange(k, len));
        lemma_space_count_concat(s.subrange(k, k + 1), s.subrange(k + 1, len));
        lemma_space_count_single(s[k]);
        assert forall|j: int| 0 <= j < k - pos implies s.subrange(pos, k)[j] != ' ' by {
            assert(s.subrange(pos, k)[j] == s[pos + j]);
        }
        lemma_space_count_none(s.subrange(pos, k));
    }
}

proof fn lemma_clear_mark_not_space(c: char)
    ensures
        c != ' ' ==> clear_mark(c) != ' ',
{
}

proof fn lemma_tone_variant_not_space(c: char, col: int)
    ensures
        c != ' ' ==> tone_variant(c, col) != ' ',
{
}

/// Converting a space-free token yields a space-free token.
proof fn lemma_convert_syllable_no_space(syl: Seq<char>)
    requires
        forall|j: int| 0 <= j < syl.len() ==> syl[j] != ' ',
    ensures
        forall|j: int|
            0 <= j < convert_syllable(syl).len() ==> convert_syllable(syl)[j] != ' ',
{
    let n: int = syl.len() as int;
    let cs = clear_seq(syl);
    if n > 0 {
        assert forall|j: int| 0 <= j < n implies cs[j] != ' ' by {
            lemma_clear_mark_not_space(syl[j]);
        }
        match spec_tone_of(cs[n - 1]) {
            Option::None => {},
            Option::Some(tone) => {
                if tone != 0 {
                    lemma_find_toneable_from_props(cs, 0, n - 1);
                    let i: int = find_toneable_from(cs, 0, n - 1);
                    assert forall|j: int|
                        0 <= j < convert_syllable(syl).len() implies convert_syllable(syl)[j]
                        != ' ' by {
                        if i < n - 1 {
                            lemma_tone_variant_not_space(cs[i], tone as int - 1);
                            lemma_tone_variant_not_space(cs[i + 1], tone as int - 1);
                        }
                    }
                }
            },
        }
    }
}

/// Joining converted tokens puts one space between neighbours and none
/// inside a token, so the space count of the whole text is preserved.
proof fn lemma_convert_text_from_space_count(s: Seq<char>, pos: int)
    requires
        0 <= pos <= s.len(),
    ensures
        space_count(convert_text_from(s, pos)) == space_count(s.subrange(pos, s.len() as int)),
    decreases s.len() - pos,
{
    let len: int = s.len() as int;
    let k: int = find_space_from(s, pos);
    lemma_find_space_from_props(s, pos);
    if k >= len {
        let tok = s.subrange(pos, len);
        assert forall|j: int| 0 <= j < tok.len() implies tok[j] != ' ' by {
            assert(tok[j] == s[pos + j]);
        }
        lemma_convert_syllable_no_space(tok);
        lemma_space_count_none(convert_syllable(tok));
        lemma_space_count_none(tok);
    } else {
        lemma_convert_text_from_space_count(s, k + 1);
        let tok = s.subrange(pos, k);
        assert forall|j: int| 0 <= j < tok.len() implies tok[j] != ' ' by {
            assert(tok[j] == s[pos + j]);
        }
        lemma_convert_syllable_no_space(tok);
        lemma_space_count_none(convert_syllable(tok));
        lemma_space_count_none(tok);
        lemma_space_count_concat(convert_syllable(tok), seq![' ']);
        lemma_space_count_concat(convert_syllable(tok) + seq![' '], convert_text_from(s, k + 1));
        lemma_space_count_single(' ');
        lemma_subrange_split(s, pos, k, len);
        lemma_subrange_split(s, k, k + 1, len);
        assert(s.subrange(k, k + 1) =~= seq![s[k]]);
        lemma_space_count_concat(s.subrange(pos, k), s.subrange(k, len));
        lemma_space_count_concat(s.subrange(k, k + 1), s.subrange(k + 1, len));
        lemma_space_count_single(s[k]);
    }
}

/// Conversion never changes the number of space-delimited tokens: for every
/// input, the output splits into exactly as many tokens as the input did.
pub proof fn lemma_token_count_preserved(text: Seq<char>)
    ensures
        token_count(prettify_spec(text)) == token_count(text),
{
    let norm = normalize(text);
    let out = prettify_spec(text);
    lemma_normalize_from_space_count(text, 0);
    lemma_convert_text_from_space_count(norm, 0);
    lemma_token_count_space_count(text, 0);
    lemma_token_count_space_count(norm, 0);
    lemma_token_count_space_count(out, 0);
    assert(text.subrange(0, text.len() as int) =~= text);
    assert(norm.subrange(0, norm.len() as int) =~= norm);
    assert(out.subrange(0, out.len() as int) =~= out);
}

/// No informal umlaut spelling remains in `s`: no `v` or `V` anywhere, and
/// no `u` or `U` immediately followed by a colon.
pub open spec fn no_umlaut_escapes(s: Seq<char>) -> bool {
    forall|j: int|
        0 <= j < s.len() ==> #[trigger] s[j] != 'v' && s[j] != 'V' && !(s[j] == 'u' && j + 1
            < s.len() && s[j + 1] == ':') && !(s[j] == 'U' && j + 1 < s.len() && s[j + 1] == ':')
}

proof fn lemma_normalize_from_first(s: Seq<char>, i: int)
    requires
        0 <= i < s.len(),
    ensures
        normalize_from(s, i).len() >= 1,
        normalize_from(s, i)[0] == 'ü' || normalize_from(s, i)[0] == 'Ü' || normalize_from(
            s,
            i,
        )[0] == s[i],
{
}

proof fn lemma_clean_cons(c: char, rest: Seq<char>)
    requires
        no_umlaut_escapes(rest),
        c != 'v' && c != 'V',
        (c == 'u' || c == 'U') ==> rest.len() == 0 || rest[0] != ':',
    ensures
        no_umlaut_escapes(seq![c] + rest),
{
    let r = seq![c] + rest;
    assert forall|j: int|
        0 <= j < r.len() implies #[trigger] r[j] != 'v' && r[j] != 'V' && !(r[j] == 'u' && j + 1
        < r.len() && r[j + 1] == ':') && !(r[j] == 'U' && j + 1 < r.len() && r[j + 1] == ':') by {
        if j == 0 {
            if 1 < r.len() {
                assert(r[1] == rest[0]);
            }
        } else {
            assert(r[j] == rest[j - 1]);
            assert(rest[j - 1] != 'v');
            if j + 1 < r.len() {
                assert(r[j + 1] == rest[j]);
            }
        }
    }
}

/// After one normalization pass nothing is left to rewrite.
proof fn lemma_normalize_from_clean(s: Seq<char>, i: int)
    requires
        0 <= i <= s.len(),
    ensures
        no_umlaut_escapes(normalize_from(s, i)),
    decreases s.len() - i,
{
    let len: int = s.len() as int;
    if i < len {
        if s[i] == 'v' {
            lemma_normalize_from_clean(s, i + 1);
            lemma_clean_cons('ü', normalize_from(s, i + 1));
        } else if s[i] == 'V' {
            lemma_normalize_from_clean(s, i + 1);
            lemma_clean_cons('Ü', normalize_from(s, i + 1));
        } else if s[i] == 'u' && i + 1 < len && s[i + 1] == ':' {
            lemma_normalize_from_clean(s, i + 2);
            lemma_clean_cons('ü', normalize_from(s, i + 2));
        } else if s[i] == 'U' && i + 1 < len && s[i + 1] == ':' {
            lemma_normalize_from_clean(s, i + 2);
            lemma_clean_cons('Ü', normalize_from(s, i + 2));
        } else {
            lemma_normalize_from_clean(s, i + 1);
            if i + 1 < len {
                lemma_normalize_from_first(s, i + 1);
            }
            lemma_clean_cons(s[i], normalize_from(s, i + 1));
        }
    }
}

/// Text with no umlaut spelling left normalizes to itself.
proof fn lemma_normalize_clean_identity(s: Seq<char>, i: int)
    requires
        no_umlaut_escapes(s),
        0 <= i <= s.len(),
    ensures
        normalize_from(s, i) == s.subrange(i, s.len() as int),
    decreases s.len() - i,
{
    let len: int = s.len() as int;
    if i >= len {
        assert(s.subrange(i, len) =~= Seq::<char>::empty());
    } else {
        assert(s[i] != 'v' && s[i] != 'V');
        lemma_normalize_clean_identity(s, i + 1);
        assert(normalize_from(s, i) == seq![s[i]] + normalize_from(s, i + 1));
        assert(seq![s[i]] + s.subrange(i + 1, len) =~= s.subrange(i, len));
    }
}

/// Umlaut normalization is a separate first pass and is idempotent: one
/// pass leaves nothing to rewrite, so normalizing an input before handing
/// it over changes nothing about the conversion.
pub proof fn lemma_normalize_idempotent(text: Seq<char>)
    ensures
        no_umlaut_escapes(normalize(text)),
        normalize(normalize(text)) == normalize(text),
        prettify_spec(normalize(text)) == prettify_spec(text),
{
    lemma_normalize_from_clean(text, 0);
    lemma_normalize_clean_identity(normalize(text), 0);
    assert(normalize(text).subrange(0, normalize(text).len() as int) =~= normalize(text));
}

/// A lowercase letter, as far as this library tracks case: an ASCII
/// lowercase letter or a lowercase entry of the tone table.
pub open spec fn is_lower_letter(c: char) -> bool {
    ('a' as int <= c as int && c as int <= 'z' as int) || c == 'ü' || c == 'ā' || c == 'á' || c
        == 'ǎ' || c == 'à' || c == 'ē' || c == 'é' || c == 'ě' || c == 'è' || c == 'ū' || c == 'ú'
        || c == 'ǔ' || c == 'ù' || c == 'ī' || c == 'í' || c == 'ǐ' || c == 'ì' || c == 'ō' || c
        == 'ó' || c == 'ǒ' || c == 'ò' || c == 'ǖ' || c == 'ǘ' || c == 'ǚ' || c == 'ǜ'
}

/// An uppercase letter, as far as this library tracks case: an ASCII
/// uppercase letter or an uppercase entry of the tone table.
pub open spec fn is_upper_letter(c: char) -> bool {
    ('A' as int <= c as int && c as int <= 'Z' as int) || c == 'Ü' || c == 'Ā' || c == 'Á' || c
        == 'Ǎ' || c == 'À' || c == 'Ē' || c == 'É' || c == 'Ě' || c == 'È' || c == 'Ū' || c == 'Ú'
        || c == 'Ǔ' || c == 'Ù' || c == 'Ī' || c == 'Í' || c == 'Ǐ' || c == 'Ì' || c == 'Ō' || c
        == 'Ó' || c == 'Ǒ' || c == 'Ò' || c == 'Ǖ' || c == 'Ǘ' || c == 'Ǚ' || c == 'Ǜ'
}

/// `s` contains no lowercase letter.
pub open spec fn none_lower(s: Seq<char>) -> bool {
    forall|j: int| 0 <= j < s.len() ==> !is_lower_letter(s[j])
}

/// `s` contains no uppercase letter.
pub open spec fn none_upper(s: Seq<char>) -> bool {
    forall|j: int| 0 <= j < s.len() ==> !is_upper_letter(s[j])
}

proof fn lemma_clear_mark_case(c: char)
    ensures
        is_lower_letter(clear_mark(c)) == is_lower_letter(c),
        is_upper_letter(clear_mark(c)) == is_upper_letter(c),
{
}

proof fn lemma_tone_variant_case(base: char, col: int)
    ensures
        is_lower_letter(tone_variant(base, col)) == is_lower_letter(base),
        is_upper_letter(tone_variant(base, col)) == is_upper_letter(base),
{
}

proof fn lemma_none_lower_cons(c: char, rest: Seq<char>)
    requires
        !is_lower_letter(c),
        none_lower(rest),
    ensures
        none_lower(seq![c] + rest),
{
    assert forall|j: int|
        0 <= j < (seq![c] + rest).len() implies !is_lower_letter((seq![c] + rest)[j]) by {
        if j > 0 {
            assert((seq![c] + rest)[j] == rest[j - 1]);
        }
    }
}

proof fn lemma_none_upper_cons(c: char, rest: Seq<char>)
    requires
        !is_upper_letter(c),
        none_upper(rest),
    ensures
        none_upper(seq![c] + rest),
{
    assert forall|j: int|
        0 <= j < (seq![c] + rest).len() implies !is_upper_letter((seq![c] + rest)[j]) by {
        if j > 0 {
            assert((seq![c] + rest)[j] == rest[j - 1]);
        }
    }
}

/// Normalization preserves case: `v` and `u:` turn into the lowercase `ü`,
/// `V` and `U:` into the uppercase `Ü`.
proof fn lemma_normalize_from_case(s: Seq<char>, i: int)
    requires
        0 <= i <= s.len(),
    ensures
        none_lower(s) ==> none_lower(normalize_from(s, i)),
        none_upper(s) ==> none_upper(normalize_from(s, i)),
    decreases s.len() - i,
{
    let len: int = s.len() as int;
    if i < len {
        if s[i] == 'v' {
            lemma_normalize_from_case(s, i + 1);
            if none_lower(s) {
                assert(is_lower_letter(s[i]));
            }
            if none_upper(s) {
                lemma_none_upper_cons('ü', normalize_from(s, i + 1));
            }
        } else if s[i] == 'V' {
            lemma_normalize_from_case(s, i + 1);
            if none_upper(s) {
                assert(is_upper_letter(s[i]));
            }
            if none_lower(s) {
                lemma_none_lower_cons('Ü', normalize_from(s, i + 1));
            }
        } else if s[i] == 'u' && i + 1 < len && s[i + 1] == ':' {
            lemma_normalize_from_case(s, i + 2);
            if none_lower(s) {
                assert(is_lower_letter(s[i]));
            }
            if none_upper(s) {
                lemma_none_upper_cons('ü', normalize_from(s, i + 2));
            }
        } else if s[i] == 'U' && i + 1 < len && s[i + 1] == ':' {
            lemma_normalize_from_case(s, i + 2);
            if none_upper(s) {
                assert(is_upper_letter(s[i]));
            }
            if none_lower(s) {
                lemma_none_lower_cons('Ü', normalize_from(s, i + 2));
            }
        } else {
            lemma_normalize_from_case(s, i + 1);
            if none_lower(s) {
                lemma_none_lower_cons(s[i], normalize_from(s, i + 1));
            }
            if none_upper(s) {
                lemma_none_upper_cons(s[i], normalize_from(s, i + 1));
            }
        }
    }
}

/// Converting a single token introduces no letter of the other case.
proof fn lemma_convert_syllable_case(syl: Seq<char>)
    ensures
        none_lower(syl) ==> none_lower(convert_syllable(syl)),
        none_upper(syl) ==> none_upper(convert_syllable(syl)),
{
    let n: int = syl.len() as int;
    let cs = clear_seq(syl);
    if n > 0 {
        assert forall|j: int| 0 <= j < n implies is_lower_letter(cs[j]) == is_lower_letter(
            syl[j],
        ) && is_upper_letter(cs[j]) == is_upper_letter(syl[j]) by {
            lemma_clear_mark_case(syl[j]);
        }
        match spec_tone_of(cs[n - 1]) {
            Option::None => {},
            Option::Some(tone) => {
                if tone != 0 {
                    lemma_find_toneable_from_props(cs, 0, n - 1);
                    let i: int = find_toneable_from(cs, 0, n - 1);
                    if i < n - 1 {
                        lemma_tone_variant_case(cs[i], tone as int - 1);
                        lemma_tone_variant_case(cs[i + 1], tone as int - 1);
                    }
                }
            },
        }
    }
}

/// Joining converted tokens introduces no letter of the other case.
proof fn lemma_convert_text_from_case(s: Seq<char>, pos: int)
    requires
        0 <= pos <= s.len(),
    ensures
        none_lower(s) ==> none_lower(convert_text_from(s, pos)),
        none_upper(s) ==> none_upper(convert_text_from(s, pos)),
    decreases s.len() - pos,
{
    let len: int = s.len() as int;
    let k: int = find_space_from(s, pos);
    lemma_find_space_from_props(s, pos);
    if k >= len {
        let tok = s.subrange(pos, len);
        assert forall|j: int|
            0 <= j < tok.len() implies tok[j] == s[pos + j] by {}
        lemma_convert_syllable_case(tok);
    } else {
        lemma_convert_text_from_case(s, k + 1);
        let tok = s.subrange(pos, k);
        assert forall|j: int|
            0 <= j < tok.len() implies tok[j] == s[pos + j] by {}
        lemma_convert_syllable_case(tok);
        let conv = convert_syllable(tok);
        let rest = convert_text_from(s, k + 1);
        let r = conv + seq![' '] + rest;
        if none_lower(s) {
            assert forall|j: int| 0 <= j < r.len() implies !is_lower_letter(r[j]) by {
                if j < conv.len() {
                    assert(r[j] == conv[j]);
                } else if j == conv.len() {
                    assert(r[j] == ' ');
                } else {
                    assert(r[j] == rest[j - conv.len() - 1]);
                }
            }
        }
        if none_upper(s) {
            assert forall|j: int| 0 <= j < r.len() implies !is_upper_letter(r[j]) by {
                if j < conv.len() {
                    assert(r[j] == conv[j]);
                } else if j == conv.len() {
                    assert(r[j] == ' ');
                } else {
                    assert(r[j] == rest[j - conv.len() - 1]);
                }
            }
        }
    }
}

/// Case preservation: converting a text with no lowercase letter never
/// introduces one, and likewise for uppercase. Case is tracked over the
/// ASCII letters and the letters of the tone table.
pub proof fn lemma_case_preserved(text: Seq<char>)
    ensures
        none_lower(text) ==> none_lower(prettify_spec(text)),
        none_upper(text) ==> none_upper(prettify_spec(text)),
{
    lemma_normalize_from_case(text, 0);
    lemma_convert_text_from_case(normalize(text), 0);
}

} // verus!

