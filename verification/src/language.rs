//! The languages a learner can study, their names, and what counts as a
//! single word in each of them.

use vstd::prelude::*;
use crate::text::{chars_of, is_ascii_alpha, is_ascii_alphabetic_char, is_whitespace_char, is_ws, trim, trim_bounds};

verus! {

#[derive(Clone, Copy, PartialEq, Eq, Debug, Structural)]
pub enum LearningLanguage {
    English,
    Japanese,
    Chinese,
}

/// Position of a language in the fixed order English, Japanese, Chinese.
pub open spec fn language_index(l: LearningLanguage) -> int {
    match l {
        LearningLanguage::English => 0,
        LearningLanguage::Japanese => 1,
        LearningLanguage::Chinese => 2,
    }
}

pub open spec fn language_at(i: int) -> LearningLanguage {
    if i == 0 {
        LearningLanguage::English
    } else if i == 1 {
        LearningLanguage::Japanese
    } else {
        LearningLanguage::Chinese
    }
}

/// The language `delta` steps away in the cyclic order.
pub open spec fn rotated(l: LearningLanguage, delta: int) -> LearningLanguage {
    language_at((language_index(l) + delta) % 3)
}

pub open spec fn display_name_ko_text(l: LearningLanguage) -> Seq<char> {
    match l {
        LearningLanguage::English => "영어"@,
        LearningLanguage::Japanese => "일본어"@,
        LearningLanguage::Chinese => "중국어"@,
    }
}

pub open spec fn term_language_text(l: LearningLanguage) -> Seq<char> {
    match l {
        LearningLanguage::English => "English"@,
        LearningLanguage::Japanese => "Japanese"@,
        LearningLanguage::Chinese => "Chinese"@,
    }
}

/// Hiragana, katakana and their phonetic extensions.
pub open spec fn is_kana(c: char) -> bool {
    let u = c as u32;
    ||| 0x3040 <= u <= 0x309F
    ||| 0x30A0 <= u <= 0x30FF
    ||| 0x31F0 <= u <= 0x31FF
}

/// CJK unified ideographs (with extension A) and compatibility ideographs.
pub open spec fn is_han(c: char) -> bool {
    let u = c as u32;
    ||| 0x3400 <= u <= 0x4DBF
    ||| 0x4E00 <= u <= 0x9FFF
    ||| 0xF900 <= u <= 0xFAFF
}

pub open spec fn is_japanese(c: char) -> bool {
    is_kana(c) || is_han(c)
}

pub open spec fn any_ws(s: Seq<char>) -> bool {
    exists|i: int| 0 <= i < s.len() && #[trigger] is_ws(s[i])
}

pub open spec fn any_japanese(s: Seq<char>) -> bool {
    exists|i: int| 0 <= i < s.len() && #[trigger] is_japanese(s[i])
}

pub open spec fn any_han(s: Seq<char>) -> bool {
    exists|i: int| 0 <= i < s.len() && #[trigger] is_han(s[i])
}

pub open spec fn any_ascii_alpha(s: Seq<char>) -> bool {
    exists|i: int| 0 <= i < s.len() && #[trigger] is_ascii_alpha(s[i])
}

pub open spec fn any_kana(s: Seq<char>) -> bool {
    exists|i: int| 0 <= i < s.len() && #[trigger] is_kana(s[i])
}

/// Whether `term`, once trimmed, is one word of `language`: non-empty, no
/// whitespace inside, and written in the script of that language.
pub open spec fn single_word(term: Seq<char>, language: LearningLanguage) -> bool {
    let t = trim(term);
    &&& t.len() > 0
    &&& !any_ws(t)
    &&& match language {
        LearningLanguage::English => forall|i: int|
            0 <= i < t.len() ==> #[trigger] is_ascii_alpha(t[i]) || t[i] == '-' || t[i] == '\'',
        LearningLanguage::Japanese => any_japanese(t) && !any_ascii_alpha(t),
        LearningLanguage::Chinese => any_han(t) && !any_ascii_alpha(t) && !any_kana(t),
    }
}

pub open spec fn skill_band_text(skill: u32) -> Seq<char> {
    if skill <= 2 {
        "beginner"@
    } else if skill <= 6 {
        "elementary"@
    } else if skill <= 11 {
        "intermediate"@
    } else {
        "advanced"@
    }
}

pub open spec fn level_band_text(level: u32) -> Seq<char> {
    if 1 <= level <= 3 {
        "beginner"@
    } else if 4 <= level <= 7 {
        "intermediate"@
    } else {
        "advanced"@
    }
}

impl LearningLanguage {
    /// The Korean name shown for the language.
    pub fn display_name_ko(self) -> (r: &'static str)
        ensures
            r@ == display_name_ko_text(self),
    {
        match self {
            LearningLanguage::English => "영어",
            LearningLanguage::Japanese => "일본어",
            LearningLanguage::Chinese => "중국어",
        }
    }

    /// The language in which topics are written.
    pub fn topic_language_name() -> (r: &'static str)
        ensures
            r@ == "Korean"@,
    {
        "Korean"
    }

    /// The English name of the language, used when asking for words.
    pub fn term_language_name(self) -> (r: &'static str)
        ensures
            r@ == term_language_text(self),
    {
        match self {
            LearningLanguage::English => "English",
            LearningLanguage::Japanese => "Japanese",
            LearningLanguage::Chinese => "Chinese",
        }
    }

    /// The language `delta` steps away in the order English, Japanese,
    /// Chinese, wrapping around at both ends.
    pub fn rotate(self, delta: isize) -> (r: LearningLanguage)
        requires
            language_index(self) + delta <= isize::MAX,
        ensures
            r == rotated(self, delta as int),
    {
        let idx: u8 = match self {
            LearningLanguage::English => 0,
            LearningLanguage::Japanese => 1,
            LearningLanguage::Chinese => 2,
        };
        let next = wrap3(idx, delta);
        if next == 0 {
            LearningLanguage::English
        } else if next == 1 {
            LearningLanguage::Japanese
        } else {
            LearningLanguage::Chinese
        }
    }
}

/// `(idx + delta) mod 3`, rounding towards negative infinity as
/// `isize::rem_euclid` does.
pub fn wrap3(idx: u8, delta: isize) -> (r: u8)
    requires
        idx < 3,
    ensures
        r as int == (idx + delta) % 3,
        r < 3,
{
    let t: i128 = idx as i128 + delta as i128;
    let next: u128 = if t >= 0 {
        (t as u128) % 3
    } else {
        let a: u128 = ((0 - t) as u128) % 3;
        if a == 0 {
            0
        } else {
            3 - a
        }
    };
    proof {
        let ti = idx as int + delta as int;
        if ti < 0 {
            let a = (-ti) % 3;
            assert(ti % 3 == if a == 0 { 0 } else { 3 - a }) by (nonlinear_arith)
                requires
                    ti < 0,
                    a == (-ti) % 3,
            ;
        }
    }
    next as u8
}

/// The language a new profile starts with.
pub fn default_learning_language() -> (r: LearningLanguage)
    ensures
        r == LearningLanguage::English,
{
    LearningLanguage::English
}

/// Stepping forward and then back by the same amount returns to the start.
pub proof fn law_rotate_round_trip(l: LearningLanguage, delta: int)
    ensures
        rotated(rotated(l, delta), -delta) == l,
{
    let i = language_index(l);
    let j = (i + delta) % 3;
    assert(language_index(language_at(j)) == j);
    assert((j - delta) % 3 == i) by (nonlinear_arith)
        requires
            j == (i + delta) % 3,
            0 <= i < 3,
    ;
}

/// Three steps in either direction lead back to the same language.
pub proof fn law_rotate_full_cycle(l: LearningLanguage)
    ensures
        rotated(l, 3) == l,
        rotated(l, -3) == l,
        rotated(l, 0) == l,
{
}

pub fn is_japanese_char(ch: char) -> (r: bool)
    ensures
        r == is_japanese(ch),
{
    let u = ch as u32;
    (0x3040 <= u && u <= 0x309F) || (0x30A0 <= u && u <= 0x30FF) || (0x31F0 <= u && u <= 0x31FF)
        || (0x3400 <= u && u <= 0x4DBF) || (0x4E00 <= u && u <= 0x9FFF) || (0xF900 <= u && u
        <= 0xFAFF)
}

pub fn is_chinese_char(ch: char) -> (r: bool)
    ensures
        r == is_han(ch),
{
    let u = ch as u32;
    (0x3400 <= u && u <= 0x4DBF) || (0x4E00 <= u && u <= 0x9FFF) || (0xF900 <= u && u <= 0xFAFF)
}

fn is_kana_char(ch: char) -> (r: bool)
    ensures
        r == is_kana(ch),
{
    let u = ch as u32;
    (0x3040 <= u && u <= 0x309F) || (0x30A0 <= u && u <= 0x30FF) || (0x31F0 <= u && u <= 0x31FF)
}

/// Whether `term` is one word of `language`.
pub fn is_single_word_term(term: &str, language: LearningLanguage) -> (r: bool)
    ensures
        r == single_word(term@, language),
{
    let all = chars_of(term);
    let (start, end) = trim_bounds(&all);
    let ghost t = trim(term@);
    if start == end {
        return false;
    }
    let mut has_space = false;
    let mut all_english = true;
    let mut has_japanese = false;
    let mut has_han = false;
    let mut has_alpha = false;
    let mut has_kana = false;
    let mut i = start;
    while i < end
        invariant
            all@ == term@,
            start <= i <= end <= all.len(),
            t == all@.subrange(start as int, end as int),
            has_space == exists|k: int| start <= k < i && is_ws(#[trigger] all@[k]),
            all_english == forall|k: int|
                start <= k < i ==> #[trigger] is_ascii_alpha(all@[k]) || all@[k] == '-' || all@[k]
                    == '\'',
            has_japanese == exists|k: int| start <= k < i && is_japanese(#[trigger] all@[k]),
            has_han == exists|k: int| start <= k < i && is_han(#[trigger] all@[k]),
            has_alpha == exists|k: int| start <= k < i && is_ascii_alpha(#[trigger] all@[k]),
            has_kana == exists|k: int| start <= k < i && is_kana(#[trigger] all@[k]),
        decreases end - i,
    {
        let c = all[i];
        if is_whitespace_char(c) {
            has_space = true;
        }
        if !(is_ascii_alphabetic_char(c) || c == '-' || c == '\'') {
            all_english = false;
        }
        if is_japanese_char(c) {
            has_japanese = true;
        }
        if is_chinese_char(c) {
            has_han = true;
        }
        if is_ascii_alphabetic_char(c) {
            has_alpha = true;
        }
        if is_kana_char(c) {
            has_kana = true;
        }
        i = i + 1;
    }
    proof {
        let off = start as int;
        assert(has_space == any_ws(t)) by {
            if has_space {
                let k = choose|k: int| start <= k < end && is_ws(#[trigger] all@[k]);
                assert(t[k - off] == all@[k]);
            }
            if any_ws(t) {
                let k = choose|k: int| 0 <= k < t.len() && #[trigger] is_ws(t[k]);
                assert(all@[k + off] == t[k]);
            }
        }
        assert(has_japanese == any_japanese(t)) by {
            if has_japanese {
                let k = choose|k: int| start <= k < end && is_japanese(#[trigger] all@[k]);
                assert(t[k - off] == all@[k]);
            }
            if any_japanese(t) {
                let k = choose|k: int| 0 <= k < t.len() && #[trigger] is_japanese(t[k]);
                assert(all@[k + off] == t[k]);
            }
        }
        assert(has_han == any_han(t)) by {
            if has_han {
                let k = choose|k: int| start <= k < end && is_han(#[trigger] all@[k]);
                assert(t[k - off] == all@[k]);
            }
            if any_han(t) {
                let k = choose|k: int| 0 <= k < t.len() && #[trigger] is_han(t[k]);
                assert(all@[k + off] == t[k]);
            }
        }
        assert(has_alpha == any_ascii_alpha(t)) by {
            if has_alpha {
                let k = choose|k: int| start <= k < end && is_ascii_alpha(#[trigger] all@[k]);
                assert(t[k - off] == all@[k]);
            }
            if any_ascii_alpha(t) {
                let k = choose|k: int| 0 <= k < t.len() && #[trigger] is_ascii_alpha(t[k]);
                assert(all@[k + off] == t[k]);
            }
        }
        assert(has_kana == any_kana(t)) by {
            if has_kana {
                let k = choose|k: int| start <= k < end && is_kana(#[trigger] all@[k]);
                assert(t[k - off] == all@[k]);
            }
            if any_kana(t) {
                let k = choose|k: int| 0 <= k < t.len() && #[trigger] is_kana(t[k]);
                assert(all@[k + off] == t[k]);
            }
        }
        assert(all_english == forall|k: int|
            0 <= k < t.len() ==> #[trigger] is_ascii_alpha(t[k]) || t[k] == '-' || t[k] == '\'') by {
            if all_english {
                assert forall|k: int| 0 <= k < t.len() implies #[trigger] is_ascii_alpha(t[k]) || t[k]
                    == '-' || t[k] == '\'' by {
                    assert(all@[k + off] == t[k]);
                }
            } else {
                let k = choose|k: int|
                    start <= k < end && !(#[trigger] is_ascii_alpha(all@[k]) || all@[k] == '-'
                        || all@[k] == '\'');
                assert(t[k - off] == all@[k]);
            }
        }
    }
    if has_space {
        return false;
    }
    match language {
        LearningLanguage::English => all_english,
        LearningLanguage::Japanese => has_japanese && !has_alpha,
        LearningLanguage::Chinese => has_han && !has_alpha && !has_kana,
    }
}

/// The difficulty band that a language skill score falls in.
pub fn language_skill_band(language_skill: u32) -> (r: &'static str)
    ensures
        r@ == skill_band_text(language_skill),
{
    if language_skill <= 2 {
        "beginner"
    } else if language_skill <= 6 {
        "elementary"
    } else if language_skill <= 11 {
        "intermediate"
    } else {
        "advanced"
    }
}

/// The difficulty band that an app level falls in.
pub fn app_level_band(level: u32) -> (r: &'static str)
    ensures
        r@ == level_band_text(level),
{
    if 1 <= level && level <= 3 {
        "beginner"
    } else if 4 <= level && level <= 7 {
        "intermediate"
    } else {
        "advanced"
    }
}

} // verus!
