//! Quiz questions: their kinds, answers, grading, and the candidate wrong
//! options drawn from a topic's other words.

use vstd::prelude::*;
use crate::model::WordItem;
use crate::order::{has_text, sorted_unique, strictly_sorted};
use crate::text::{eq_ignore_ascii, eq_ignore_ascii_case, trim, trimmed};

verus! {

#[derive(Clone, Copy, PartialEq, Eq, Debug, Structural)]
pub enum QuizType {
    MeaningChoice,
    FillBlankChoice,
    SpellingWrite,
}

/// The expected answer: an option's position, or a text to type.
#[derive(Clone, Debug)]
pub enum QuizAnswer {
    Choice(usize),
    Text(String),
}

#[derive(Clone, Debug)]
pub struct QuizQuestion {
    pub quiz_type: QuizType,
    pub target: String,
    pub prompt: String,
    pub options: Vec<String>,
    pub answer: QuizAnswer,
}

/// How one question was answered.
#[derive(Clone, Debug)]
pub struct QuizReviewItem {
    pub label: String,
    pub user_answer: String,
    pub correct_answer: String,
    pub is_correct: bool,
}

pub open spec fn quiz_type_text(quiz_type: QuizType) -> Seq<char> {
    match quiz_type {
        QuizType::MeaningChoice => "뜻 맞추기"@,
        QuizType::FillBlankChoice => "빈칸 채우기"@,
        QuizType::SpellingWrite => "철자 입력"@,
    }
}

/// A typed answer is right when, trimmed, it equals the trimmed answer up to
/// ASCII case.
pub open spec fn typed_answer_matches(input: Seq<char>, answer: Seq<char>) -> bool {
    eq_ignore_ascii(trim(input), trim(answer))
}

/// The term of some word other than the one at `exclude_index` reads `t`.
pub open spec fn other_term(words: Seq<WordItem>, exclude_index: int, t: Seq<char>) -> bool {
    exists|i: int| 0 <= i < words.len() && i != exclude_index && #[trigger] words[i].term@ == t
}

/// The meaning of some word other than the one at `exclude_index` reads `t`.
pub open spec fn other_meaning(words: Seq<WordItem>, exclude_index: int, t: Seq<char>) -> bool {
    exists|i: int| 0 <= i < words.len() && i != exclude_index && #[trigger] words[i].meaning_ko@ == t
}

/// The name shown for a kind of question.
pub fn quiz_type_label(quiz_type: QuizType) -> (r: &'static str)
    ensures
        r@ == quiz_type_text(quiz_type),
{
    match quiz_type {
        QuizType::MeaningChoice => "뜻 맞추기",
        QuizType::FillBlankChoice => "빈칸 채우기",
        QuizType::SpellingWrite => "철자 입력",
    }
}

/// Whether a typed answer counts as right.
pub fn is_case_flexible_exact_match(input: &str, answer: &str) -> (r: bool)
    ensures
        r == typed_answer_matches(input@, answer@),
{
    let a = trimmed(input);
    let b = trimmed(answer);
    eq_ignore_ascii_case(a.as_str(), b.as_str())
}

/// Grading a typed answer does not depend on which side is the answer.
pub proof fn law_typed_match_symmetric(a: Seq<char>, b: Seq<char>)
    ensures
        typed_answer_matches(a, b) == typed_answer_matches(b, a),
{
}

/// The terms of all words but the one at `exclude_index`, each once, in
/// increasing order.
pub fn unique_terms(words: &[WordItem], exclude_index: usize) -> (r: Vec<String>)
    ensures
        strictly_sorted(r@),
        forall|k: int| 0 <= k < r@.len() ==> other_term(words@, exclude_index as int, #[trigger] r@[k]@),
        forall|i: int|
            0 <= i < words@.len() && i != exclude_index ==> has_text(r@, #[trigger] words@[i].term@),
{
    let mut items: Vec<String> = Vec::new();
    let mut idx: usize = 0;
    while idx < words.len()
        invariant
            idx <= words@.len(),
            forall|k: int| 0 <= k < items@.len() ==> other_term(words@, exclude_index as int, #[trigger] items@[k]@),
            forall|i: int|
                0 <= i < idx && i != exclude_index ==> has_text(items@, #[trigger] words@[i].term@),
        decreases words@.len() - idx,
    {
        if idx != exclude_index {
            let ghost prev = items@;
            items.push(words[idx].term.clone());
            proof {
                assert(items@[prev.len() as int]@ == words@[idx as int].term@);
                assert forall|i: int|
                    0 <= i < idx + 1 && i != exclude_index implies has_text(items@, #[trigger] words@[i].term@) by {
                    if i < idx {
                        let k = choose|k: int| 0 <= k < prev.len() && #[trigger] prev[k]@ == words@[i].term@;
                        assert(items@[k] == prev[k]);
                    } else {
                        assert(items@[prev.len() as int]@ == words@[i].term@);
                    }
                }
                assert forall|k: int| 0 <= k < items@.len() implies other_term(words@, exclude_index as int, #[trigger] items@[k]@) by {
                    if k < prev.len() {
                        assert(items@[k] == prev[k]);
                    } else {
                        assert(words@[idx as int].term@ == items@[k]@);
                    }
                }
            }
        }
        idx = idx + 1;
    }
    let r = sorted_unique(items);
    proof {
        assert forall|k: int| 0 <= k < r@.len() implies other_term(words@, exclude_index as int, #[trigger] r@[k]@) by {
            let m = choose|m: int| 0 <= m < items@.len() && #[trigger] items@[m]@ == r@[k]@;
            assert(other_term(words@, exclude_index as int, items@[m]@));
        }
        assert forall|i: int| 0 <= i < words@.len() && i != exclude_index implies has_text(r@, #[trigger] words@[i].term@) by {
            let m = choose|m: int| 0 <= m < items@.len() && #[trigger] items@[m]@ == words@[i].term@;
            assert(has_text(r@, items@[m]@));
        }
    }
    r
}

/// The meanings of all words but the one at `exclude_index`, each once, in
/// increasing order.
pub fn unique_meanings(words: &[WordItem], exclude_index: usize) -> (r: Vec<String>)
    ensures
        strictly_sorted(r@),
        forall|k: int| 0 <= k < r@.len() ==> other_meaning(words@, exclude_index as int, #[trigger] r@[k]@),
        forall|i: int|
            0 <= i < words@.len() && i != exclude_index ==> has_text(r@, #[trigger] words@[i].meaning_ko@),
{
    let mut items: Vec<String> = Vec::new();
    let mut idx: usize = 0;
    while idx < words.len()
        invariant
            idx <= words@.len(),
            forall|k: int| 0 <= k < items@.len() ==> other_meaning(words@, exclude_index as int, #[trigger] items@[k]@),
            forall|i: int|
                0 <= i < idx && i != exclude_index ==> has_text(items@, #[trigger] words@[i].meaning_ko@),
        decreases words@.len() - idx,
    {
        if idx != exclude_index {
            let ghost prev = items@;
            items.push(words[idx].meaning_ko.clone());
            proof {
                assert(items@[prev.len() as int]@ == words@[idx as int].meaning_ko@);
                assert forall|i: int|
                    0 <= i < idx + 1 && i != exclude_index implies has_text(items@, #[trigger] words@[i].meaning_ko@) by {
                    if i < idx {
                        let k = choose|k: int| 0 <= k < prev.len() && #[trigger] prev[k]@ == words@[i].meaning_ko@;
                        assert(items@[k] == prev[k]);
                    } else {
                        assert(items@[prev.len() as int]@ == words@[i].meaning_ko@);
                    }
                }
                assert forall|k: int| 0 <= k < items@.len() implies other_meaning(words@, exclude_index as int, #[trigger] items@[k]@) by {
                    if k < prev.len() {
                        assert(items@[k] == prev[k]);
                    } else {
                        assert(words@[idx as int].meaning_ko@ == items@[k]@);
                    }
                }
            }
        }
        idx = idx + 1;
    }
    let r = sorted_unique(items);
    proof {
        assert forall|k: int| 0 <= k < r@.len() implies other_meaning(words@, exclude_index as int, #[trigger] r@[k]@) by {
            let m = choose|m: int| 0 <= m < items@.len() && #[trigger] items@[m]@ == r@[k]@;
            assert(other_meaning(words@, exclude_index as int, items@[m]@));
        }
        assert forall|i: int| 0 <= i < words@.len() && i != exclude_index implies has_text(r@, #[trigger] words@[i].meaning_ko@) by {
            let m = choose|m: int| 0 <= m < items@.len() && #[trigger] items@[m]@ == words@[i].meaning_ko@;
            assert(has_text(r@, items@[m]@));
        }
    }
    r
}

} // verus!
