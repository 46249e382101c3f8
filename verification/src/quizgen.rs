//! Building a quiz from a topic's words. The kinds of questions and the
//! order of options and questions are drawn at random; the contracts say
//! what holds of every draw.

use vstd::prelude::*;
use crate::language::LearningLanguage;
use crate::model::WordItem;
use crate::order::{has_text, strictly_sorted};
use crate::quiz::{other_meaning, other_term, unique_meanings, unique_terms, QuizAnswer, QuizQuestion, QuizType};
use crate::text::{concat2, concat3, mask_term, masked, trim, trimmed};
use rand::rngs::ThreadRng;
use rand::seq::SliceRandom;
use rand::Rng;

verus! {

#[verifier::external_type_specification]
#[verifier::external_body]
pub struct ExThreadRng(rand::rngs::ThreadRng);

/// The thread-local generator, by `rand::rng`. Nothing is claimed of it.
#[verifier::external_body]
fn thread_rng() -> ThreadRng {
    rand::rng()
}

/// A number drawn by `Rng::random_range` from `0..bound`. Claimed: it lies
/// in that range (the source asserts the range is non-empty, hence the
/// `requires`). Which number comes is left open.
#[verifier::external_body]
fn random_below(rng: &mut ThreadRng, bound: u32) -> (r: u32)
    requires
        bound > 0,
    ensures
        r < bound,
{
    rng.random_range(0..bound)
}

/// Reorders `v` by `SliceRandom::shuffle`. Claimed: the result holds the
/// same elements, each as often as before (the source only swaps elements).
/// Which order comes is left open.
#[verifier::external_body]
fn shuffle<T>(v: &mut Vec<T>, rng: &mut ThreadRng)
    ensures
        final(v)@.to_multiset() == old(v)@.to_multiset(),
{
    v.as_mut_slice().shuffle(rng)
}

/// Learners of Japanese and Chinese get no spelling questions.
pub open spec fn type_allowed(language: LearningLanguage, quiz_type: QuizType) -> bool {
    language == LearningLanguage::English || quiz_type != QuizType::SpellingWrite
}

pub open spec fn meaning_prompt(term: Seq<char>) -> Seq<char> {
    "'"@ + term + "'의 한국어 뜻을 고르세요"@
}

pub open spec fn fill_blank_prompt(word: WordItem) -> Seq<char> {
    "빈칸에 들어갈 단어를 고르세요\n한국어 뜻: "@ + word.meaning_ko@ + "\n철자 힌트: "@ + masked(word.term@)
}

pub open spec fn spelling_prompt(word: WordItem) -> Seq<char> {
    "뜻을 보고 단어를 직접 입력하세요\n한국어 뜻: "@ + word.meaning_ko@
}

/// `pool` lists, sorted and once each, the meanings of the other words whose
/// trimmed text differs from the trimmed meaning of word `index`.
pub open spec fn meaning_pool(pool: Seq<String>, words: Seq<WordItem>, index: int) -> bool {
    let own = trim(words[index].meaning_ko@);
    &&& strictly_sorted(pool)
    &&& forall|k: int|
        0 <= k < pool.len() ==> other_meaning(words, index, #[trigger] pool[k]@) && trim(pool[k]@) != own
    &&& forall|j: int|
        0 <= j < words.len() && j != index && trim(words[j].meaning_ko@) != own ==> has_text(
            pool,
            #[trigger] words[j].meaning_ko@,
        )
}

/// `pool` lists, sorted and once each, the terms of the other words.
pub open spec fn term_pool(pool: Seq<String>, words: Seq<WordItem>, index: int) -> bool {
    &&& strictly_sorted(pool)
    &&& forall|k: int| 0 <= k < pool.len() ==> other_term(words, index, #[trigger] pool[k]@)
    &&& forall|j: int| 0 <= j < words.len() && j != index ==> has_text(pool, #[trigger] words[j].term@)
}

pub open spec fn min3(n: nat) -> nat {
    if n < 3 { n } else { 3 }
}

/// `options` are `correct` and the first three (or fewer) of some
/// reordering of `pool`, in some order.
pub open spec fn options_drawn(options: Seq<String>, correct: String, pool: Seq<String>) -> bool {
    exists|shuffled: Seq<String>|
        #![trigger shuffled.to_multiset()]
        shuffled.to_multiset() == pool.to_multiset() && options.to_multiset() == seq![correct].add(
            shuffled.take(min3(pool.len()) as int),
        ).to_multiset()
}

/// `k` is the first position holding the text `t`, or 0 when none does.
pub open spec fn answer_position(options: Seq<String>, t: Seq<char>, k: int) -> bool {
    if exists|j: int| 0 <= j < options.len() && #[trigger] options[j]@ == t {
        &&& 0 <= k < options.len()
        &&& options[k]@ == t
        &&& forall|j: int| 0 <= j < k ==> #[trigger] options[j]@ != t
    } else {
        k == 0
    }
}

/// `q` is a question of an allowed kind about word `index`, built as that
/// kind prescribes.
pub open spec fn question_for(
    words: Seq<WordItem>,
    index: int,
    language: LearningLanguage,
    q: QuizQuestion,
) -> bool {
    let w = words[index];
    &&& type_allowed(language, q.quiz_type)
    &&& q.target@ == w.term@
    &&& match q.quiz_type {
        QuizType::MeaningChoice => {
            &&& q.prompt@ == meaning_prompt(w.term@)
            &&& exists|pool: Seq<String>|
                #[trigger] meaning_pool(pool, words, index) && options_drawn(q.options@, w.meaning_ko, pool)
            &&& q.answer is Choice
            &&& answer_position(q.options@, w.meaning_ko@, q.answer->Choice_0 as int)
        },
        QuizType::FillBlankChoice => {
            &&& q.prompt@ == fill_blank_prompt(w)
            &&& exists|pool: Seq<String>|
                #[trigger] term_pool(pool, words, index) && options_drawn(q.options@, w.term, pool)
            &&& q.answer is Choice
            &&& answer_position(q.options@, w.term@, q.answer->Choice_0 as int)
        },
        QuizType::SpellingWrite => {
            &&& q.prompt@ == spelling_prompt(w)
            &&& q.options@.len() == 0
            &&& q.answer matches QuizAnswer::Text(t) && t@ == w.term@
        },
    }
}

/// A quiz over `words`: one question per word, in some order.
pub open spec fn quiz_for(words: Seq<WordItem>, language: LearningLanguage, quiz: Seq<QuizQuestion>) -> bool {
    exists|qs: Seq<QuizQuestion>|
        #![trigger qs.to_multiset()]
        qs.len() == words.len() && quiz.to_multiset() == qs.to_multiset() && forall|i: int|
            0 <= i < words.len() ==> question_for(words, i, language, #[trigger] qs[i])
}

/// The text a choice question about word `index` expects: the meaning for
/// a meaning question, the term otherwise.
pub open spec fn expected_choice(words: Seq<WordItem>, index: int, quiz_type: QuizType) -> String {
    if quiz_type == QuizType::MeaningChoice {
        words[index].meaning_ko
    } else {
        words[index].term
    }
}

/// `options`, drawn from `correct` and a pool, hold `correct` and one to
/// four texts in all.
proof fn lemma_drawn_options(options: Seq<String>, correct: String, pool: Seq<String>)
    requires
        options_drawn(options, correct, pool),
    ensures
        options.contains(correct),
        1 <= options.len() <= 4,
{
    let shuffled = choose|shuffled: Seq<String>|
        #![trigger shuffled.to_multiset()]
        shuffled.to_multiset() == pool.to_multiset() && options.to_multiset() == seq![correct].add(
            shuffled.take(min3(pool.len()) as int),
        ).to_multiset();
    vstd::seq_lib::to_multiset_len(shuffled);
    vstd::seq_lib::to_multiset_len(pool);
    let both = seq![correct].add(shuffled.take(min3(pool.len()) as int));
    assert(both[0] == correct);
    assert(both.contains(correct));
    vstd::seq_lib::to_multiset_contains(both, correct);
    vstd::seq_lib::to_multiset_contains(options, correct);
    vstd::seq_lib::to_multiset_len(both);
    vstd::seq_lib::to_multiset_len(options);
}

/// In every choice question the marked answer is the expected text (the
/// meaning for a meaning question, the term for a fill-in question), and
/// between one and four options are offered.
pub proof fn law_choice_answer_is_right(
    words: Seq<WordItem>,
    index: int,
    language: LearningLanguage,
    q: QuizQuestion,
)
    requires
        0 <= index < words.len(),
        question_for(words, index, language, q),
        q.answer is Choice,
    ensures
        1 <= q.options@.len() <= 4,
        0 <= q.answer->Choice_0 < q.options@.len(),
        q.options@[q.answer->Choice_0 as int]@ == expected_choice(words, index, q.quiz_type)@,
{
    let correct = expected_choice(words, index, q.quiz_type);
    if q.quiz_type == QuizType::MeaningChoice {
        let pool = choose|pool: Seq<String>|
            #[trigger] meaning_pool(pool, words, index) && options_drawn(q.options@, words[index].meaning_ko, pool);
        lemma_drawn_options(q.options@, correct, pool);
    } else {
        let pool = choose|pool: Seq<String>|
            #[trigger] term_pool(pool, words, index) && options_drawn(q.options@, words[index].term, pool);
        lemma_drawn_options(q.options@, correct, pool);
    }
    let j = choose|j: int| 0 <= j < q.options@.len() && q.options@[j] == correct;
    assert(q.options@[j]@ == correct@);
}

/// The first position of `t` among `options`, or 0.
fn position_of(options: &Vec<String>, t: &String) -> (k: usize)
    ensures
        answer_position(options@, t@, k as int),
{
    let mut j: usize = 0;
    while j < options.len()
        invariant
            j <= options.len(),
            forall|m: int| 0 <= m < j ==> #[trigger] options@[m]@ != t@,
        decreases options.len() - j,
    {
        if options[j] == *t {
            return j;
        }
        j = j + 1;
    }
    0
}

/// `correct` and up to three of `pool`, after reordering both the pool and
/// the result.
fn draw_options(correct: &String, pool: Vec<String>, rng: &mut ThreadRng) -> (r: Vec<String>)
    ensures
        options_drawn(r@, *correct, pool@),
{
    let ghost given = pool@;
    let mut wrong = pool;
    shuffle(&mut wrong, rng);
    let take = if wrong.len() < 3 { wrong.len() } else { 3 };
    let mut options: Vec<String> = Vec::new();
    options.push(correct.clone());
    let mut j: usize = 0;
    while j < take
        invariant
            take == min3(wrong@.len()),
            take <= wrong@.len(),
            j <= take,
            options@ == seq![*correct].add(wrong@.take(j as int)),
        decreases take - j,
    {
        options.push(wrong[j].clone());
        assert(wrong@.take(j + 1) =~= wrong@.take(j as int).push(wrong@[j as int]));
        assert(seq![*correct].add(wrong@.take(j + 1)) =~= seq![*correct].add(wrong@.take(j as int)).push(wrong@[j as int]));
        j = j + 1;
    }
    let ghost before = options@;
    shuffle(&mut options, rng);
    proof {
        vstd::seq_lib::to_multiset_len(given);
        vstd::seq_lib::to_multiset_len(wrong@);
        assert(wrong@.len() == given.len());
        assert(wrong@.to_multiset() == given.to_multiset());
    }
    options
}

/// The texts of `items` whose trimmed text differs from `own`, in order.
fn keep_other_meanings(items: Vec<String>, own: &String) -> (r: Vec<String>)
    requires
        strictly_sorted(items@),
    ensures
        strictly_sorted(r@),
        forall|k: int|
            0 <= k < r@.len() ==> has_text(items@, #[trigger] r@[k]@) && trim(r@[k]@) != trim(own@),
        forall|j: int|
            0 <= j < items@.len() && trim(items@[j]@) != trim(own@) ==> has_text(r@, #[trigger] items@[j]@),
{
    let own_trimmed = trimmed(own.as_str());
    let mut out: Vec<String> = Vec::new();
    let mut i: usize = 0;
    while i < items.len()
        invariant
            i <= items.len(),
            strictly_sorted(items@),
            own_trimmed@ == trim(own@),
            strictly_sorted(out@),
            forall|k: int|
                #![trigger out@[k]]
                0 <= k < out@.len() ==> exists|j: int| 0 <= j < i && #[trigger] items@[j] == out@[k],
            forall|k: int|
                0 <= k < out@.len() ==> has_text(items@, #[trigger] out@[k]@) && trim(out@[k]@) != trim(own@),
            forall|j: int|
                0 <= j < i && trim(items@[j]@) != trim(own@) ==> has_text(out@, #[trigger] items@[j]@),
        decreases items.len() - i,
    {
        let t = trimmed(items[i].as_str());
        if t != own_trimmed {
            let ghost prev = out@;
            out.push(items[i].clone());
            proof {
                assert forall|a: int, b: int| 0 <= a < b < out@.len() implies crate::order::text_lt(
                    #[trigger] out@[a]@,
                    #[trigger] out@[b]@,
                ) by {
                    if b == prev.len() {
                        let j = choose|j: int| 0 <= j < i && #[trigger] items@[j] == out@[a];
                        assert(items@[j]@ == out@[a]@);
                    } else {
                        assert(out@[a] == prev[a]);
                        assert(out@[b] == prev[b]);
                    }
                }
                assert forall|k: int| #![trigger out@[k]] 0 <= k < out@.len() implies exists|j: int|
                    0 <= j < i + 1 && #[trigger] items@[j] == out@[k] by {
                    if k < prev.len() {
                        assert(out@[k] == prev[k]);
                        let j = choose|j: int| 0 <= j < i && #[trigger] items@[j] == prev[k];
                        assert(items@[j] == out@[k]);
                    } else {
                        assert(items@[i as int] == out@[k]);
                    }
                }
                assert forall|k: int| 0 <= k < out@.len() implies has_text(items@, #[trigger] out@[k]@)
                    && trim(out@[k]@) != trim(own@) by {
                    if k < prev.len() {
                        assert(out@[k] == prev[k]);
                    } else {
                        assert(items@[i as int]@ == out@[k]@);
                    }
                }
                assert forall|j: int| 0 <= j < i + 1 && trim(items@[j]@) != trim(own@) implies has_text(
                    out@,
                    #[trigger] items@[j]@,
                ) by {
                    if j < i {
                        let k = choose|k: int| 0 <= k < prev.len() && #[trigger] prev[k]@ == items@[j]@;
                        assert(out@[k] == prev[k]);
                    } else {
                        assert(out@[prev.len() as int] == items@[i as int]);
                    }
                }
            }
        }
        i = i + 1;
    }
    out
}

/// A question asking for the meaning of word `index`.
fn meaning_question(words: &[WordItem], index: usize, rng: &mut ThreadRng) -> (q: QuizQuestion)
    requires
        index < words@.len(),
    ensures
        q.quiz_type == QuizType::MeaningChoice,
        question_for(words@, index as int, LearningLanguage::English, q),
        forall|l: LearningLanguage| question_for(words@, index as int, l, q),
{
    let word = &words[index];
    let all = unique_meanings(words, index);
    let pool = keep_other_meanings(all, &word.meaning_ko);
    proof {
        let own = trim(words@[index as int].meaning_ko@);
        assert forall|k: int| 0 <= k < pool@.len() implies other_meaning(words@, index as int, #[trigger] pool@[k]@)
            && trim(pool@[k]@) != own by {
            let m = choose|m: int| 0 <= m < all@.len() && #[trigger] all@[m]@ == pool@[k]@;
            assert(other_meaning(words@, index as int, all@[m]@));
        }
        assert forall|j: int|
            0 <= j < words@.len() && j != index && trim(words@[j].meaning_ko@) != own implies has_text(
            pool@,
            #[trigger] words@[j].meaning_ko@,
        ) by {
            let m = choose|m: int| 0 <= m < all@.len() && #[trigger] all@[m]@ == words@[j].meaning_ko@;
            assert(has_text(pool@, all@[m]@));
        }
        assert(meaning_pool(pool@, words@, index as int));
    }
    let ghost pool_view = pool@;
    let options = draw_options(&word.meaning_ko, pool, rng);
    let answer_index = position_of(&options, &word.meaning_ko);
    let prompt = concat3("'", word.term.as_str(), "'의 한국어 뜻을 고르세요");
    let q = QuizQuestion {
        quiz_type: QuizType::MeaningChoice,
        target: word.term.clone(),
        prompt,
        options,
        answer: QuizAnswer::Choice(answer_index),
    };
    proof {
        assert(meaning_pool(pool_view, words@, index as int) && options_drawn(q.options@, words@[index as int].meaning_ko, pool_view));
    }
    q
}

/// A question asking which term fills the blank for word `index`.
fn fill_blank_question(words: &[WordItem], index: usize, rng: &mut ThreadRng) -> (q: QuizQuestion)
    requires
        index < words@.len(),
    ensures
        q.quiz_type == QuizType::FillBlankChoice,
        forall|l: LearningLanguage| question_for(words@, index as int, l, q),
{
    let word = &words[index];
    let pool = unique_terms(words, index);
    assert(term_pool(pool@, words@, index as int));
    let ghost pool_view = pool@;
    let options = draw_options(&word.term, pool, rng);
    let answer_index = position_of(&options, &word.term);
    let hint = mask_term(word.term.as_str());
    let head = concat2("빈칸에 들어갈 단어를 고르세요\n한국어 뜻: ", word.meaning_ko.as_str());
    let prompt = concat3(head.as_str(), "\n철자 힌트: ", hint.as_str());
    let q = QuizQuestion {
        quiz_type: QuizType::FillBlankChoice,
        target: word.term.clone(),
        prompt,
        options,
        answer: QuizAnswer::Choice(answer_index),
    };
    proof {
        assert(term_pool(pool_view, words@, index as int) && options_drawn(q.options@, words@[index as int].term, pool_view));
    }
    q
}

/// A question asking to type the term of word `index`.
fn spelling_question(words: &[WordItem], index: usize) -> (q: QuizQuestion)
    requires
        index < words@.len(),
    ensures
        q.quiz_type == QuizType::SpellingWrite,
        question_for(words@, index as int, LearningLanguage::English, q),
{
    let word = &words[index];
    let prompt = concat2("뜻을 보고 단어를 직접 입력하세요\n한국어 뜻: ", word.meaning_ko.as_str());
    QuizQuestion {
        quiz_type: QuizType::SpellingWrite,
        target: word.term.clone(),
        prompt,
        options: Vec::new(),
        answer: QuizAnswer::Text(word.term.clone()),
    }
}

/// How many kinds of question a learner of `language` can get: three for
/// English, two otherwise.
pub fn quiz_type_count(language: LearningLanguage) -> (r: u32)
    ensures
        r == (if language == LearningLanguage::English { 3u32 } else { 2u32 }),
{
    if language == LearningLanguage::English {
        3
    } else {
        2
    }
}

/// The kind of question a draw of `draw` gives: 0 asks for the meaning, 1
/// for the missing word, and anything higher for the spelling, which only
/// English learners get (the others get the missing word instead).
pub fn quiz_type_for_draw(language: LearningLanguage, draw: u32) -> (r: QuizType)
    ensures
        type_allowed(language, r),
        r == (if draw == 0 {
            QuizType::MeaningChoice
        } else if draw == 1 || language != LearningLanguage::English {
            QuizType::FillBlankChoice
        } else {
            QuizType::SpellingWrite
        }),
{
    if draw == 0 {
        QuizType::MeaningChoice
    } else if draw == 1 || language != LearningLanguage::English {
        QuizType::FillBlankChoice
    } else {
        QuizType::SpellingWrite
    }
}

/// One question per word, each of a randomly drawn kind allowed for the
/// language, in a random order.
pub fn build_quiz_questions(words: &[WordItem], learning_language: LearningLanguage) -> (r: Vec<QuizQuestion>)
    ensures
        quiz_for(words@, learning_language, r@),
{
    let mut rng = thread_rng();
    let mut questions: Vec<QuizQuestion> = Vec::new();
    let mut index: usize = 0;
    while index < words.len()
        invariant
            index <= words@.len(),
            questions@.len() == index,
            forall|i: int| 0 <= i < index ==> question_for(words@, i, learning_language, #[trigger] questions@[i]),
        decreases words@.len() - index,
    {
        let kinds = quiz_type_count(learning_language);
        let draw = random_below(&mut rng, kinds);
        let question_type = quiz_type_for_draw(learning_language, draw);
        let question = match question_type {
            QuizType::MeaningChoice => meaning_question(words, index, &mut rng),
            QuizType::FillBlankChoice => fill_blank_question(words, index, &mut rng),
            QuizType::SpellingWrite => spelling_question(words, index),
        };
        questions.push(question);
        index = index + 1;
    }
    let ghost built = questions@;
    shuffle(&mut questions, &mut rng);
    assert(built.len() == words@.len() && questions@.to_multiset() == built.to_multiset()
        && forall|i: int| 0 <= i < words@.len() ==> question_for(words@, i, learning_language, #[trigger] built[i]));
    questions
}

} // verus!
