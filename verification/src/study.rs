//! Studying and quizzing a topic: starting, answering, scoring, rewards, and
//! keeping new topics.

use vstd::prelude::*;
use crate::app::{flushed, progresses_sanitized, sat_add, save_callable, App, Screen};
use crate::language::display_name_ko_text;
use crate::model::{clone_words, LanguageProgress, TopicRecord, WordItem};
use crate::quiz::{
    is_case_flexible_exact_match, quiz_type_label, quiz_type_text, typed_answer_matches, QuizAnswer,
    QuizQuestion, QuizReviewItem,
};
use crate::quizgen::{build_quiz_questions, quiz_for};
use crate::text::{concat2, concat3, decimal, decimal_string, is_blank, owned, trim, trimmed};

verus! {

pub open spec fn study_message() -> Seq<char> {
    "Enter: 다음 단어, Q: 퀴즈 시작"@
}

pub open spec fn main_message() -> Seq<char> {
    "N: 새 주제 생성, S: 학습, Q: 시험, K: 설정 수정, Enter: 학습"@
}

pub open spec fn quiz_message() -> Seq<char> {
    "문제 유형이 랜덤으로 출제됩니다"@
}

/// `after` studies `words` from the first one.
pub open spec fn study_started(before: App, words: Vec<WordItem>, after: App) -> bool {
    &&& after == (App { words, study_index: 0, screen: Screen::Study, message: after.message, ..before })
    &&& after.message@ == study_message()
}

/// `after` runs a fresh quiz over the words of `before`.
pub open spec fn quiz_started(before: App, after: App) -> bool {
    &&& quiz_for(before.words@, before.learning_language, after.quiz_questions@)
    &&& after.quiz_reviews@.len() == 0
    &&& after.typed_answer@.len() == 0
    &&& after.message@ == quiz_message()
    &&& after == (App {
        quiz_questions: after.quiz_questions,
        quiz_reviews: after.quiz_reviews,
        quiz_index: 0,
        selected_option: 0,
        typed_answer: after.typed_answer,
        score: 0,
        screen: Screen::Quiz,
        message: after.message,
        ..before
    })
}

/// `after` is the main screen, with every history cleaned up and the
/// selection normalized.
pub open spec fn main_started(before: App, after: App) -> bool {
    exists|mid: App|
        #[trigger] progresses_sanitized(before, mid) && after == (App {
            screen: Screen::Main,
            message: after.message,
            ..mid.selection_normalized()
        }) && after.message@ == main_message()
}

/// The words of topic `index`, when it exists, become the words to study.
pub open spec fn topic_studied(before: App, index: usize, after: App) -> bool {
    if index < before.progress_now().topic_history@.len() {
        &&& after == (App {
            active_topic: Some(index),
            words: after.words,
            study_index: 0,
            screen: Screen::Study,
            message: after.message,
            ..before
        })
        &&& after.words@ == before.progress_now().topic_history@[index as int].words@
        &&& after.message@ == study_message()
    } else {
        after == before
    }
}

/// The words of topic `index`, when it exists, are quizzed.
pub open spec fn topic_quizzed(before: App, index: usize, after: App) -> bool {
    if index < before.progress_now().topic_history@.len() {
        exists|mid: App|
            #[trigger] quiz_started(mid, after) && mid == (App { active_topic: Some(index), words: mid.words, ..before })
                && mid.words@ == before.progress_now().topic_history@[index as int].words@
    } else {
        after == before
    }
}

/// A new topic, not yet studied.
pub open spec fn new_record(topic: String, words: Vec<WordItem>) -> TopicRecord {
    TopicRecord {
        topic,
        words,
        last_score: None,
        passed: false,
        skill_reward_stage: 0,
        study_completed_once: false,
    }
}

/// `after` has the new topic appended, selected, and saved when possible.
pub open spec fn topic_saved<F: Fn(&App) -> Result<(), String>>(
    save: &F,
    before: App,
    topic: String,
    words: Vec<WordItem>,
    after: App,
    r: Option<usize>,
) -> bool {
    let len = before.progress_now().topic_history@.len();
    exists|mid: App, ok: bool|
        #![trigger flushed(save, mid, after, ok)]
        mid == (App {
            pending_persist: true,
            ..before.with_progress(
                before.learning_language,
                LanguageProgress {
                    topic_history: mid.progress_now().topic_history,
                    selected_topic: len as usize,
                    ..before.progress_now()
                },
            )
        }) && mid.progress_now().topic_history@ == before.progress_now().topic_history@.push(
            new_record(topic, words),
        ) && flushed(save, mid, after, ok) && r == (if ok { Some(len as usize) } else { None })
}

/// XP for finishing the study of the words: 10, or 5 when the active topic
/// was studied to the end before.
pub open spec fn study_reward(before: App) -> u32 {
    match before.active_topic {
        Some(a) => if a < before.progress_now().topic_history@.len()
            && before.progress_now().topic_history@[a as int].study_completed_once {
            5
        } else {
            10
        },
        None => 10,
    }
}

/// `after` got the reward for studying the words to the end.
pub open spec fn study_rewarded(before: App, after: App) -> bool {
    &&& after.progress_now().topic_history@ == history_after_study(before)
    &&& after == (App {
        total_xp: sat_add(before.total_xp, study_reward(before)),
        pending_persist: true,
        ..before.with_progress(
            before.learning_language,
            LanguageProgress { topic_history: after.progress_now().topic_history, ..before.progress_now() },
        )
    })
}

/// The history after the active topic was studied to the end.
pub open spec fn history_after_study(before: App) -> Seq<TopicRecord> {
    let h = before.progress_now().topic_history@;
    match before.active_topic {
        Some(a) => if a < h.len() {
            h.update(a as int, TopicRecord { study_completed_once: true, ..h[a as int] })
        } else {
            h
        },
        None => h,
    }
}

pub open spec fn min2(stage: u8) -> u8 {
    if stage < 2 { stage } else { 2 }
}

/// The reward stage a score reaches: 2 for a perfect score, 1 for at least
/// 90 percent, else 0.
pub open spec fn target_stage(score: usize, total: usize) -> u8 {
    if score == total {
        2
    } else if score * 100 >= total * 90 {
        1
    } else {
        0
    }
}

/// The stage the active topic had reached (capped at 2; 0 when it is gone).
pub open spec fn current_stage(before: App, active: usize) -> u8 {
    let h = before.progress_now().topic_history@;
    if active < h.len() { min2(h[active as int].skill_reward_stage) } else { 0 }
}

/// Skill gained: the stages climbed beyond the ones already rewarded.
pub open spec fn skill_gain(before: App, active: usize) -> u8 {
    let t = target_stage(before.score, before.quiz_questions@.len() as usize);
    let c = current_stage(before, active);
    if t > c { (t - c) as u8 } else { 0 }
}

pub open spec fn finish_message(language_name: Seq<char>, gain: u8) -> Seq<char> {
    if gain > 0 {
        "복습 완료! +5 XP, "@ + language_name + " 실력 +"@ + decimal(gain as nat)
    } else {
        "복습 완료! +5 XP"@
    }
}

/// The state after grading a finished quiz, before saving: 5 XP, skill for
/// newly reached stages, and the active topic's score, pass mark and stage.
pub open spec fn quiz_graded(before: App, mid: App) -> bool {
    let total = before.quiz_questions@.len();
    match before.active_topic {
        Some(a) => if total > 0 {
            let score = before.score;
            let passed = score * 100 >= total * 90;
            let gain = skill_gain(before, a);
            let t = target_stage(score, total as usize);
            let p = before.progress_now();
            let h = p.topic_history@;
            let new_h = if a < h.len() {
                h.update(
                    a as int,
                    TopicRecord {
                        last_score: Some((score, total as usize)),
                        passed: h[a as int].passed || passed,
                        skill_reward_stage: if h[a as int].skill_reward_stage < t {
                            t
                        } else {
                            h[a as int].skill_reward_stage
                        },
                        ..h[a as int]
                    },
                )
            } else {
                h
            };
            &&& mid == (App {
                total_xp: sat_add(before.total_xp, 5),
                pending_persist: true,
                screen: Screen::Result,
                message: mid.message,
                ..before.with_progress(
                    before.learning_language,
                    LanguageProgress {
                        skill: sat_add(p.skill, gain as u32),
                        topic_history: mid.progress_now().topic_history,
                        ..p
                    },
                )
            })
            &&& mid.progress_now().topic_history@ == new_h
            &&& mid.message@ == finish_message(display_name_ko_text(before.learning_language), gain)
        } else {
            mid == (App { screen: Screen::Result, ..before })
        },
        None => mid == (App { screen: Screen::Result, ..before }),
    }
}

/// `after` shows the quiz result, graded and saved when possible.
pub open spec fn quiz_finished<F: Fn(&App) -> Result<(), String>>(save: &F, before: App, after: App) -> bool {
    exists|mid: App, ok: bool| #![trigger flushed(save, mid, after, ok)] quiz_graded(before, mid) && flushed(save, mid, after, ok)
}

/// The review text of the given answer to `q`.
pub open spec fn answer_texts(q: QuizQuestion, selected: usize, typed: Seq<char>, user: Seq<char>, correct: Seq<char>, is_correct: bool) -> bool {
    match q.answer {
        QuizAnswer::Choice(ai) => {
            &&& user == (if selected < q.options@.len() { q.options@[selected as int]@ } else { "(미선택)"@ })
            &&& correct == (if ai < q.options@.len() { q.options@[ai as int]@ } else { "(정답 없음)"@ })
            &&& is_correct == (selected == ai)
        },
        QuizAnswer::Text(t) => {
            &&& user == (if trim(typed).len() == 0 { "(미입력)"@ } else { trim(typed) })
            &&& correct == t@
            &&& is_correct == typed_answer_matches(typed, t@)
        },
    }
}

/// The state after the current question was answered, before a finished
/// quiz is graded.
pub open spec fn question_answered(before: App, mid: App) -> bool {
    let q = before.quiz_questions@[before.quiz_index as int];
    let review = mid.quiz_reviews@.last();
    &&& mid.quiz_reviews@.len() == before.quiz_reviews@.len() + 1
    &&& mid.quiz_reviews@.drop_last() == before.quiz_reviews@
    &&& review.label@ == quiz_type_text(q.quiz_type) + ": "@ + q.target@
    &&& answer_texts(q, before.selected_option, before.typed_answer@, review.user_answer@, review.correct_answer@, review.is_correct)
    &&& mid.typed_answer@.len() == 0
    &&& mid == (App {
        score: if review.is_correct { (before.score + 1) as usize } else { before.score },
        quiz_reviews: mid.quiz_reviews,
        quiz_index: (before.quiz_index + 1) as usize,
        selected_option: 0,
        typed_answer: mid.typed_answer,
        ..before
    })
}

/// Answering: nothing happens without a current question; otherwise the
/// answer is graded and recorded, and after the last question the quiz is
/// finished.
pub open spec fn answered<F: Fn(&App) -> Result<(), String>>(save: &F, before: App, after: App) -> bool {
    if before.quiz_index < before.quiz_questions@.len() {
        exists|mid: App|
            #[trigger] question_answered(before, mid) && if mid.quiz_index >= mid.quiz_questions@.len() {
                quiz_finished(save, mid, after)
            } else {
                after == mid
            }
    } else {
        after == before
    }
}

impl App {
    /// Shows `words` one at a time from the first.
    pub fn start_study(&mut self, words: Vec<WordItem>)
        ensures
            study_started(*old(self), words, *final(self)),
    {
        self.words = words;
        self.study_index = 0;
        self.screen = Screen::Study;
        self.message = owned("Enter: 다음 단어, Q: 퀴즈 시작");
    }

    /// Studies topic `index` of the current language, if it exists.
    pub fn start_study_for(&mut self, index: usize)
        ensures
            topic_studied(*old(self), index, *final(self)),
    {
        if index < self.current_progress().topic_history.len() {
            let words = clone_words(&self.current_progress().topic_history[index].words);
            self.active_topic = Some(index);
            self.start_study(words);
        }
    }

    /// Starts a quiz over the current words.
    pub fn start_quiz(&mut self)
        ensures
            quiz_started(*old(self), *final(self)),
    {
        self.quiz_questions = build_quiz_questions(self.words.as_slice(), self.learning_language);
        self.quiz_reviews.clear();
        self.quiz_index = 0;
        self.selected_option = 0;
        self.typed_answer = String::new();
        self.score = 0;
        self.screen = Screen::Quiz;
        self.message = owned("문제 유형이 랜덤으로 출제됩니다");
    }

    /// Quizzes topic `index` of the current language, if it exists.
    pub fn start_quiz_for(&mut self, index: usize)
        ensures
            topic_quizzed(*old(self), index, *final(self)),
    {
        if index < self.current_progress().topic_history.len() {
            let words = clone_words(&self.current_progress().topic_history[index].words);
            self.active_topic = Some(index);
            self.words = words;
            let ghost mid = *self;
            self.start_quiz();
            assert(quiz_started(mid, *self));
        }
    }

    /// The main screen, after cleaning up the histories.
    pub fn start_main(&mut self)
        ensures
            main_started(*old(self), *final(self)),
    {
        self.sanitize_all_progresses();
        let ghost mid = *self;
        self.normalize_selection();
        self.screen = Screen::Main;
        self.message = owned("N: 새 주제 생성, S: 학습, Q: 시험, K: 설정 수정, Enter: 학습");
        assert(progresses_sanitized(*old(self), mid));
    }

    /// The selected topic of the current language, if the selection is in
    /// bounds.
    pub fn selected_topic_record(&self) -> (r: Option<&TopicRecord>)
        ensures
            r is Some == (self.progress_now().selected_topic < self.progress_now().topic_history@.len()),
            r is Some ==> *r->0 == self.progress_now().topic_history@[self.progress_now().selected_topic as int],
    {
        let progress = self.current_progress();
        if progress.selected_topic < progress.topic_history.len() {
            Some(&progress.topic_history[progress.selected_topic])
        } else {
            None
        }
    }

    /// The question being asked, if any is left.
    pub fn current_quiz(&self) -> (r: Option<&QuizQuestion>)
        ensures
            r is Some == (self.quiz_index < self.quiz_questions@.len()),
            r is Some ==> *r->0 == self.quiz_questions@[self.quiz_index as int],
    {
        if self.quiz_index < self.quiz_questions.len() {
            Some(&self.quiz_questions[self.quiz_index])
        } else {
            None
        }
    }

    /// Appends a new topic to the current language, selects it and saves.
    /// Returns its position when the save succeeded.
    pub fn save_topic<F: Fn(&App) -> Result<(), String>>(
        &mut self,
        topic: String,
        words: Vec<WordItem>,
        save: &F,
    ) -> (r: Option<usize>)
        requires
            save_callable(save),
        ensures
            topic_saved(save, *old(self), topic, words, *final(self), r),
    {
        let ghost record = crate::study::new_record(topic, words);
        let index = {
            let progress = self.current_progress_mut();
            progress.topic_history.push(
                TopicRecord {
                    topic,
                    words,
                    last_score: None,
                    passed: false,
                    skill_reward_stage: 0,
                    study_completed_once: false,
                },
            );
            let index = progress.topic_history.len() - 1;
            progress.selected_topic = index;
            index
        };
        self.pending_persist = true;
        let ghost mid = *self;
        let ok = self.flush_pending_save(save);
        assert(flushed(save, mid, *self, ok));
        if ok {
            Some(index)
        } else {
            None
        }
    }

    /// Rewards reaching the end of the words: 10 XP, or 5 when the active
    /// topic was studied to the end before, which is now recorded.
    pub fn reward_study_completion(&mut self)
        ensures
            study_rewarded(*old(self), *final(self)),
    {
        let xp_gain: u32 = match self.active_topic {
            Some(active_topic) => {
                let progress = self.current_progress_mut();
                if active_topic < progress.topic_history.len() {
                    let already_completed = progress.topic_history[active_topic].study_completed_once;
                    progress.topic_history[active_topic].study_completed_once = true;
                    if already_completed {
                        5
                    } else {
                        10
                    }
                } else {
                    10
                }
            },
            None => 10,
        };
        self.add_xp(xp_gain);
    }

    /// Grades the finished quiz, shows the result and saves.
    pub fn finish_quiz<F: Fn(&App) -> Result<(), String>>(&mut self, save: &F)
        requires
            save_callable(save),
        ensures
            quiz_finished(save, *old(self), *final(self)),
            final(self).score == old(self).score,
            final(self).quiz_index == old(self).quiz_index,
            final(self).quiz_questions == old(self).quiz_questions,
    {
        if let Some(active) = self.active_topic {
            let total = self.quiz_questions.len();
            if total > 0 {
                let score = self.score;
                let passed = (score as u128) * 100 >= (total as u128) * 90;
                self.add_xp(5);
                let stage_before: u8 = {
                    let progress = self.current_progress();
                    if active < progress.topic_history.len() {
                        let s = progress.topic_history[active].skill_reward_stage;
                        if s < 2 {
                            s
                        } else {
                            2
                        }
                    } else {
                        0
                    }
                };
                let target: u8 = if score == total {
                    2
                } else if passed {
                    1
                } else {
                    0
                };
                let gain: u8 = if target > stage_before {
                    target - stage_before
                } else {
                    0
                };
                let progress = self.current_progress_mut();
                if gain > 0 {
                    progress.skill = if progress.skill <= u32::MAX - (gain as u32) {
                        progress.skill + gain as u32
                    } else {
                        u32::MAX
                    };
                }
                if active < progress.topic_history.len() {
                    progress.topic_history[active].last_score = Some((score, total));
                    progress.topic_history[active].passed = progress.topic_history[active].passed
                        || passed;
                    if progress.topic_history[active].skill_reward_stage < target {
                        progress.topic_history[active].skill_reward_stage = target;
                    }
                }
                self.message = if gain > 0 {
                    let head = concat2("복습 완료! +5 XP, ", self.learning_language.display_name_ko());
                    let amount = decimal_string(gain as u64);
                    concat3(head.as_str(), " 실력 +", amount.as_str())
                } else {
                    owned("복습 완료! +5 XP")
                };
                self.pending_persist = true;
                proof {
                    let b = *old(self);
                    assert(target == target_stage(score, total));
                    assert(stage_before == current_stage(b, active));
                    assert(gain == skill_gain(b, active));
                    assert(self.message@ == finish_message(display_name_ko_text(b.learning_language), gain));
                    assert(self.progress_now().skill == sat_add(b.progress_now().skill, gain as u32));
                    let h = b.progress_now().topic_history@;
                    let passed_s = score * 100 >= total * 90;
                    assert(passed == passed_s);
                    if active < h.len() {
                        assert(self.progress_now().topic_history@ =~= h.update(
                            active as int,
                            TopicRecord {
                                last_score: Some((score, total)),
                                passed: h[active as int].passed || passed_s,
                                skill_reward_stage: if h[active as int].skill_reward_stage < target {
                                    target
                                } else {
                                    h[active as int].skill_reward_stage
                                },
                                ..h[active as int]
                            },
                        ));
                    } else {
                        assert(self.progress_now().topic_history@ =~= h);
                    }
                }
            }
        }
        self.screen = Screen::Result;
        let ghost mid = *self;
        assert(quiz_graded(*old(self), mid));
        let ok = self.flush_pending_save(save);
        assert(flushed(save, mid, *self, ok));
    }

    /// Grades the current question, records the review, moves on, and
    /// finishes the quiz after the last question. Requires the quiz counters
    /// to be consistent (`wf`), as every session built by the library is;
    /// the point counted for a right answer then cannot overflow.
    pub fn answer_current<F: Fn(&App) -> Result<(), String>>(&mut self, save: &F)
        requires
            save_callable(save),
            old(self).wf(),
        ensures
            answered(save, *old(self), *final(self)),
            final(self).wf(),
    {
        if self.quiz_index >= self.quiz_questions.len() {
            return;
        }
        let question = &self.quiz_questions[self.quiz_index];
        let (is_correct, user_answer, correct_answer) = match &question.answer {
            QuizAnswer::Choice(answer_index) => {
                let user = if self.selected_option < question.options.len() {
                    question.options[self.selected_option].clone()
                } else {
                    owned("(미선택)")
                };
                let correct = if *answer_index < question.options.len() {
                    question.options[*answer_index].clone()
                } else {
                    owned("(정답 없음)")
                };
                (self.selected_option == *answer_index, user, correct)
            },
            QuizAnswer::Text(answer_text) => {
                let user = if is_blank(self.typed_answer.as_str()) {
                    owned("(미입력)")
                } else {
                    trimmed(self.typed_answer.as_str())
                };
                (
                    is_case_flexible_exact_match(self.typed_answer.as_str(), answer_text.as_str()),
                    user,
                    answer_text.clone(),
                )
            },
        };
        let label = concat3(quiz_type_label(question.quiz_type), ": ", question.target.as_str());
        if is_correct {
            self.score = self.score + 1;
        }
        self.quiz_reviews.push(QuizReviewItem { label, user_answer, correct_answer, is_correct });
        self.quiz_index = self.quiz_index + 1;
        self.selected_option = 0;
        self.typed_answer = String::new();
        let ghost mid = *self;
        proof {
            let q = old(self).quiz_questions@[old(self).quiz_index as int];
            let review = mid.quiz_reviews@.last();
            assert(mid.quiz_reviews@.len() == old(self).quiz_reviews@.len() + 1);
            assert(mid.quiz_reviews@.drop_last() == old(self).quiz_reviews@);
            assert(review.label@ == quiz_type_text(q.quiz_type) + ": "@ + q.target@);
            assert(answer_texts(q, old(self).selected_option, old(self).typed_answer@, review.user_answer@, review.correct_answer@, review.is_correct));
        }
        assert(question_answered(*old(self), mid));
        if self.quiz_index >= self.quiz_questions.len() {
            self.finish_quiz(save);
        }
    }
}

/// Grading a quiz never lowers the active topic's reward stage (counted up
/// to 2), raises the skill by exactly how far that stage rose, and never
/// takes back a pass mark. Over any run of quizzes, one topic therefore adds
/// at most 2 to the skill.
pub proof fn law_quiz_reward_stage(before: App, mid: App, a: usize)
    requires
        quiz_graded(before, mid),
        before.active_topic == Some(a),
        a < before.progress_now().topic_history@.len(),
        before.quiz_questions@.len() > 0,
    ensures
        mid.learning_language == before.learning_language,
        mid.progress_now().topic_history@.len() == before.progress_now().topic_history@.len(),
        min2(before.progress_now().topic_history@[a as int].skill_reward_stage) <= min2(
            mid.progress_now().topic_history@[a as int].skill_reward_stage,
        ) <= 2,
        mid.progress_now().skill == sat_add(
            before.progress_now().skill,
            (min2(mid.progress_now().topic_history@[a as int].skill_reward_stage) - min2(
                before.progress_now().topic_history@[a as int].skill_reward_stage,
            )) as u32,
        ),
        before.progress_now().topic_history@[a as int].passed ==> mid.progress_now().topic_history@[a as int].passed,
{
    let t = target_stage(before.score, before.quiz_questions@.len() as usize);
    assert(t <= 2);
    assert(mid.progress_now().skill == sat_add(before.progress_now().skill, skill_gain(before, a) as u32));
}

/// Once the active topic has been studied to the end, studying it to the
/// end again earns 5 XP instead of 10.
pub proof fn law_study_reward_after_first(before: App, after: App, t: usize)
    requires
        study_rewarded(before, after),
        before.active_topic == Some(t),
        t < before.progress_now().topic_history@.len(),
    ensures
        after.progress_now().topic_history@[t as int].study_completed_once,
        study_reward(after) == 5,
{
}

/// Finishing a quiz on the active topic `a` with `score` right answers out
/// of `total` questions records that score and sets the pass mark when at
/// least 90 percent was reached (never taking it back). A perfect score
/// brings the topic's reward stage (counted up to 2) to 2, a score of at
/// least 90 percent to at least 1, and the language skill grows by exactly
/// the stages newly reached; below 90 percent neither the stage nor the
/// skill changes.
pub proof fn law_quiz_grading_thresholds<F: Fn(&App) -> Result<(), String>>(
    save: &F,
    before: App,
    after: App,
    a: usize,
)
    requires
        quiz_finished(save, before, after),
        before.active_topic == Some(a),
        a < before.progress_now().topic_history@.len(),
        before.quiz_questions@.len() > 0,
    ensures
        after.learning_language == before.learning_language,
        after.progress_now().topic_history@.len() == before.progress_now().topic_history@.len(),
        after.progress_now().topic_history@[a as int].last_score == Some(
            (before.score, before.quiz_questions@.len() as usize),
        ),
        after.progress_now().topic_history@[a as int].passed == (before.progress_now().topic_history@[a as int].passed
            || before.score * 100 >= before.quiz_questions@.len() * 90),
        before.score == before.quiz_questions@.len() ==> {
            &&& min2(after.progress_now().topic_history@[a as int].skill_reward_stage) == 2
            &&& after.progress_now().skill == sat_add(
                before.progress_now().skill,
                (2 - min2(before.progress_now().topic_history@[a as int].skill_reward_stage)) as u32,
            )
        },
        before.score < before.quiz_questions@.len() && before.score * 100 >= before.quiz_questions@.len() * 90 ==> {
            &&& min2(after.progress_now().topic_history@[a as int].skill_reward_stage) >= 1
            &&& after.progress_now().skill == sat_add(
                before.progress_now().skill,
                if min2(before.progress_now().topic_history@[a as int].skill_reward_stage) == 0 { 1 } else { 0 },
            )
        },
        before.score * 100 < before.quiz_questions@.len() * 90 ==> {
            &&& after.progress_now().topic_history@[a as int].skill_reward_stage
                == before.progress_now().topic_history@[a as int].skill_reward_stage
            &&& after.progress_now().skill == before.progress_now().skill
        },
{
    let (mid, ok) = choose|mid: App, ok: bool|
        #![trigger flushed(save, mid, after, ok)]
        quiz_graded(before, mid) && flushed(save, mid, after, ok);
    assert(before.quiz_questions@.len() == before.quiz_questions.len());
    let total = before.quiz_questions@.len() as usize;
    assert(total as int == before.quiz_questions@.len());
    let t = target_stage(before.score, total);
    let c = current_stage(before, a);
    assert(skill_gain(before, a) == (if t > c { (t - c) as u8 } else { 0u8 }));
    assert(mid.pending_persist);
    assert(after.progress == mid.progress);
    assert(after.learning_language == mid.learning_language);
}

/// Studying topic `index` of the current language, when it exists, shows
/// exactly that topic's words from the first one, with that topic active;
/// the progress stays as it was.
pub proof fn law_study_shows_chosen_topic(before: App, index: usize, after: App)
    requires
        topic_studied(before, index, after),
        index < before.progress_now().topic_history@.len(),
    ensures
        after.words@ == before.progress_now().topic_history@[index as int].words@,
        after.study_index == 0,
        after.active_topic == Some(index),
        after.screen == Screen::Study,
        after.progress == before.progress,
        after.learning_language == before.learning_language,
{
}

/// Quizzing topic `index` of the current language, when it exists, asks one
/// question per word of exactly that topic, from the first question with no
/// points yet, with that topic active; the progress stays as it was.
pub proof fn law_quiz_asks_chosen_topic(before: App, index: usize, after: App)
    requires
        topic_quizzed(before, index, after),
        index < before.progress_now().topic_history@.len(),
    ensures
        quiz_for(before.progress_now().topic_history@[index as int].words@, before.learning_language, after.quiz_questions@),
        after.words@ == before.progress_now().topic_history@[index as int].words@,
        after.quiz_index == 0,
        after.score == 0,
        after.active_topic == Some(index),
        after.screen == Screen::Quiz,
        after.progress == before.progress,
{
}

} // verus!
