//! The state of a study session and the operations on its profile and
//! progress: saving, cleaning up the topic history, and moving selections.

use vstd::prelude::*;
use crate::language::{language_index, rotated, wrap3, LearningLanguage};
use crate::model::{
    clamped_selection, record_is_valid, same_history, LanguageProgress, LearningProgressStore, TopicRecord,
    WordItem,
};
use crate::quiz::{QuizQuestion, QuizReviewItem};
use crate::language::is_single_word_term;
use crate::text::{concat3, eq_ignore_ascii, eq_ignore_ascii_case, owned, trim, trimmed};

verus! {

#[derive(Clone, Copy, PartialEq, Eq, Debug, Structural)]
pub enum Screen {
    ApiKeySetup,
    Main,
    TopicCreate,
    Loading,
    Study,
    Quiz,
    Result,
    Error,
}

#[derive(Clone, Copy, PartialEq, Eq, Debug, Structural)]
pub enum InputField {
    ApiKey,
    ProfileName,
    LearningLanguage,
}

/// Everything the study screens show and change.
#[derive(Debug)]
pub struct App {
    pub screen: Screen,
    pub focused: InputField,
    pub api_key: String,
    pub learning_language: LearningLanguage,
    pub setup_editing: bool,
    pub progress: LearningProgressStore,
    pub active_topic: Option<usize>,
    pub words: Vec<WordItem>,
    pub study_index: usize,
    pub quiz_questions: Vec<QuizQuestion>,
    pub quiz_reviews: Vec<QuizReviewItem>,
    pub quiz_index: usize,
    pub selected_option: usize,
    pub typed_answer: String,
    pub score: usize,
    pub profile_name: String,
    pub total_xp: u32,
    pub message: String,
    pub pending_persist: bool,
    pub quit: bool,
}

/// `a + b`, or `u32::MAX` when the sum does not fit.
pub open spec fn sat_add(a: u32, b: u32) -> u32 {
    if a + b <= u32::MAX { (a + b) as u32 } else { u32::MAX }
}

/// The message shown when saving failed with the error text `e`.
pub open spec fn save_failed_text(e: Seq<char>) -> Seq<char> {
    "학습 상태 저장 실패: "@ + e + ". R: 다시 저장 시도 (저장 전까지 종료 불가)"@
}

/// A function that saves the state is callable on every state.
pub open spec fn save_callable<F: Fn(&App) -> Result<(), String>>(save: &F) -> bool {
    forall|a: &App| #[trigger] save.requires((a,))
}

/// What flushing a pending save does to `before`, given whether it
/// succeeded: nothing is pending afterwards, or the error screen shows why.
pub open spec fn flushed<F: Fn(&App) -> Result<(), String>>(save: &F, before: App, after: App, ok: bool) -> bool {
    if !before.pending_persist {
        ok && after == before
    } else if ok {
        save.ensures((&before,), Ok(())) && after == (App { pending_persist: false, ..before })
    } else {
        exists|e: String|
            #[trigger] save.ensures((&before,), Err(e)) && after == (App {
                screen: Screen::Error,
                message: after.message,
                ..before
            }) && after.message@ == save_failed_text(e@)
    }
}

/// `after` differs from `before` only in that every language's history
/// was cleaned up.
pub open spec fn progresses_sanitized(before: App, after: App) -> bool {
    &&& forall|l: LearningLanguage|
        sanitized_progress(#[trigger] before.progress.get(l), after.progress.get(l), l)
    &&& after == (App { progress: after.progress, ..before })
}

/// `after` holds the profile and the progress of one language given in the
/// form older saved states have, with the history cleaned up and the
/// selection normalized; the other languages start empty.
pub open spec fn legacy_applied(
    before: App,
    profile_name: String,
    total_xp: u32,
    skill: u32,
    topic_history: Vec<TopicRecord>,
    selected_topic: usize,
    language: LearningLanguage,
    after: App,
) -> bool {
    &&& after.profile_name == profile_name
    &&& after.total_xp == total_xp
    &&& after.learning_language == language
    &&& sanitized_progress(
        LanguageProgress {
            skill,
            topic_history,
            selected_topic: clamped_selection(selected_topic, topic_history@.len()),
        },
        after.progress.get(language),
        language,
    )
    &&& forall|l: LearningLanguage|
        l != language ==> {
            &&& (#[trigger] after.progress.get(l)).skill == 0
            &&& after.progress.get(l).topic_history@.len() == 0
            &&& after.progress.get(l).selected_topic == 0
        }
    &&& after.active_topic == (if after.progress.get(language).topic_history@.len() == 0 {
        None
    } else {
        before.active_topic
    })
    &&& after == (App {
        profile_name: after.profile_name,
        total_xp: after.total_xp,
        learning_language: after.learning_language,
        progress: after.progress,
        active_topic: after.active_topic,
        ..before
    })
}

/// Retained topics with their reward stage capped at 2.
pub open spec fn capped(record: TopicRecord) -> TopicRecord {
    TopicRecord { skill_reward_stage: if record.skill_reward_stage < 2 { record.skill_reward_stage } else { 2 }, ..record }
}

/// The history with invalid topics dropped and reward stages capped, in the
/// order they had.
pub open spec fn sanitized(history: Seq<TopicRecord>, language: LearningLanguage) -> Seq<TopicRecord>
    decreases history.len(),
{
    if history.len() == 0 {
        history
    } else {
        let rest = sanitized(history.drop_last(), language);
        if record_is_valid(history.last(), language) {
            rest.push(capped(history.last()))
        } else {
            rest
        }
    }
}

/// A language's progress after its history was cleaned up.
pub open spec fn sanitized_progress(before: LanguageProgress, after: LanguageProgress, language: LearningLanguage) -> bool {
    &&& after.skill == before.skill
    &&& after.topic_history@ == sanitized(before.topic_history@, language)
    &&& after.selected_topic == clamped_selection(before.selected_topic, after.topic_history@.len())
}

/// Every language's history is already cleaned up and its selection is in
/// bounds: cleaning up changes nothing.
pub open spec fn progress_is_clean(store: LearningProgressStore) -> bool {
    forall|l: LearningLanguage| {
        &&& sanitized((#[trigger] store.get(l)).topic_history@, l) == store.get(l).topic_history@
        &&& store.get(l).selected_topic == clamped_selection(
            store.get(l).selected_topic,
            store.get(l).topic_history@.len(),
        )
    }
}

/// Cleaning up copies of a history gives copies of the cleaned history.
pub proof fn lemma_sanitized_same(a: Seq<TopicRecord>, b: Seq<TopicRecord>, language: LearningLanguage)
    requires
        same_history(a, b),
    ensures
        same_history(sanitized(a, language), sanitized(b, language)),
    decreases a.len(),
{
    if a.len() > 0 {
        assert(a.last().same_as(b.last()));
        assert(same_history(a.drop_last(), b.drop_last())) by {
            assert forall|i: int| 0 <= i < a.drop_last().len() implies #[trigger] a.drop_last()[i].same_as(
                b.drop_last()[i],
            ) by {
                assert(a[i].same_as(b[i]));
            }
        }
        lemma_sanitized_same(a.drop_last(), b.drop_last(), language);
        assert(record_is_valid(a.last(), language) == record_is_valid(b.last(), language));
    }
}

/// The selection after moving `delta` places, kept inside the history.
pub open spec fn moved_selection(selected: usize, len: nat, delta: int) -> usize {
    if len == 0 {
        0
    } else {
        let t = clamped_selection(selected, len) + delta;
        if t < 0 { 0 } else if t > len - 1 { (len - 1) as usize } else { t as usize }
    }
}

pub open spec fn field_index(f: InputField) -> int {
    match f {
        InputField::ApiKey => 0,
        InputField::ProfileName => 1,
        InputField::LearningLanguage => 2,
    }
}

pub open spec fn field_at(i: int) -> InputField {
    if i == 0 {
        InputField::ApiKey
    } else if i == 1 {
        InputField::ProfileName
    } else {
        InputField::LearningLanguage
    }
}

impl App {
    /// The quiz counters stay consistent: the score never exceeds the number
    /// of answered questions, which never exceeds the number of questions.
    /// `App::new` establishes it and every operation of the library keeps it,
    /// so every session reached through the library meets it; grading relies
    /// on it to count one more answer and one more point without overflow.
    pub open spec fn wf(self) -> bool {
        self.score <= self.quiz_index <= self.quiz_questions@.len()
    }

    /// The progress of the language being studied.
    pub open spec fn progress_now(self) -> LanguageProgress {
        self.progress.get(self.learning_language)
    }

    /// The state with the progress of `language` replaced.
    pub open spec fn with_progress(self, language: LearningLanguage, p: LanguageProgress) -> App {
        App { progress: self.progress.set(language, p), ..self }
    }

    /// The state after `normalize_selection` for `language`.
    pub open spec fn selection_normalized_for(self, language: LearningLanguage) -> App {
        let p = self.progress.get(language);
        self.with_progress(
            language,
            LanguageProgress { selected_topic: clamped_selection(p.selected_topic, p.topic_history@.len()), ..p },
        )
    }

    /// The state after `normalize_selection`: the current selection is in
    /// bounds, and no topic is active when the history is empty.
    pub open spec fn selection_normalized(self) -> App {
        let s = self.selection_normalized_for(self.learning_language);
        if s.progress_now().topic_history@.len() == 0 {
            App { active_topic: None, ..s }
        } else {
            s
        }
    }

    /// A fresh session for the given profile name, on the setup screen.
    pub fn new(profile_name: String) -> (r: App)
        ensures
            r.screen == Screen::ApiKeySetup,
            r.focused == InputField::ApiKey,
            r.api_key@.len() == 0,
            r.learning_language == LearningLanguage::English,
            !r.setup_editing,
            forall|l: LearningLanguage| {
                &&& (#[trigger] r.progress.get(l)).skill == 0
                &&& r.progress.get(l).topic_history@.len() == 0
                &&& r.progress.get(l).selected_topic == 0
            },
            r.active_topic.is_none(),
            r.words@.len() == 0,
            r.study_index == 0,
            r.quiz_questions@.len() == 0,
            r.quiz_reviews@.len() == 0,
            r.quiz_index == 0,
            r.selected_option == 0,
            r.typed_answer@.len() == 0,
            r.score == 0,
            r.profile_name == profile_name,
            r.total_xp == 0,
            r.message@ == "API Key, 사용자 이름, 언어를 설정하고 Enter를 누르세요"@,
            !r.pending_persist,
            !r.quit,
            r.wf(),
    {
        App {
            screen: Screen::ApiKeySetup,
            focused: InputField::ApiKey,
            api_key: String::new(),
            learning_language: crate::language::default_learning_language(),
            setup_editing: false,
            progress: LearningProgressStore::new(),
            active_topic: None,
            words: Vec::new(),
            study_index: 0,
            quiz_questions: Vec::new(),
            quiz_reviews: Vec::new(),
            quiz_index: 0,
            selected_option: 0,
            typed_answer: String::new(),
            score: 0,
            profile_name,
            total_xp: 0,
            message: String::from_str("API Key, 사용자 이름, 언어를 설정하고 Enter를 누르세요"),
            pending_persist: false,
            quit: false,
        }
    }

    /// The progress of the language being studied.
    pub fn current_progress(&self) -> (r: &LanguageProgress)
        ensures
            *r == self.progress_now(),
    {
        self.progress.for_language(self.learning_language)
    }

    /// The progress of the language being studied, to change in place.
    pub fn current_progress_mut(&mut self) -> (r: &mut LanguageProgress)
        ensures
            *r == old(self).progress_now(),
            *final(self) == old(self).with_progress(old(self).learning_language, *final(r)),
    {
        self.progress.for_language_mut(self.learning_language)
    }

    /// The skill score in the language being studied.
    pub fn current_skill(&self) -> (r: u32)
        ensures
            r == self.progress_now().skill,
    {
        self.current_progress().skill
    }

    /// The selected topic position in the language being studied.
    pub fn current_selected_topic(&self) -> (r: usize)
        ensures
            r == self.progress_now().selected_topic,
    {
        self.current_progress().selected_topic
    }

    /// Adds XP (capped at `u32::MAX`) and marks the state for saving.
    pub fn add_xp(&mut self, xp: u32)
        ensures
            *final(self) == (App { total_xp: sat_add(old(self).total_xp, xp), pending_persist: true, ..*old(self) }),
    {
        self.total_xp = if self.total_xp <= u32::MAX - xp {
            self.total_xp + xp
        } else {
            u32::MAX
        };
        self.pending_persist = true;
    }

    /// Saves the state if a save is pending. On failure the error screen
    /// shows why and the save stays pending; the result says whether
    /// nothing is pending any more.
    pub fn flush_pending_save<F: Fn(&App) -> Result<(), String>>(&mut self, save: &F) -> (r: bool)
        requires
            save_callable(save),
        ensures
            flushed(save, *old(self), *final(self), r),
    {
        if !self.pending_persist {
            return true;
        }
        let outcome = save(&*self);
        match outcome {
            Ok(u) => {
                assert(u == ());
                self.pending_persist = false;
                true
            },
            Err(err) => {
                self.screen = Screen::Error;
                self.message = concat3(
                    "학습 상태 저장 실패: ",
                    err.as_str(),
                    ". R: 다시 저장 시도 (저장 전까지 종료 불가)",
                );
                false
            },
        }
    }

    /// Keeps the selection of `language` inside its history.
    pub fn normalize_selection_for_language(&mut self, language: LearningLanguage)
        ensures
            *final(self) == old(self).selection_normalized_for(language),
    {
        let progress = self.progress.for_language_mut(language);
        if progress.topic_history.len() == 0 {
            progress.selected_topic = 0;
            return;
        }
        if progress.selected_topic > progress.topic_history.len() - 1 {
            progress.selected_topic = progress.topic_history.len() - 1;
        }
    }

    /// Keeps the current selection inside the history, and forgets the
    /// active topic when there are no topics.
    pub fn normalize_selection(&mut self)
        ensures
            *final(self) == old(self).selection_normalized(),
    {
        self.normalize_selection_for_language(self.learning_language);
        let has_topics = self.current_progress().topic_history.len() != 0;
        if !has_topics {
            self.active_topic = None;
        }
    }

    /// Drops, for every language, the topics without words or with a term
    /// that is not one word of that language, caps the reward stages at 2,
    /// and keeps the selections in bounds.
    pub fn sanitize_all_progresses(&mut self)
        ensures
            progresses_sanitized(*old(self), *final(self)),
    {
        self.sanitize_language(LearningLanguage::English);
        self.sanitize_language(LearningLanguage::Japanese);
        self.sanitize_language(LearningLanguage::Chinese);
        proof {
            assert forall|l: LearningLanguage|
                sanitized_progress(#[trigger] old(self).progress.get(l), self.progress.get(l), l) by {
                match l {
                    LearningLanguage::English => {},
                    LearningLanguage::Japanese => {},
                    LearningLanguage::Chinese => {},
                }
            }
        }
    }

    fn sanitize_language(&mut self, language: LearningLanguage)
        ensures
            sanitized_progress(old(self).progress.get(language), final(self).progress.get(language), language),
            forall|l: LearningLanguage| l != language ==> #[trigger] final(self).progress.get(l) == old(self).progress.get(l),
            *final(self) == (App { progress: final(self).progress, ..*old(self) }),
    {
        let progress = self.progress.for_language_mut(language);
        let mut history: Vec<TopicRecord> = Vec::new();
        std::mem::swap(&mut history, &mut progress.topic_history);
        progress.topic_history = sanitize_history(history, language);
        let len = progress.topic_history.len();
        if len == 0 {
            progress.selected_topic = 0;
        } else if progress.selected_topic > len - 1 {
            progress.selected_topic = len - 1;
        }
    }

    /// Replaces the profile with progress kept for one language only, as
    /// older saved states hold it, then cleans up the history.
    pub fn apply_legacy_single_progress(
        &mut self,
        profile_name: String,
        total_xp: u32,
        skill: u32,
        topic_history: Vec<TopicRecord>,
        selected_topic: usize,
        language: LearningLanguage,
    )
        ensures
            legacy_applied(*old(self), profile_name, total_xp, skill, topic_history, selected_topic, language, *final(self)),
    {
        let ghost given = topic_history;
        self.profile_name = profile_name;
        self.total_xp = total_xp;
        self.progress = LearningProgressStore::new();
        let ghost fresh = self.progress;
        let progress = self.progress.for_language_mut(language);
        progress.skill = skill;
        progress.topic_history = topic_history;
        if progress.topic_history.len() == 0 {
            progress.selected_topic = 0;
        } else {
            progress.selected_topic = if selected_topic < progress.topic_history.len() - 1 {
                selected_topic
            } else {
                progress.topic_history.len() - 1
            };
        }
        self.learning_language = language;
        let ghost mid = self.progress;
        self.sanitize_all_progresses();
        proof {
            assert(mid.get(language) == (LanguageProgress {
                skill,
                topic_history: given,
                selected_topic: clamped_selection(selected_topic, given@.len()),
            }));
            assert forall|l: LearningLanguage| l != language implies {
                &&& (#[trigger] self.progress.get(l)).skill == 0
                &&& self.progress.get(l).topic_history@.len() == 0
                &&& self.progress.get(l).selected_topic == 0
            } by {
                assert(sanitized_progress(mid.get(l), self.progress.get(l), l));
                assert(mid.get(l) == fresh.get(l)) by {
                    match language {
                        LearningLanguage::English => {},
                        LearningLanguage::Japanese => {},
                        LearningLanguage::Chinese => {},
                    }
                }
                assert(fresh.get(l).topic_history@.len() == 0);
                assert(sanitized(mid.get(l).topic_history@, l) =~= mid.get(l).topic_history@);
            }
        }
        self.normalize_selection();
    }

    /// Moves the focus of the setup screen `delta` fields along, wrapping
    /// around.
    pub fn move_setup_focus(&mut self, delta: isize)
        requires
            field_index(old(self).focused) + delta <= isize::MAX,
        ensures
            *final(self) == (App { focused: field_at((field_index(old(self).focused) + delta) % 3), ..*old(self) }),
    {
        let current: u8 = match self.focused {
            InputField::ApiKey => 0,
            InputField::ProfileName => 1,
            InputField::LearningLanguage => 2,
        };
        let next = wrap3(current, delta);
        self.focused = if next == 0 {
            InputField::ApiKey
        } else if next == 1 {
            InputField::ProfileName
        } else {
            InputField::LearningLanguage
        };
    }

    /// Switches to the language `delta` steps along and normalizes its
    /// selection.
    pub fn adjust_language(&mut self, delta: isize)
        requires
            language_index(old(self).learning_language) + delta <= isize::MAX,
        ensures
            *final(self) == (App {
                learning_language: rotated(old(self).learning_language, delta as int),
                ..*old(self)
            }).selection_normalized(),
    {
        self.learning_language = self.learning_language.rotate(delta);
        self.normalize_selection();
    }

    /// The number of topics in the language being studied.
    pub fn topic_count(&self) -> (r: usize)
        ensures
            r == self.progress_now().topic_history@.len(),
    {
        self.current_progress().topic_history.len()
    }

    /// Moves the topic selection `delta` places, stopping at both ends.
    pub fn move_topic_selection(&mut self, delta: isize)
        requires
            old(self).progress_now().topic_history@.len() == 0 || (old(self).progress_now().topic_history@.len()
                - 1 <= isize::MAX && isize::MIN <= clamped_selection(
                old(self).progress_now().selected_topic,
                old(self).progress_now().topic_history@.len(),
            ) + delta <= isize::MAX),
        ensures
            *final(self) == old(self).with_progress(
                old(self).learning_language,
                LanguageProgress {
                    selected_topic: moved_selection(
                        old(self).progress_now().selected_topic,
                        old(self).progress_now().topic_history@.len(),
                        delta as int,
                    ),
                    ..old(self).progress_now()
                },
            ),
    {
        let len = self.topic_count();
        let current_selected = self.current_selected_topic();
        let next: usize = if len == 0 {
            0
        } else {
            let current: i128 = if current_selected < len - 1 {
                current_selected as i128
            } else {
                (len - 1) as i128
            };
            let t: i128 = current + delta as i128;
            if t < 0 {
                0
            } else if t > (len - 1) as i128 {
                len - 1
            } else {
                t as usize
            }
        };
        self.current_progress_mut().selected_topic = next;
    }
}

/// The profile name made of the first name found on the machine: trimmed,
/// unless blank or `localhost` in any ASCII case, in which case a generic
/// learner name is used.
pub open spec fn profile_name_text(candidate: Option<Seq<char>>) -> Seq<char> {
    match candidate {
        Some(c) => if trim(c).len() > 0 && !eq_ignore_ascii(trim(c), "localhost"@) {
            trim(c)
        } else {
            "학습자"@
        },
        None => "학습자"@,
    }
}

/// The profile name to start with, given the first name found on the
/// machine, if any.
pub fn default_profile_name(candidate: Option<String>) -> (r: String)
    ensures
        r@ == profile_name_text(
            match candidate {
                Some(c) => Some(c@),
                None => None,
            },
        ),
{
    match candidate {
        Some(name) => {
            let t = trimmed(name.as_str());
            if !t.as_str().is_empty() && !eq_ignore_ascii_case(t.as_str(), "localhost") {
                t
            } else {
                owned("학습자")
            }
        },
        None => owned("학습자"),
    }
}

/// Whether `record` has words and all of them are one word of `language`.
pub fn record_is_valid_exec(record: &TopicRecord, language: LearningLanguage) -> (r: bool)
    ensures
        r == record_is_valid(*record, language),
{
    if record.words.len() == 0 {
        return false;
    }
    let mut i: usize = 0;
    while i < record.words.len()
        invariant
            i <= record.words@.len(),
            forall|k: int| 0 <= k < i ==> crate::language::single_word(#[trigger] record.words@[k].term@, language),
        decreases record.words@.len() - i,
    {
        if !is_single_word_term(record.words[i].term.as_str(), language) {
            return false;
        }
        i = i + 1;
    }
    true
}

/// The history with invalid topics dropped and reward stages capped.
pub fn sanitize_history(history: Vec<TopicRecord>, language: LearningLanguage) -> (r: Vec<TopicRecord>)
    ensures
        r@ == sanitized(history@, language),
{
    let ghost all = history@;
    let n = history.len();
    let mut rest = history;
    let mut out: Vec<TopicRecord> = Vec::new();
    let mut i: usize = 0;
    while rest.len() > 0
        invariant
            i <= all.len(),
            all.len() == n,
            rest@ == all.skip(i as int),
            rest@.len() == all.len() - i,
            out@ == sanitized(all.take(i as int), language),
        decreases rest@.len(),
    {
        let mut record = rest.remove(0);
        assert(all.take(i + 1).drop_last() =~= all.take(i as int));
        assert(all.take(i + 1).last() == all[i as int]);
        if record_is_valid_exec(&record, language) {
            if record.skill_reward_stage > 2 {
                record.skill_reward_stage = 2;
            }
            out.push(record);
        }
        assert(rest@ =~= all.skip(i + 1));
        i = i + 1;
    }
    assert(all.take(i as int) =~= all);
    out
}

/// Cleaning the history a second time changes nothing.
pub proof fn law_sanitize_idempotent(history: Seq<TopicRecord>, language: LearningLanguage)
    ensures
        sanitized(sanitized(history, language), language) == sanitized(history, language),
    decreases history.len(),
{
    if history.len() > 0 {
        law_sanitize_idempotent(history.drop_last(), language);
        let rest = sanitized(history.drop_last(), language);
        if record_is_valid(history.last(), language) {
            let c = capped(history.last());
            assert(rest.push(c).drop_last() =~= rest);
            assert(capped(c) == c);
        }
    }
}

/// After cleaning, every topic has words that are all one word of the
/// language, and no reward stage exceeds 2.
pub proof fn law_sanitized_topics_valid(history: Seq<TopicRecord>, language: LearningLanguage)
    ensures
        forall|i: int|
            0 <= i < sanitized(history, language).len() ==> record_is_valid(
                #[trigger] sanitized(history, language)[i],
                language,
            ) && sanitized(history, language)[i].skill_reward_stage <= 2,
    decreases history.len(),
{
    if history.len() > 0 {
        law_sanitized_topics_valid(history.drop_last(), language);
    }
}

/// Moving the setup focus along and back by the same amount returns to
/// the same field.
pub proof fn law_setup_focus_round_trip(f: InputField, delta: int)
    ensures
        field_at((field_index(field_at((field_index(f) + delta) % 3)) - delta) % 3) == f,
{
    let i = field_index(f);
    let j = (i + delta) % 3;
    assert(field_index(field_at(j)) == j);
    assert((j - delta) % 3 == i) by (nonlinear_arith)
        requires
            j == (i + delta) % 3,
            0 <= i < 3,
    ;
}

/// However far the topic selection moves, it stays inside a non-empty
/// history.
pub proof fn law_moved_selection_in_bounds(selected: usize, len: nat, delta: int)
    requires
        len > 0,
    ensures
        moved_selection(selected, len, delta) < len,
{
}

} // verus!
