//! The study records: words, topics, and per-language progress.

use vstd::prelude::*;
use crate::language::{single_word, LearningLanguage};

verus! {

/// One vocabulary entry: the term and its Korean meaning.
#[derive(Clone, Debug)]
pub struct WordItem {
    pub term: String,
    pub meaning_ko: String,
}

/// A studied topic with its words and quiz history.
#[derive(Clone, Debug)]
pub struct TopicRecord {
    pub topic: String,
    pub words: Vec<WordItem>,
    pub last_score: Option<(usize, usize)>,
    pub passed: bool,
    pub skill_reward_stage: u8,
    pub study_completed_once: bool,
}

/// Skill, topic history and selection for one language.
#[derive(Clone, Debug)]
pub struct LanguageProgress {
    pub skill: u32,
    pub topic_history: Vec<TopicRecord>,
    pub selected_topic: usize,
}

/// Progress kept separately for each language.
#[derive(Clone, Debug)]
pub struct LearningProgressStore {
    pub english: LanguageProgress,
    pub japanese: LanguageProgress,
    pub chinese: LanguageProgress,
}

impl WordItem {
    /// A copy of the entry.
    pub fn duplicate(&self) -> (r: WordItem)
        ensures
            r == *self,
    {
        WordItem { term: self.term.clone(), meaning_ko: self.meaning_ko.clone() }
    }
}

/// A copy of the word list.
pub fn clone_words(words: &Vec<WordItem>) -> (r: Vec<WordItem>)
    ensures
        r@ == words@,
{
    let mut r: Vec<WordItem> = Vec::new();
    let mut i: usize = 0;
    while i < words.len()
        invariant
            i <= words.len(),
            r@ == words@.take(i as int),
        decreases words.len() - i,
    {
        r.push(words[i].duplicate());
        assert(words@.take(i + 1) =~= words@.take(i as int).push(words@[i as int]));
        i = i + 1;
    }
    assert(words@.take(words.len() as int) =~= words@);
    r
}

impl TopicRecord {
    /// The same topic: the same text, words, last score, pass mark and
    /// reward stages.
    pub open spec fn same_as(self, other: TopicRecord) -> bool {
        &&& self.topic == other.topic
        &&& self.words@ == other.words@
        &&& self.last_score == other.last_score
        &&& self.passed == other.passed
        &&& self.skill_reward_stage == other.skill_reward_stage
        &&& self.study_completed_once == other.study_completed_once
    }

    /// A copy of the topic.
    pub fn duplicate(&self) -> (r: TopicRecord)
        ensures
            r.same_as(*self),
    {
        TopicRecord {
            topic: self.topic.clone(),
            words: clone_words(&self.words),
            last_score: self.last_score,
            passed: self.passed,
            skill_reward_stage: self.skill_reward_stage,
            study_completed_once: self.study_completed_once,
        }
    }
}

/// Two histories hold the same topics in the same order.
pub open spec fn same_history(a: Seq<TopicRecord>, b: Seq<TopicRecord>) -> bool {
    &&& a.len() == b.len()
    &&& forall|i: int| 0 <= i < a.len() ==> #[trigger] a[i].same_as(b[i])
}

/// A copy of the topic history.
pub fn clone_history(history: &Vec<TopicRecord>) -> (r: Vec<TopicRecord>)
    ensures
        same_history(r@, history@),
{
    let mut r: Vec<TopicRecord> = Vec::new();
    let mut i: usize = 0;
    while i < history.len()
        invariant
            i <= history.len(),
            r@.len() == i,
            forall|k: int| 0 <= k < i ==> #[trigger] r@[k].same_as(history@[k]),
        decreases history.len() - i,
    {
        r.push(history[i].duplicate());
        i = i + 1;
    }
    r
}

/// A topic keeps its place in the history only while it has words and every
/// term is one word of its language.
pub open spec fn record_is_valid(record: TopicRecord, language: LearningLanguage) -> bool {
    &&& record.words@.len() > 0
    &&& forall|i: int| 0 <= i < record.words@.len() ==> single_word(#[trigger] record.words@[i].term@, language)
}

/// The selection moved into the history's bounds (0 for an empty history).
pub open spec fn clamped_selection(selected: usize, len: nat) -> usize {
    if len == 0 {
        0
    } else if selected < len {
        selected
    } else {
        (len - 1) as usize
    }
}

impl LanguageProgress {
    /// No skill, no topics.
    pub fn new() -> (r: LanguageProgress)
        ensures
            r.skill == 0,
            r.topic_history@.len() == 0,
            r.selected_topic == 0,
    {
        LanguageProgress { skill: 0, topic_history: Vec::new(), selected_topic: 0 }
    }
}

impl LanguageProgress {
    /// The same skill, topics and selection.
    pub open spec fn same_as(self, other: LanguageProgress) -> bool {
        &&& self.skill == other.skill
        &&& same_history(self.topic_history@, other.topic_history@)
        &&& self.selected_topic == other.selected_topic
    }

    /// A copy of the progress.
    pub fn duplicate(&self) -> (r: LanguageProgress)
        ensures
            r.same_as(*self),
    {
        LanguageProgress {
            skill: self.skill,
            topic_history: clone_history(&self.topic_history),
            selected_topic: self.selected_topic,
        }
    }
}

impl Default for LanguageProgress {
    fn default() -> (r: LanguageProgress)
        ensures
            r.skill == 0,
            r.topic_history@.len() == 0,
            r.selected_topic == 0,
    {
        LanguageProgress::new()
    }
}

impl LearningProgressStore {
    /// The progress of `language`.
    pub open spec fn get(self, language: LearningLanguage) -> LanguageProgress {
        match language {
            LearningLanguage::English => self.english,
            LearningLanguage::Japanese => self.japanese,
            LearningLanguage::Chinese => self.chinese,
        }
    }

    /// The store with the progress of `language` replaced.
    pub open spec fn set(self, language: LearningLanguage, p: LanguageProgress) -> LearningProgressStore {
        match language {
            LearningLanguage::English => LearningProgressStore { english: p, ..self },
            LearningLanguage::Japanese => LearningProgressStore { japanese: p, ..self },
            LearningLanguage::Chinese => LearningProgressStore { chinese: p, ..self },
        }
    }

    /// Empty progress for every language.
    pub fn new() -> (r: LearningProgressStore)
        ensures
            forall|l: LearningLanguage| {
                &&& (#[trigger] r.get(l)).skill == 0
                &&& r.get(l).topic_history@.len() == 0
                &&& r.get(l).selected_topic == 0
            },
    {
        LearningProgressStore {
            english: LanguageProgress::new(),
            japanese: LanguageProgress::new(),
            chinese: LanguageProgress::new(),
        }
    }

    /// The progress of `language`.
    pub fn for_language(&self, language: LearningLanguage) -> (r: &LanguageProgress)
        ensures
            *r == self.get(language),
    {
        match language {
            LearningLanguage::English => &self.english,
            LearningLanguage::Japanese => &self.japanese,
            LearningLanguage::Chinese => &self.chinese,
        }
    }

    /// The progress of `language`, to change in place; the other languages
    /// stay as they are.
    pub fn for_language_mut(&mut self, language: LearningLanguage) -> (r: &mut LanguageProgress)
        ensures
            *r == old(self).get(language),
            *final(self) == old(self).set(language, *final(r)),
    {
        match language {
            LearningLanguage::English => &mut self.english,
            LearningLanguage::Japanese => &mut self.japanese,
            LearningLanguage::Chinese => &mut self.chinese,
        }
    }
}

impl LearningProgressStore {
    /// The same progress in every language.
    pub open spec fn same_as(self, other: LearningProgressStore) -> bool {
        forall|l: LearningLanguage| #[trigger] self.get(l).same_as(other.get(l))
    }

    /// A copy of the progress of every language.
    pub fn duplicate(&self) -> (r: LearningProgressStore)
        ensures
            r.same_as(*self),
    {
        let r = LearningProgressStore {
            english: self.english.duplicate(),
            japanese: self.japanese.duplicate(),
            chinese: self.chinese.duplicate(),
        };
        assert forall|l: LearningLanguage| #[trigger] r.get(l).same_as(self.get(l)) by {
            match l {
                LearningLanguage::English => {},
                LearningLanguage::Japanese => {},
                LearningLanguage::Chinese => {},
            }
        }
        r
    }
}

impl Default for LearningProgressStore {
    fn default() -> (r: LearningProgressStore)
        ensures
            forall|l: LearningLanguage| {
                &&& (#[trigger] r.get(l)).skill == 0
                &&& r.get(l).topic_history@.len() == 0
                &&& r.get(l).selected_topic == 0
            },
    {
        LearningProgressStore::new()
    }
}

} // verus!
