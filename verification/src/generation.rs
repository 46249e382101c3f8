//! Generating a topic's words: the prompts sent for each batch, the checks
//! on what comes back, and the collection of new, distinct single words
//! across batches.

use vstd::prelude::*;
use vstd::string::*;
use crate::app::{flushed, save_callable, App, Screen};
use crate::language::{
    is_single_word_term, language_skill_band, app_level_band, level_band_text,
    single_word, skill_band_text, term_language_text, LearningLanguage,
};
use crate::model::{LanguageProgress, WordItem};
use crate::order::{contains_text, has_text};
use crate::study::{new_record, topic_saved, topic_studied};
use crate::text::{concat2, concat3, decimal, decimal_string, normalize_term, normalize_topic, owned, trim, trimmed};
use crate::topics::text_key;

verus! {

/// How many batches are asked for at most.
pub const MAX_ATTEMPTS: usize = 6;

/// One batch as the generator returned it.
#[derive(Debug)]
pub struct GenerationPayload {
    pub topic: String,
    pub words: Vec<WordItem>,
}

/// A generated topic with its words.
#[derive(Debug)]
pub struct GenerationResult {
    pub topic: String,
    pub words: Vec<WordItem>,
}

/// The state of collecting words across batches.
#[derive(Debug)]
pub struct WordCollector {
    pub count: usize,
    pub learning_language: LearningLanguage,
    pub blocked: Vec<String>,
    pub excluded_count: usize,
    pub blocked_topics: Vec<String>,
    pub collected: Vec<WordItem>,
    pub generated_topic: Option<String>,
    pub attempts: usize,
}

#[verifier::external_type_specification]
#[verifier::external_body]
pub struct ExJsonError(serde_json::Error);

/// A name for what `serde_json::to_string` writes for a list of strings: a
/// JSON array of JSON string literals.
pub uninterp spec fn json_string_array(items: Seq<Seq<char>>) -> Seq<char>;

/// The texts of a list of strings.
pub open spec fn texts(v: Seq<String>) -> Seq<Seq<char>> {
    Seq::new(v.len(), |i: int| v[i]@)
}

/// Encodes `items` as JSON by `serde_json::to_string`. Claimed: it
/// succeeds, and the text is `json_string_array` of the items' texts. Its
/// documentation names only two ways to fail, a `Serialize` impl that fails
/// and a map with keys that are not strings, and neither can occur with a
/// list of `String`s.
#[verifier::external_body]
fn to_json_array(items: &Vec<String>) -> (r: Result<String, serde_json::Error>)
    ensures
        r is Ok,
        r matches Ok(s) ==> s@ == json_string_array(texts(items@)),
{
    serde_json::to_string(items)
}

/// The texts of `v` have no repeats.
pub open spec fn texts_distinct(v: Seq<String>) -> bool {
    forall|i: int, j: int| 0 <= i < j < v.len() ==> #[trigger] v[i]@ != #[trigger] v[j]@
}

/// `blocked` holds, once each, the non-empty keys of `items`.
pub open spec fn keys_of_items(blocked: Seq<String>, items: Seq<String>) -> bool {
    &&& texts_distinct(blocked)
    &&& forall|t: Seq<char>|
        #[trigger] has_text(blocked, t) <==> (t.len() > 0 && exists|i: int|
            0 <= i < items.len() && #[trigger] text_key(items[i]@) == t)
}

/// Words from `items` taken in order while fewer than `count` are
/// collected: those with a non-empty key not yet blocked that are one word
/// of `language`; each taken word's key is blocked from then on.
pub open spec fn absorbed(
    blocked: Seq<Seq<char>>,
    collected: Seq<WordItem>,
    items: Seq<WordItem>,
    count: nat,
    language: LearningLanguage,
) -> (Seq<Seq<char>>, Seq<WordItem>)
    decreases items.len(),
{
    if items.len() == 0 {
        (blocked, collected)
    } else {
        let w = items[0];
        let k = text_key(w.term@);
        if k.len() == 0 || blocked.contains(k) || !single_word(w.term@, language) {
            absorbed(blocked, collected, items.drop_first(), count, language)
        } else if collected.len() + 1 >= count {
            (blocked.push(k), collected.push(w))
        } else {
            absorbed(blocked.push(k), collected.push(w), items.drop_first(), count, language)
        }
    }
}

/// Whether a batch's topic is taken: the first one must be non-blank and
/// not a recent topic; later ones must be blank or the same as the first.
pub open spec fn topic_accepted(c: WordCollector, batch_topic: Seq<char>) -> bool {
    let topic = trim(batch_topic);
    let k = text_key(topic);
    match c.generated_topic {
        None => topic.len() > 0 && !has_text(c.blocked_topics@, k),
        Some(active) => k.len() == 0 || k == text_key(active@),
    }
}

pub open spec fn shortfall_text(count: usize, made: nat, topic: Seq<char>) -> Seq<char> {
    "중복 없는 새 단어를 충분히 만들지 못했습니다: 요청 "@ + decimal(count as nat) + ", 생성 "@ + decimal(made)
        + ". 최근 주제와 겹치지 않는 주제/단어가 부족할 수 있습니다. 생성된 주제: "@ + topic
}

pub open spec fn topic_instruction_text(fixed_topic: Option<Seq<char>>) -> Seq<char> {
    match fixed_topic {
        Some(t) => "Use this exact topic for `topic`: \""@ + trim(t) + "\". Keep generating new words within this same topic."@,
        None => "Choose one practical topic and write `topic` in Korean. The topic must be semantically different from all recent topics."@,
    }
}

/// The instructions to the generator that hold for every request.
pub open spec fn system_prompt_text(language: LearningLanguage) -> Seq<char> {
    "You are a strict vocabulary generator for Korean learners. Return only JSON matching schema. `topic` must be in Korean. Every `term` must be one "@
        + term_language_text(language)
        + " word with no spaces. `meaning_ko` must be Korean. Match vocabulary difficulty to both language skill score and app level. Never choose a topic that overlaps with the provided recent topics."@
}

/// The request for one batch, given the recent topics as JSON.
pub open spec fn user_prompt_text(
    count: usize,
    language_skill: u32,
    current_level: u32,
    fixed_topic: Option<Seq<char>>,
    recent_json: Seq<char>,
    language: LearningLanguage,
) -> Seq<char> {
    "Learner profile:\n- Learning language: "@ + term_language_text(language) + "\n- Language skill score: "@
        + decimal(language_skill as nat) + " ("@ + skill_band_text(language_skill) + ")\n- App level: "@
        + decimal(current_level as nat) + " ("@ + level_band_text(current_level)
        + ")\n- Recent 10 topics to avoid: "@ + recent_json + "\n\n"@ + topic_instruction_text(fixed_topic)
        + "\nGenerate exactly "@ + decimal(count as nat) + " vocabulary items.\nEach `term` must be exactly one "@
        + term_language_text(language)
        + " word and must not contain spaces.\n`meaning_ko` must be concise Korean meaning.\nDo not include words already used in beginner textbooks too frequently unless essential for the topic."@
}

/// What taking a batch with topic `topic` and words `words` does to the
/// words and the chosen topic: when the topic is taken, the batch's new
/// single words are collected and a topic is (or stays) chosen; otherwise
/// nothing of them changes.
pub open spec fn batch_outcome(before: WordCollector, topic: Seq<char>, words: Seq<WordItem>, after: WordCollector) -> bool {
    if topic_accepted(before, topic) {
        &&& (texts(after.blocked@), after.collected@) == absorbed(
            texts(before.blocked@),
            before.collected@,
            words,
            before.count as nat,
            before.learning_language,
        )
        &&& after.generated_topic matches Some(t) && t@ == match before.generated_topic {
            Some(a) => a@,
            None => trim(topic),
        }
    } else {
        &&& after.blocked == before.blocked
        &&& after.collected == before.collected
        &&& after.generated_topic == before.generated_topic
    }
}

impl WordCollector {
    /// The collection is consistent: each collected word is one word of the
    /// language with a non-empty key, and the blocked keys are the excluded
    /// ones followed by the keys of the collected words, all distinct.
    pub open spec fn wf(self) -> bool {
        &&& self.collected@.len() <= self.count
        &&& self.blocked@.len() == self.excluded_count + self.collected@.len()
        &&& texts_distinct(self.blocked@)
        &&& forall|i: int|
            0 <= i < self.collected@.len() ==> self.blocked@[self.excluded_count + i]@ == text_key(
                #[trigger] self.collected@[i].term@,
            )
        &&& forall|i: int| 0 <= i < self.blocked@.len() ==> (#[trigger] self.blocked@[i]@).len() > 0
        &&& forall|i: int|
            0 <= i < self.collected@.len() ==> single_word(#[trigger] self.collected@[i].term@, self.learning_language)
        &&& self.collected@.len() > 0 ==> self.generated_topic is Some
        &&& self.generated_topic matches Some(t) ==> t@ == trim(t@) && t@.len() > 0
        &&& self.generated_topic matches Some(t) ==> !has_text(self.blocked_topics@, text_key(t@))
        &&& self.generated_topic matches Some(t) ==> text_key(t@).len() > 0
    }

    /// The size of the next batch to ask for, or `None` when the words are
    /// complete or the attempts are used up.
    pub open spec fn next_batch_spec(self) -> Option<usize> {
        if self.attempts < MAX_ATTEMPTS && self.collected@.len() < self.count {
            let remaining = self.count - self.collected@.len();
            Some(if remaining + 4 <= usize::MAX { (remaining + 4) as usize } else { usize::MAX })
        } else {
            None
        }
    }

    /// A collection that blocks the keys of `excluded_terms` and the topics
    /// of `recent_topics`.
    pub fn new(
        count: usize,
        excluded_terms: &Vec<String>,
        recent_topics: &Vec<String>,
        learning_language: LearningLanguage,
    ) -> (r: WordCollector)
        ensures
            r.wf(),
            r.count == count,
            r.learning_language == learning_language,
            r.excluded_count == r.blocked@.len(),
            keys_of_items(r.blocked@, excluded_terms@),
            keys_of_items(r.blocked_topics@, recent_topics@),
            r.collected@.len() == 0,
            r.generated_topic is None,
            r.attempts == 0,
    {
        let blocked = distinct_keys(excluded_terms);
        let blocked_topics = distinct_keys(recent_topics);
        let excluded_count = blocked.len();
        WordCollector {
            count,
            learning_language,
            blocked,
            excluded_count,
            blocked_topics,
            collected: Vec::new(),
            generated_topic: None,
            attempts: 0,
        }
    }

    /// The size of the next batch: the missing words plus four, or `None`
    /// when no more batches are wanted.
    pub fn next_batch_size(&self) -> (r: Option<usize>)
        ensures
            r == self.next_batch_spec(),
    {
        if self.attempts < MAX_ATTEMPTS && self.collected.len() < self.count {
            let remaining = self.count - self.collected.len();
            Some(if remaining <= usize::MAX - 4 { remaining + 4 } else { usize::MAX })
        } else {
            None
        }
    }

    /// The topic later batches must keep, once one was taken.
    pub fn fixed_topic(&self) -> (r: Option<&String>)
        ensures
            r is Some == self.generated_topic is Some,
            r matches Some(t) ==> *t == self.generated_topic->0,
    {
        match &self.generated_topic {
            Some(t) => Some(t),
            None => None,
        }
    }

    /// Takes one batch: counts the attempt, checks its topic, and collects
    /// its new single words.
    pub fn accept_batch(&mut self, batch: GenerationPayload)
        requires
            old(self).wf(),
            old(self).attempts < MAX_ATTEMPTS,
            old(self).collected@.len() < old(self).count,
        ensures
            final(self).wf(),
            final(self).attempts == old(self).attempts + 1,
            final(self).count == old(self).count,
            final(self).learning_language == old(self).learning_language,
            final(self).excluded_count == old(self).excluded_count,
            final(self).blocked_topics == old(self).blocked_topics,
            forall|i: int| 0 <= i < old(self).blocked@.len() ==> #[trigger] final(self).blocked@[i] == old(self).blocked@[i],
            batch_outcome(*old(self), batch.topic@, batch.words@, *final(self)),
    {
        self.attempts = self.attempts + 1;
        let topic = trimmed(batch.topic.as_str());
        let topic_key = normalize_topic(topic.as_str());
        proof {
            assert(trim(trim(batch.topic@)) == trim(batch.topic@)) by {
                crate::text::lemma_trim_idempotent(batch.topic@);
            }
        }
        match &self.generated_topic {
            None => {
                if topic.as_str().is_empty() || contains_text(&self.blocked_topics, &topic_key) {
                    return;
                }
            },
            Some(active) => {
                let active_key = normalize_topic(active.as_str());
                if !topic_key.as_str().is_empty() && topic_key != active_key {
                    return;
                }
            },
        }
        if self.generated_topic.is_none() {
            self.generated_topic = Some(topic);
        }
        assert(topic_accepted(*old(self), batch.topic@));
        let ghost start_blocked = texts(self.blocked@);
        let ghost start_collected = self.collected@;
        let words = &batch.words;
        let mut i: usize = 0;
        assert(batch.words@.skip(0) =~= batch.words@);
        assert(texts(self.blocked@) =~= start_blocked);
        while i < words.len()
            invariant
                words@ == batch.words@,
                i <= words@.len(),
                self.wf(),
                self.collected@.len() < self.count,
                self.attempts == old(self).attempts + 1,
                self.count == old(self).count,
                self.learning_language == old(self).learning_language,
                self.excluded_count == old(self).excluded_count,
                self.blocked_topics == old(self).blocked_topics,
                self.generated_topic matches Some(t) && t@ == match old(self).generated_topic {
                    Some(a) => a@,
                    None => trim(batch.topic@),
                },
                start_blocked == texts(old(self).blocked@),
                start_collected == old(self).collected@,
                topic_accepted(*old(self), batch.topic@),
                old(self).blocked@.len() <= self.blocked@.len(),
                forall|j: int| 0 <= j < old(self).blocked@.len() ==> #[trigger] self.blocked@[j] == old(self).blocked@[j],
                absorbed(start_blocked, start_collected, batch.words@, self.count as nat, self.learning_language)
                    == absorbed(texts(self.blocked@), self.collected@, batch.words@.skip(i as int), self.count as nat, self.learning_language),
            decreases words@.len() - i,
        {
            let item = &words[i];
            let key = normalize_term(item.term.as_str());
            let ghost rest = batch.words@.skip(i as int);
            assert(rest[0] == words@[i as int]);
            assert(rest.drop_first() =~= batch.words@.skip(i + 1));
            let known = contains_text(&self.blocked, &key);
            proof {
                assert(known == texts(self.blocked@).contains(key@)) by {
                    if known {
                        let k = choose|k: int| 0 <= k < self.blocked@.len() && #[trigger] self.blocked@[k]@ == key@;
                        assert(texts(self.blocked@)[k] == key@);
                    }
                    if texts(self.blocked@).contains(key@) {
                        let k = choose|k: int| 0 <= k < texts(self.blocked@).len() && texts(self.blocked@)[k] == key@;
                        assert(self.blocked@[k]@ == key@);
                    }
                }
            }
            if key.as_str().is_empty() || known || !is_single_word_term(item.term.as_str(), self.learning_language) {
                i = i + 1;
                continue;
            }
            let ghost prev_blocked = self.blocked@;
            let ghost prev_collected = self.collected@;
            let ghost kv = key@;
            proof {
                assert(text_key(rest[0].term@) == kv);
                assert(!texts(prev_blocked).contains(kv));
                assert(single_word(rest[0].term@, self.learning_language));
            }
            self.blocked.push(key);
            self.collected.push(item.duplicate());
            proof {
                assert(texts(self.blocked@) =~= texts(prev_blocked).push(key@));
                assert forall|j: int| 0 <= j < old(self).blocked@.len() implies #[trigger] self.blocked@[j] == old(self).blocked@[j] by {
                    assert(self.blocked@[j] == prev_blocked[j]);
                }
                assert forall|a: int, b: int| 0 <= a < b < self.blocked@.len() implies #[trigger] self.blocked@[a]@
                    != #[trigger] self.blocked@[b]@ by {
                    if b == prev_blocked.len() {
                        assert(self.blocked@[a] == prev_blocked[a]);
                        assert(texts(prev_blocked)[a] == prev_blocked[a]@);
                    } else {
                        assert(self.blocked@[a] == prev_blocked[a]);
                        assert(self.blocked@[b] == prev_blocked[b]);
                    }
                }
                assert forall|j: int| 0 <= j < self.collected@.len() implies self.blocked@[self.excluded_count + j]@
                    == text_key(#[trigger] self.collected@[j].term@) by {
                    if j < prev_collected.len() {
                        assert(self.collected@[j] == prev_collected[j]);
                        assert(self.blocked@[self.excluded_count + j] == prev_blocked[self.excluded_count + j]);
                    }
                }
                assert forall|j: int| 0 <= j < self.blocked@.len() implies (#[trigger] self.blocked@[j]@).len() > 0 by {
                    if j < prev_blocked.len() {
                        assert(self.blocked@[j] == prev_blocked[j]);
                    }
                }
                assert forall|j: int| 0 <= j < self.collected@.len() implies single_word(
                    #[trigger] self.collected@[j].term@,
                    self.learning_language,
                ) by {
                    if j < prev_collected.len() {
                        assert(self.collected@[j] == prev_collected[j]);
                    }
                }
            }
            if self.collected.len() >= self.count {
                proof {
                    assert(self.collected@ =~= prev_collected.push(words@[i as int]));
                    assert(prev_collected.len() + 1 >= self.count);
                    assert(absorbed(texts(prev_blocked), prev_collected, rest, self.count as nat, self.learning_language)
                        == (texts(prev_blocked).push(kv), prev_collected.push(rest[0])));
                }
                return;
            }
            i = i + 1;
        }
        assert(batch.words@.skip(i as int) =~= Seq::<WordItem>::empty());
    }

    /// The generated topic and its words when exactly `count` words were
    /// collected; otherwise the reason.
    pub fn finish(self) -> (r: Result<GenerationResult, String>)
        requires
            self.wf(),
        ensures
            r is Ok <==> self.collected@.len() == self.count,
            r matches Ok(res) ==> {
                &&& res.words@ == self.collected@
                &&& res.topic@ == match self.generated_topic {
                    Some(t) => t@,
                    None => "AI 추천 주제"@,
                }
                &&& res.words@.len() == self.count
                &&& forall|i: int|
                    0 <= i < res.words@.len() ==> single_word(#[trigger] res.words@[i].term@, self.learning_language)
                        && text_key(res.words@[i].term@).len() > 0
                        && !has_text(self.blocked@.take(self.excluded_count as int), text_key(res.words@[i].term@))
                &&& forall|i: int, j: int|
                    0 <= i < j < res.words@.len() ==> text_key(#[trigger] res.words@[i].term@) != text_key(
                        #[trigger] res.words@[j].term@,
                    )
            },
            r matches Ok(res) ==> (self.count > 0 ==> self.generated_topic is Some && !has_text(
                self.blocked_topics@,
                text_key(res.topic@),
            ) && text_key(res.topic@).len() > 0),
            r matches Err(e) ==> e@ == shortfall_text(
                self.count,
                self.collected@.len(),
                match self.generated_topic {
                    Some(t) => t@,
                    None => "(주제 없음)"@,
                },
            ),
    {
        if self.collected.len() != self.count {
            let requested = decimal_string(self.count as u64);
            let made = decimal_string(self.collected.len() as u64);
            let used_topic = match &self.generated_topic {
                Some(t) => t.clone(),
                None => owned("(주제 없음)"),
            };
            let head = concat3("중복 없는 새 단어를 충분히 만들지 못했습니다: 요청 ", requested.as_str(), ", 생성 ");
            let mid = concat3(
                head.as_str(),
                made.as_str(),
                ". 최근 주제와 겹치지 않는 주제/단어가 부족할 수 있습니다. 생성된 주제: ",
            );
            return Err(concat2(mid.as_str(), used_topic.as_str()));
        }
        proof {
            let n = self.excluded_count as int;
            assert forall|i: int| 0 <= i < self.collected@.len() implies !has_text(
                self.blocked@.take(n),
                text_key(#[trigger] self.collected@[i].term@),
            ) by {
                if has_text(self.blocked@.take(n), text_key(self.collected@[i].term@)) {
                    let k = choose|k: int| 0 <= k < n && #[trigger] self.blocked@.take(n)[k]@ == text_key(self.collected@[i].term@);
                    assert(self.blocked@[k]@ == self.blocked@[n + i]@);
                }
            }
            assert forall|i: int, j: int| 0 <= i < j < self.collected@.len() implies text_key(
                #[trigger] self.collected@[i].term@,
            ) != text_key(#[trigger] self.collected@[j].term@) by {
                assert(self.blocked@[n + i]@ != self.blocked@[n + j]@);
            }
            assert forall|i: int| 0 <= i < self.collected@.len() implies text_key(#[trigger] self.collected@[i].term@).len() > 0 by {
                assert(self.blocked@[n + i]@.len() > 0);
            }
        }
        let topic = match self.generated_topic {
            Some(t) => t,
            None => owned("AI 추천 주제"),
        };
        Ok(GenerationResult { topic, words: self.collected })
    }
}

/// The non-empty keys of `items`, once each, in the order first met.
fn distinct_keys(items: &Vec<String>) -> (r: Vec<String>)
    ensures
        keys_of_items(r@, items@),
        forall|i: int| 0 <= i < r@.len() ==> (#[trigger] r@[i]@).len() > 0,
{
    let mut out: Vec<String> = Vec::new();
    let mut i: usize = 0;
    while i < items.len()
        invariant
            i <= items.len(),
            texts_distinct(out@),
            forall|k: int| 0 <= k < out@.len() ==> (#[trigger] out@[k]@).len() > 0,
            forall|t: Seq<char>|
                #[trigger] has_text(out@, t) <==> (t.len() > 0 && exists|j: int|
                    0 <= j < i && #[trigger] text_key(items@[j]@) == t),
        decreases items.len() - i,
    {
        let key = normalize_term(items[i].as_str());
        let ghost prev = out@;
        let present = contains_text(&out, &key);
        if !key.as_str().is_empty() && !present {
            out.push(key);
        }
        proof {
            let k = text_key(items@[i as int]@);
            assert(key@ == k);
            assert forall|a: int, b: int| 0 <= a < b < out@.len() implies #[trigger] out@[a]@ != #[trigger] out@[b]@ by {
                if b == prev.len() {
                    assert(out@[a] == prev[a]);
                } else {
                    assert(out@[a] == prev[a]);
                    assert(out@[b] == prev[b]);
                }
            }
            assert forall|m: int| 0 <= m < out@.len() implies (#[trigger] out@[m]@).len() > 0 by {
                if m < prev.len() {
                    assert(out@[m] == prev[m]);
                }
            }
            assert forall|t: Seq<char>| #[trigger] has_text(out@, t) <==> (t.len() > 0 && exists|j: int|
                0 <= j < i + 1 && #[trigger] text_key(items@[j]@) == t) by {
                if has_text(prev, t) {
                    let m = choose|m: int| 0 <= m < prev.len() && #[trigger] prev[m]@ == t;
                    assert(out@[m] == prev[m]);
                }
                if has_text(out@, t) && !has_text(prev, t) {
                    let m = choose|m: int| 0 <= m < out@.len() && #[trigger] out@[m]@ == t;
                    if m < prev.len() {
                        assert(out@[m] == prev[m]);
                    }
                    assert(t == k);
                }
                if t.len() > 0 && (exists|j: int| 0 <= j < i + 1 && #[trigger] text_key(items@[j]@) == t) {
                    let j = choose|j: int| 0 <= j < i + 1 && #[trigger] text_key(items@[j]@) == t;
                    if j == i {
                        if present {
                            assert(has_text(prev, t));
                        } else {
                            assert(out@[prev.len() as int]@ == t);
                        }
                    } else {
                        assert(has_text(prev, t));
                    }
                }
            }
        }
        i = i + 1;
    }
    out
}

/// The instructions to the generator for `learning_language`.
pub fn system_prompt(learning_language: LearningLanguage) -> (r: String)
    ensures
        r@ == system_prompt_text(learning_language),
{
    concat3(
        "You are a strict vocabulary generator for Korean learners. Return only JSON matching schema. `topic` must be in Korean. Every `term` must be one ",
        learning_language.term_language_name(),
        " word with no spaces. `meaning_ko` must be Korean. Match vocabulary difficulty to both language skill score and app level. Never choose a topic that overlaps with the provided recent topics.",
    )
}

/// The request for one batch, given the recent topics already written as
/// JSON.
pub fn user_prompt(
    count: usize,
    language_skill: u32,
    current_level: u32,
    fixed_topic: Option<&String>,
    recent_json: &str,
    learning_language: LearningLanguage,
) -> (r: String)
    ensures
        r@ == user_prompt_text(
            count,
            language_skill,
            current_level,
            match fixed_topic {
                Some(t) => Some(t@),
                None => None,
            },
            recent_json@,
            learning_language,
        ),
{
    let topic_instruction = match fixed_topic {
        Some(topic) => {
            let t = trimmed(topic.as_str());
            concat3(
                "Use this exact topic for `topic`: \"",
                t.as_str(),
                "\". Keep generating new words within this same topic.",
            )
        },
        None => owned(
            "Choose one practical topic and write `topic` in Korean. The topic must be semantically different from all recent topics.",
        ),
    };
    let language_name = learning_language.term_language_name();
    let mut user = owned("Learner profile:\n- Learning language: ");
    user.append(language_name);
    user.append("\n- Language skill score: ");
    let skill_text = decimal_string(language_skill as u64);
    user.append(skill_text.as_str());
    user.append(" (");
    user.append(language_skill_band(language_skill));
    user.append(")\n- App level: ");
    let level_text = decimal_string(current_level as u64);
    user.append(level_text.as_str());
    user.append(" (");
    user.append(app_level_band(current_level));
    user.append(")\n- Recent 10 topics to avoid: ");
    user.append(recent_json);
    user.append("\n\n");
    user.append(topic_instruction.as_str());
    user.append("\nGenerate exactly ");
    let count_text = decimal_string(count as u64);
    user.append(count_text.as_str());
    user.append(" vocabulary items.\nEach `term` must be exactly one ");
    user.append(language_name);
    user.append(
        " word and must not contain spaces.\n`meaning_ko` must be concise Korean meaning.\nDo not include words already used in beginner textbooks too frequently unless essential for the topic.",
    );
    user
}

/// What to ask for in one batch: the instructions, and the request with the
/// recent topics written as JSON. Writing a list of texts as JSON cannot
/// fail, so the result is always `Ok`.
pub fn batch_prompts(
    count: usize,
    language_skill: u32,
    current_level: u32,
    fixed_topic: Option<&String>,
    recent_topics: &Vec<String>,
    learning_language: LearningLanguage,
) -> (r: Result<(String, String), String>)
    ensures
        r is Ok,
        r matches Ok((system, user)) ==> {
            &&& system@ == system_prompt_text(learning_language)
            &&& user@ == user_prompt_text(
                count,
                language_skill,
                current_level,
                match fixed_topic {
                    Some(t) => Some(t@),
                    None => None,
                },
                json_string_array(texts(recent_topics@)),
                learning_language,
            )
        },
{
    let recent_topics_json = match to_json_array(recent_topics) {
        Ok(s) => s,
        Err(_) => {
            return Err(owned("최근 주제 직렬화 실패"));
        },
    };
    let user = user_prompt(
        count,
        language_skill,
        current_level,
        fixed_topic,
        recent_topics_json.as_str(),
        learning_language,
    );
    Ok((system_prompt(learning_language), user))
}

/// The batch, if it holds exactly the `count` words asked for.
pub fn check_batch(payload: GenerationPayload, count: usize) -> (r: Result<GenerationPayload, String>)
    ensures
        r is Ok <==> payload.words@.len() == count,
        r matches Ok(p) ==> p.topic == payload.topic && p.words == payload.words,
        r matches Err(e) ==> e@ == "요청한 단어 수와 응답 단어 수가 다릅니다: 요청 "@ + decimal(count as nat)
            + ", 응답 "@ + decimal(payload.words@.len()),
{
    if payload.words.len() != count {
        let requested = decimal_string(count as u64);
        let got = decimal_string(payload.words.len() as u64);
        let head = concat3("요청한 단어 수와 응답 단어 수가 다릅니다: 요청 ", requested.as_str(), ", 응답 ");
        return Err(concat2(head.as_str(), got.as_str()));
    }
    Ok(payload)
}

/// The content of the first choice of a reply, if it has one.
pub fn first_content(contents: Vec<Option<String>>) -> (r: Result<String, String>)
    ensures
        contents@.len() > 0 && contents@[0] is Some ==> r == Ok::<String, String>(contents@[0]->0),
        !(contents@.len() > 0 && contents@[0] is Some) ==> (r matches Err(e) && e@ == "OpenAI 응답에 content가 없습니다"@),
{
    let mut contents = contents;
    if contents.len() == 0 {
        return Err(owned("OpenAI 응답에 content가 없습니다"));
    }
    match contents.remove(0) {
        Some(c) => Ok(c),
        None => Err(owned("OpenAI 응답에 content가 없습니다")),
    }
}

/// What the session does with the outcome of a generation.
pub open spec fn generation_applied<F: Fn(&App) -> Result<(), String>>(
    save: &F,
    before: App,
    outcome: Result<GenerationResult, String>,
    after: App,
) -> bool {
    match outcome {
        Ok(output) => exists|saved: App, index: Option<usize>|
            #![trigger topic_saved(save, before, output.topic, output.words, saved, index)]
            topic_saved(save, before, output.topic, output.words, saved, index) && match index {
                Some(i) => topic_studied(saved, i, after),
                None => after == saved,
            },
        Err(e) => {
            &&& after == (App { screen: Screen::Error, message: after.message, ..before })
            &&& after.message@ == "생성 실패: "@ + e@
        },
    }
}

impl App {
    /// Keeps a generated topic and starts studying it once saved, or shows
    /// why generation failed.
    pub fn apply_generation_outcome<F: Fn(&App) -> Result<(), String>>(
        &mut self,
        outcome: Result<GenerationResult, String>,
        save: &F,
    )
        requires
            save_callable(save),
        ensures
            generation_applied(save, *old(self), outcome, *final(self)),
    {
        match outcome {
            Ok(output) => {
                let index = self.save_topic(output.topic, output.words, save);
                let ghost saved = *self;
                if let Some(i) = index {
                    self.start_study_for(i);
                }
                assert(topic_saved(save, *old(self), output.topic, output.words, saved, index));
            },
            Err(err) => {
                self.screen = Screen::Error;
                self.message = concat2("생성 실패: ", err.as_str());
            },
        }
    }

    /// Shows that the generation can no longer report back.
    pub fn generation_channel_lost(&mut self)
        ensures
            *final(self) == (App { screen: Screen::Error, message: final(self).message, ..*old(self) }),
            final(self).message@ == "내부 채널이 끊어졌습니다"@,
    {
        self.screen = Screen::Error;
        self.message = owned("내부 채널이 끊어졌습니다");
    }
}

/// A generated topic is appended as the newest topic of the current
/// language. When it was saved it is studied at once, with exactly the
/// generated words; otherwise the error screen shows.
pub proof fn law_generated_topic_studied<F: Fn(&App) -> Result<(), String>>(
    save: &F,
    before: App,
    res: GenerationResult,
    after: App,
)
    requires
        generation_applied(save, before, Ok(res), after),
    ensures
        after.learning_language == before.learning_language,
        after.progress_now().topic_history@ == before.progress_now().topic_history@.push(
            new_record(res.topic, res.words),
        ),
        after.screen == Screen::Study || after.screen == Screen::Error,
        after.screen == Screen::Study ==> {
            &&& after.words@ == res.words@
            &&& after.study_index == 0
            &&& after.active_topic == Some(before.progress_now().topic_history@.len() as usize)
        },
{
    let (saved, index) = choose|saved: App, index: Option<usize>|
        #![trigger topic_saved(save, before, res.topic, res.words, saved, index)]
        topic_saved(save, before, res.topic, res.words, saved, index) && match index {
            Some(i) => topic_studied(saved, i, after),
            None => after == saved,
        };
    let len = before.progress_now().topic_history@.len();
    let (mid, ok) = choose|mid: App, ok: bool|
        #![trigger flushed(save, mid, saved, ok)]
        mid == (App {
            pending_persist: true,
            ..before.with_progress(
                before.learning_language,
                LanguageProgress {
                    topic_history: mid.progress_now().topic_history,
                    selected_topic: len as usize,
                    ..before.progress_now()
                },
            )
        }) && mid.progress_now().topic_history@ == before.progress_now().topic_history@.push(
            new_record(res.topic, res.words),
        ) && flushed(save, mid, saved, ok) && index == (if ok { Some(len as usize) } else { None });
    assert(saved.progress_now().topic_history@ == mid.progress_now().topic_history@);
    if ok {
        let h = saved.progress_now().topic_history;
        assert(h@.len() == h.len());
        assert(len < usize::MAX);
        assert(topic_studied(saved, len as usize, after));
        assert(saved.progress_now().topic_history@[len as int] == new_record(res.topic, res.words));
    }
}

/// The topic of a collection that gathered at least one word is none of the
/// recent topics it was made with: its key differs from the key of every
/// recent topic.
pub proof fn law_generated_topic_not_recent(c: WordCollector, recent_topics: Seq<String>)
    requires
        c.wf(),
        keys_of_items(c.blocked_topics@, recent_topics),
        c.collected@.len() > 0,
    ensures
        c.generated_topic is Some,
        forall|i: int|
            0 <= i < recent_topics.len() ==> text_key(c.generated_topic->0@) != #[trigger] text_key(
                recent_topics[i]@,
            ),
{
    let t = c.generated_topic->0;
    assert forall|i: int| 0 <= i < recent_topics.len() implies text_key(t@) != #[trigger] text_key(
        recent_topics[i]@,
    ) by {
        if text_key(t@) == text_key(recent_topics[i]@) {
            assert(text_key(recent_topics[i]@).len() > 0);
            assert(has_text(c.blocked_topics@, text_key(recent_topics[i]@)));
        }
    }
}

/// Once a topic has been chosen, a batch whose topic has the same key as
/// the chosen one (trimmed and lowercased), or a blank topic, has its new
/// single words collected exactly as any taken batch, and the chosen topic
/// stays; only a batch on a different non-blank topic is skipped, leaving
/// the words and the topic as they were.
pub proof fn law_batch_on_chosen_topic(
    before: WordCollector,
    topic: Seq<char>,
    words: Seq<WordItem>,
    after: WordCollector,
)
    requires
        before.generated_topic is Some,
        batch_outcome(before, topic, words, after),
    ensures
        text_key(trim(topic)) == text_key(before.generated_topic->0@) || text_key(trim(topic)).len() == 0 ==> {
            &&& (texts(after.blocked@), after.collected@) == absorbed(
                texts(before.blocked@),
                before.collected@,
                words,
                before.count as nat,
                before.learning_language,
            )
            &&& after.generated_topic is Some
            &&& after.generated_topic->0@ == before.generated_topic->0@
        },
        text_key(trim(topic)).len() > 0 && text_key(trim(topic)) != text_key(before.generated_topic->0@) ==> {
            &&& after.collected == before.collected
            &&& after.blocked == before.blocked
            &&& after.generated_topic == before.generated_topic
        },
{
}

} // verus!
