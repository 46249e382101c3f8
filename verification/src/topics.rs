//! What the history tells the word generator: the terms already known and
//! the topics studied most recently.

use vstd::prelude::*;
use crate::app::App;
use crate::model::{TopicRecord, WordItem};
use crate::order::{contains_text, has_text};
use crate::text::{lowercase_text, normalize_term, normalize_topic, trim, trimmed};

verus! {

/// The key under which two terms or topics count as the same.
pub open spec fn text_key(t: Seq<char>) -> Seq<char> {
    lowercase_text(trim(t))
}

/// The words of all topics, topic after topic.
pub open spec fn all_words(history: Seq<TopicRecord>) -> Seq<WordItem>
    decreases history.len(),
{
    if history.len() == 0 {
        seq![]
    } else {
        all_words(history.drop_last()) + history.last().words@
    }
}

/// Some word of `words` has the key `k`.
pub open spec fn key_used(words: Seq<WordItem>, k: Seq<char>) -> bool {
    exists|j: int| 0 <= j < words.len() && #[trigger] text_key(words[j].term@) == k
}

/// The terms whose key is non-empty and did not occur before, in order.
pub open spec fn first_terms(words: Seq<WordItem>) -> Seq<Seq<char>>
    decreases words.len(),
{
    if words.len() == 0 {
        seq![]
    } else {
        let prev = words.drop_last();
        let k = text_key(words.last().term@);
        let rest = first_terms(prev);
        if k.len() > 0 && !key_used(prev, k) {
            rest.push(words.last().term@)
        } else {
            rest
        }
    }
}

/// The topics of a history, newest first.
pub open spec fn newest_first(history: Seq<TopicRecord>) -> Seq<Seq<char>> {
    Seq::new(history.len(), |i: int| history[history.len() - 1 - i].topic@)
}

/// Some topic of `topics` is non-blank and has the key `k`.
pub open spec fn topic_key_used(topics: Seq<Seq<char>>, k: Seq<char>) -> bool {
    exists|j: int|
        0 <= j < topics.len() && trim(topics[j]).len() > 0 && #[trigger] text_key(trim(topics[j])) == k
}

/// The trimmed topics that are non-blank and whose key did not occur before,
/// in order.
pub open spec fn distinct_topics(topics: Seq<Seq<char>>) -> Seq<Seq<char>>
    decreases topics.len(),
{
    if topics.len() == 0 {
        seq![]
    } else {
        let prev = topics.drop_last();
        let t = trim(topics.last());
        let k = text_key(t);
        let rest = distinct_topics(prev);
        if t.len() > 0 && !topic_key_used(prev, k) {
            rest.push(t)
        } else {
            rest
        }
    }
}

/// At least one topic is listed even for a limit of 0.
pub open spec fn effective_limit(limit: usize) -> nat {
    if limit == 0 { 1 } else { limit as nat }
}

/// `v` lists the first terms of the words of `history`.
pub open spec fn lists_known_terms(history: Seq<TopicRecord>, v: Seq<String>) -> bool {
    &&& v.len() == first_terms(all_words(history)).len()
    &&& forall|i: int| 0 <= i < v.len() ==> #[trigger] v[i]@ == first_terms(all_words(history))[i]
}

/// `v` lists up to `limit` (at least one) distinct recent topics of
/// `history`, newest first.
pub open spec fn lists_recent_topics(history: Seq<TopicRecord>, limit: usize, v: Seq<String>) -> bool {
    let d = distinct_topics(newest_first(history));
    &&& v.len() == if effective_limit(limit) < d.len() { effective_limit(limit) } else { d.len() }
    &&& forall|i: int| 0 <= i < v.len() ==> #[trigger] v[i]@ == d[i]
}

proof fn lemma_all_words_step(history: Seq<TopicRecord>, i: int)
    requires
        0 <= i < history.len(),
    ensures
        all_words(history.take(i + 1)) == all_words(history.take(i)) + history[i].words@,
{
    assert(history.take(i + 1).drop_last() =~= history.take(i));
}

proof fn lemma_distinct_topics_prefix(topics: Seq<Seq<char>>, n: int, m: int)
    requires
        0 <= n <= m <= topics.len(),
    ensures
        distinct_topics(topics.take(n)).len() <= distinct_topics(topics.take(m)).len(),
        distinct_topics(topics.take(n)) == distinct_topics(topics.take(m)).take(
            distinct_topics(topics.take(n)).len() as int,
        ),
    decreases m - n,
{
    if n < m {
        lemma_distinct_topics_prefix(topics, n, m - 1);
        assert(topics.take(m).drop_last() =~= topics.take(m - 1));
        let a = distinct_topics(topics.take(n));
        let b = distinct_topics(topics.take(m - 1));
        let c = distinct_topics(topics.take(m));
        if c.len() == b.len() + 1 {
            assert(c.drop_last() == b);
            assert(b.take(a.len() as int) =~= c.take(a.len() as int));
        } else {
            assert(c == b);
        }
    } else {
        assert(distinct_topics(topics.take(n)).take(distinct_topics(topics.take(n)).len() as int)
            =~= distinct_topics(topics.take(n)));
    }
}

impl App {
    /// The terms of all topics of the current language, each key once, in
    /// the order they were first met.
    pub fn known_terms(&self) -> (r: Vec<String>)
        ensures
            lists_known_terms(self.progress_now().topic_history@, r@),
    {
        let history = &self.current_progress().topic_history;
        let ghost h = history@;
        let mut seen: Vec<String> = Vec::new();
        let mut terms: Vec<String> = Vec::new();
        let mut ri: usize = 0;
        while ri < history.len()
            invariant
                h == history@,
                ri <= h.len(),
                terms@.len() == first_terms(all_words(h.take(ri as int))).len(),
                forall|i: int| 0 <= i < terms@.len() ==> #[trigger] terms@[i]@ == first_terms(all_words(h.take(ri as int)))[i],
                forall|t: Seq<char>|
                    #[trigger] has_text(seen@, t) <==> (t.len() > 0 && key_used(all_words(h.take(ri as int)), t)),
            decreases h.len() - ri,
        {
            let words = &history[ri].words;
            let ghost base = all_words(h.take(ri as int));
            let mut wi: usize = 0;
            assert(words@.take(0) =~= Seq::<WordItem>::empty());
            assert(base + words@.take(0) =~= base);
            while wi < words.len()
                invariant
                    h == history@,
                    ri < h.len(),
                    words@ == h[ri as int].words@,
                    base == all_words(h.take(ri as int)),
                    wi <= words@.len(),
                    terms@.len() == first_terms(base + words@.take(wi as int)).len(),
                    forall|i: int| 0 <= i < terms@.len() ==> #[trigger] terms@[i]@ == first_terms(base + words@.take(wi as int))[i],
                    forall|t: Seq<char>|
                        #[trigger] has_text(seen@, t) <==> (t.len() > 0 && key_used(base + words@.take(wi as int), t)),
                decreases words@.len() - wi,
            {
                let word = &words[wi];
                let key = normalize_term(word.term.as_str());
                let ghost prefix = base + words@.take(wi as int);
                let ghost next = base + words@.take(wi + 1);
                assert(next =~= prefix.push(words@[wi as int]));
                assert(next.drop_last() =~= prefix);
                let is_new = !key.as_str().is_empty() && !contains_text(&seen, &key);
                let ghost prev_seen = seen@;
                let ghost prev_terms = terms@;
                if is_new {
                    terms.push(word.term.clone());
                    seen.push(key);
                }
                proof {
                    assert(text_key(words@[wi as int].term@) == key@);
                    assert(next[prefix.len() as int] == words@[wi as int]);
                    assert(text_key(next[prefix.len() as int].term@) == key@);
                    if is_new {
                        assert(seen@[seen@.len() - 1]@ == key@);
                    }
                    assert forall|t: Seq<char>| #[trigger] has_text(seen@, t) <==> (t.len() > 0 && key_used(next, t)) by {
                        if has_text(prev_seen, t) {
                            let k = choose|k: int| 0 <= k < prev_seen.len() && #[trigger] prev_seen[k]@ == t;
                            assert(seen@[k] == prev_seen[k]);
                            let j = choose|j: int| 0 <= j < prefix.len() && #[trigger] text_key(prefix[j].term@) == t;
                            assert(next[j] == prefix[j]);
                        }
                        if has_text(seen@, t) && !has_text(prev_seen, t) {
                            let k = choose|k: int| 0 <= k < seen@.len() && #[trigger] seen@[k]@ == t;
                            if k < prev_seen.len() {
                                assert(seen@[k] == prev_seen[k]);
                            }
                            assert(t == key@);
                        }
                        if t.len() > 0 && key_used(next, t) {
                            let j = choose|j: int| 0 <= j < next.len() && #[trigger] text_key(next[j].term@) == t;
                            if j < prefix.len() {
                                assert(prefix[j] == next[j]);
                                assert(key_used(prefix, t));
                                assert(has_text(prev_seen, t));
                                let k = choose|k: int| 0 <= k < prev_seen.len() && #[trigger] prev_seen[k]@ == t;
                                assert(seen@[k] == prev_seen[k]);
                            } else {
                                assert(t == key@);
                            }
                        }
                    }
                    assert forall|i: int| 0 <= i < terms@.len() implies #[trigger] terms@[i]@ == first_terms(next)[i] by {
                        if i < prev_terms.len() {
                            assert(terms@[i] == prev_terms[i]);
                        }
                    }
                }
                wi = wi + 1;
            }
            proof {
                lemma_all_words_step(h, ri as int);
                assert(words@.take(words@.len() as int) =~= words@);
            }
            ri = ri + 1;
        }
        assert(h.take(h.len() as int) =~= h);
        terms
    }

    /// Up to `limit` (at least one) distinct recent topics of the current
    /// language, newest first, trimmed.
    pub fn recent_topics(&self, limit: usize) -> (r: Vec<String>)
        ensures
            lists_recent_topics(self.progress_now().topic_history@, limit, r@),
    {
        let history = &self.current_progress().topic_history;
        let ghost h = history@;
        let ghost ts = newest_first(h);
        let ghost lim = effective_limit(limit);
        let n = history.len();
        let mut seen: Vec<String> = Vec::new();
        let mut topics: Vec<String> = Vec::new();
        let mut c: usize = 0;
        while c < n
            invariant
                h == history@,
                h == self.progress_now().topic_history@,
                n == h.len(),
                ts == newest_first(h),
                lim == effective_limit(limit),
                c <= n,
                topics@.len() == distinct_topics(ts.take(c as int)).len(),
                topics@.len() < lim,
                forall|i: int| 0 <= i < topics@.len() ==> #[trigger] topics@[i]@ == distinct_topics(ts.take(c as int))[i],
                forall|t: Seq<char>|
                    #[trigger] has_text(seen@, t) <==> (t.len() > 0 && topic_key_used(ts.take(c as int), t)),
            decreases n - c,
        {
            let record = &history[n - 1 - c];
            let ghost prefix = ts.take(c as int);
            let ghost next = ts.take(c + 1);
            assert(next =~= prefix.push(record.topic@));
            assert(next.drop_last() =~= prefix);
            let topic = trimmed(record.topic.as_str());
            let key = normalize_topic(topic.as_str());
            let ghost prev_seen = seen@;
            let ghost prev_topics = topics@;
            proof {
                crate::text::lemma_trim_idempotent(record.topic@);
                assert(topic@.len() > 0 ==> key@.len() > 0);
            }
            let is_new = !topic.as_str().is_empty() && !key.as_str().is_empty() && !contains_text(&seen, &key);
            if is_new {
                topics.push(topic);
                seen.push(key);
            }
            proof {
                assert(next[prefix.len() as int] == record.topic@);
                assert(trim(next[prefix.len() as int]) == topic@);
                if is_new {
                    assert(seen@[seen@.len() - 1]@ == key@);
                    assert(text_key(trim(next[prefix.len() as int])) == key@);
                }
                assert forall|t: Seq<char>| #[trigger] has_text(seen@, t) <==> (t.len() > 0 && topic_key_used(next, t)) by {
                    if has_text(prev_seen, t) {
                        let k = choose|k: int| 0 <= k < prev_seen.len() && #[trigger] prev_seen[k]@ == t;
                        assert(seen@[k] == prev_seen[k]);
                        let j = choose|j: int|
                            0 <= j < prefix.len() && trim(prefix[j]).len() > 0 && #[trigger] text_key(trim(prefix[j])) == t;
                        assert(next[j] == prefix[j]);
                    }
                    if has_text(seen@, t) && !has_text(prev_seen, t) {
                        let k = choose|k: int| 0 <= k < seen@.len() && #[trigger] seen@[k]@ == t;
                        if k < prev_seen.len() {
                            assert(seen@[k] == prev_seen[k]);
                        }
                        assert(t == key@);
                    }
                    if t.len() > 0 && topic_key_used(next, t) {
                        let j = choose|j: int|
                            0 <= j < next.len() && trim(next[j]).len() > 0 && #[trigger] text_key(trim(next[j])) == t;
                        if j < prefix.len() {
                            assert(prefix[j] == next[j]);
                            assert(topic_key_used(prefix, t));
                            assert(has_text(prev_seen, t));
                            let k = choose|k: int| 0 <= k < prev_seen.len() && #[trigger] prev_seen[k]@ == t;
                            assert(seen@[k] == prev_seen[k]);
                        } else {
                            assert(t == key@);
                        }
                    }
                }
                assert forall|i: int| 0 <= i < topics@.len() implies #[trigger] topics@[i]@ == distinct_topics(next)[i] by {
                    if i < prev_topics.len() {
                        assert(topics@[i] == prev_topics[i]);
                    }
                }
            }
            c = c + 1;
            if topics.len() as u128 >= (if limit == 0 { 1 } else { limit }) as u128 {
                proof {
                    assert(topics@.len() == lim);
                    assert(next == ts.take(c as int));
                    lemma_distinct_topics_prefix(ts, c as int, n as int);
                    assert(ts.take(n as int) =~= ts);
                    let d = distinct_topics(ts);
                    let dc = distinct_topics(next);
                    assert(dc.len() == lim);
                    assert(dc == d.take(lim as int));
                    assert forall|i: int| 0 <= i < topics@.len() implies #[trigger] topics@[i]@ == d[i] by {
                        assert(topics@[i]@ == dc[i]);
                    }
                    assert(h == self.progress_now().topic_history@);
                }
                return topics;
            }
        }
        assert(ts.take(n as int) =~= ts);
        topics
    }
}

} // verus!
