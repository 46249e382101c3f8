//! The saved state in each of its versions, and restoring a session from
//! the versions a saved file decodes to.

use vstd::prelude::*;
use vstd::string::*;
use crate::app::{
    lemma_sanitized_same, legacy_applied, progress_is_clean, progresses_sanitized, sanitized, App, Screen,
};
use crate::language::LearningLanguage;
use crate::model::{same_history, LearningProgressStore, TopicRecord};
use crate::text::{concat2, concat3, decimal, decimal_string, is_blank, owned, trim};

verus! {

/// The version written by this library.
pub const STATE_VERSION: u8 = 5;

/// The current saved state: progress per language and the API key.
#[derive(Debug)]
pub struct PersistedStateV5 {
    pub version: u8,
    pub profile_name: String,
    pub total_xp: u32,
    pub learning_language: LearningLanguage,
    pub progress: LearningProgressStore,
    pub api_key: String,
}

/// Progress per language, without the API key.
#[derive(Debug)]
pub struct PersistedStateV4 {
    pub version: u8,
    pub profile_name: String,
    pub total_xp: u32,
    pub learning_language: LearningLanguage,
    pub progress: LearningProgressStore,
}

/// Progress of one chosen language.
#[derive(Debug)]
pub struct PersistedStateV3 {
    pub version: u8,
    pub profile_name: String,
    pub total_xp: u32,
    pub english_skill: u32,
    pub topic_history: Vec<TopicRecord>,
    pub selected_topic: usize,
    pub learning_language: LearningLanguage,
}

/// Progress of English only.
#[derive(Debug)]
pub struct PersistedStateV2 {
    pub version: u8,
    pub profile_name: String,
    pub total_xp: u32,
    pub english_skill: u32,
    pub topic_history: Vec<TopicRecord>,
    pub selected_topic: usize,
}

/// A decoding that used every byte of the file and carries `version`.
pub open spec fn decoded_whole(used: usize, total_len: usize, version: u8, expected: u8) -> bool {
    used == total_len && version == expected
}

/// `after` holds the profile, progress and language given, with `api_key`
/// either the one given or empty, then cleaned up and normalized.
pub open spec fn state_restored(
    before: App,
    profile_name: String,
    total_xp: u32,
    progress: LearningProgressStore,
    learning_language: LearningLanguage,
    api_key: Option<String>,
    after: App,
) -> bool {
    exists|mid: App, cleaned: App|
        #![trigger progresses_sanitized(mid, cleaned)]
        mid == (App { profile_name, total_xp, progress, learning_language, api_key: mid.api_key, ..before })
            && match api_key {
            Some(k) => mid.api_key == k,
            None => mid.api_key@.len() == 0,
        } && progresses_sanitized(mid, cleaned) && after == cleaned.selection_normalized()
}

pub open spec fn unsupported_version_text(version: u8) -> Seq<char> {
    "지원하지 않는 상태 버전입니다: "@ + decimal(version as nat) + ", 기대값: 2, 3, 4 또는 5"@
}

/// Restoring from the decodings of a saved file of `total_len` bytes: the
/// newest version that decoded from the whole file with its own version
/// number wins; the oldest one is required otherwise, and its failures are
/// reported.
pub open spec fn restored(
    before: App,
    total_len: usize,
    v5: Option<(PersistedStateV5, usize)>,
    v4: Option<(PersistedStateV4, usize)>,
    v3: Option<(PersistedStateV3, usize)>,
    v2: Option<(PersistedStateV2, usize)>,
    after: App,
    r: Result<(), String>,
) -> bool {
    if v5 matches Some((s, used)) && decoded_whole(used, total_len, s.version, STATE_VERSION) {
        let (s, _u) = v5.unwrap();
        r is Ok && state_restored(before, s.profile_name, s.total_xp, s.progress, s.learning_language, Some(s.api_key), after)
    } else if v4 matches Some((s, used)) && decoded_whole(used, total_len, s.version, 4) {
        let (s, _u) = v4.unwrap();
        r is Ok && state_restored(before, s.profile_name, s.total_xp, s.progress, s.learning_language, None, after)
    } else if v3 matches Some((s, used)) && decoded_whole(used, total_len, s.version, 3) {
        let (s, _u) = v3.unwrap();
        r is Ok && legacy_applied(
            before,
            s.profile_name,
            s.total_xp,
            s.english_skill,
            s.topic_history,
            s.selected_topic,
            s.learning_language,
            after,
        )
    } else {
        match v2 {
            None => after == before && (r matches Err(e) && e@ == "학습 상태 파일 파싱 실패"@),
            Some((s, used)) => if used != total_len {
                after == before && (r matches Err(e) && e@ == "학습 상태 파일 끝에 불필요한 데이터가 있습니다"@)
            } else if s.version != 2 {
                after == before && (r matches Err(e) && e@ == unsupported_version_text(s.version))
            } else {
                r is Ok && legacy_applied(
                    before,
                    s.profile_name,
                    s.total_xp,
                    s.english_skill,
                    s.topic_history,
                    s.selected_topic,
                    LearningLanguage::English,
                    after,
                )
            },
        }
    }
}

/// The screen and message after trying to load the saved state: the main
/// screen when it was loaded, the reason when it could not be.
pub open spec fn load_reported(before: App, outcome: Result<bool, String>, after: App) -> bool {
    match outcome {
        Ok(true) => {
            &&& after == (App { screen: Screen::Main, message: after.message, ..before })
            &&& after.message@ == if trim(before.api_key@).len() == 0 {
                "이전 학습 기록을 불러왔습니다. N으로 새 주제 생성 시 API Key를 입력해 주세요"@
            } else {
                "이전 학습 기록과 API Key를 불러왔습니다."@
            }
        },
        Ok(false) => after == before,
        Err(e) => {
            &&& after == (App { message: after.message, ..before })
            &&& after.message@ == "저장된 학습 기록을 불러오지 못했습니다: "@ + e@
        },
    }
}

/// `s` is the state saved from `a`: the current version, with a copy of
/// its profile name, XP, language, progress and API key.
pub open spec fn saved_from(a: App, s: PersistedStateV5) -> bool {
    &&& s.version == STATE_VERSION
    &&& s.profile_name == a.profile_name
    &&& s.total_xp == a.total_xp
    &&& s.learning_language == a.learning_language
    &&& s.progress.same_as(a.progress)
    &&& s.api_key == a.api_key
}

impl App {
    fn restore_state(
        &mut self,
        profile_name: String,
        total_xp: u32,
        progress: LearningProgressStore,
        learning_language: LearningLanguage,
        api_key: Option<String>,
    )
        ensures
            state_restored(*old(self), profile_name, total_xp, progress, learning_language, api_key, *final(self)),
    {
        self.profile_name = profile_name;
        self.total_xp = total_xp;
        self.progress = progress;
        self.learning_language = learning_language;
        match api_key {
            Some(k) => self.api_key = k,
            None => self.api_key = String::new(),
        }
        let ghost mid = *self;
        self.sanitize_all_progresses();
        let ghost cleaned = *self;
        self.normalize_selection();
        assert(progresses_sanitized(mid, cleaned));
    }

    /// The state to save: the current version, the profile name, XP,
    /// language, progress of every language, and the API key.
    pub fn saved_state(&self) -> (r: PersistedStateV5)
        ensures
            saved_from(*self, r),
    {
        PersistedStateV5 {
            version: STATE_VERSION,
            profile_name: self.profile_name.clone(),
            total_xp: self.total_xp,
            learning_language: self.learning_language,
            progress: self.progress.duplicate(),
            api_key: self.api_key.clone(),
        }
    }

    /// Restores the session from the decodings of a saved file of
    /// `total_len` bytes, each given with the number of bytes it used, or
    /// `None` when that version did not decode.
    pub fn load_persisted_state(
        &mut self,
        total_len: usize,
        v5: Option<(PersistedStateV5, usize)>,
        v4: Option<(PersistedStateV4, usize)>,
        v3: Option<(PersistedStateV3, usize)>,
        v2: Option<(PersistedStateV2, usize)>,
    ) -> (r: Result<(), String>)
        ensures
            restored(*old(self), total_len, v5, v4, v3, v2, *final(self), r),
    {
        if let Some((state, used)) = v5 {
            if used == total_len && state.version == STATE_VERSION {
                self.restore_state(
                    state.profile_name,
                    state.total_xp,
                    state.progress,
                    state.learning_language,
                    Some(state.api_key),
                );
                return Ok(());
            }
        }
        if let Some((state, used)) = v4 {
            if used == total_len && state.version == 4 {
                self.restore_state(state.profile_name, state.total_xp, state.progress, state.learning_language, None);
                return Ok(());
            }
        }
        if let Some((state, used)) = v3 {
            if used == total_len && state.version == 3 {
                self.apply_legacy_single_progress(
                    state.profile_name,
                    state.total_xp,
                    state.english_skill,
                    state.topic_history,
                    state.selected_topic,
                    state.learning_language,
                );
                return Ok(());
            }
        }
        match v2 {
            None => Err(owned("학습 상태 파일 파싱 실패")),
            Some((legacy, used)) => {
                if used != total_len {
                    return Err(owned("학습 상태 파일 끝에 불필요한 데이터가 있습니다"));
                }
                if legacy.version != 2 {
                    let v = decimal_string(legacy.version as u64);
                    return Err(concat3("지원하지 않는 상태 버전입니다: ", v.as_str(), ", 기대값: 2, 3, 4 또는 5"));
                }
                self.apply_legacy_single_progress(
                    legacy.profile_name,
                    legacy.total_xp,
                    legacy.english_skill,
                    legacy.topic_history,
                    legacy.selected_topic,
                    crate::language::default_learning_language(),
                );
                Ok(())
            },
        }
    }

    /// Shows the outcome of loading the saved state: `Ok(true)` when it was
    /// loaded, `Ok(false)` when there was none, or the reason it failed.
    pub fn apply_load_outcome(&mut self, outcome: Result<bool, String>)
        ensures
            load_reported(*old(self), outcome, *final(self)),
    {
        match outcome {
            Ok(true) => {
                self.screen = Screen::Main;
                self.message = if is_blank(self.api_key.as_str()) {
                    owned("이전 학습 기록을 불러왔습니다. N으로 새 주제 생성 시 API Key를 입력해 주세요")
                } else {
                    owned("이전 학습 기록과 API Key를 불러왔습니다.")
                };
            },
            Ok(false) => {},
            Err(err) => {
                self.message = concat2("저장된 학습 기록을 불러오지 못했습니다: ", err.as_str());
            },
        }
    }

}

/// Restoring the state saved from a session whose histories are already
/// clean gives the session back: the same profile name, XP, language, API
/// key and progress in every language, whatever the older versions decoded
/// to.
pub proof fn law_restore_returns_saved(
    a: App,
    s: PersistedStateV5,
    before: App,
    total_len: usize,
    v4: Option<(PersistedStateV4, usize)>,
    v3: Option<(PersistedStateV3, usize)>,
    v2: Option<(PersistedStateV2, usize)>,
    after: App,
    r: Result<(), String>,
)
    requires
        saved_from(a, s),
        progress_is_clean(a.progress),
        restored(before, total_len, Some((s, total_len)), v4, v3, v2, after, r),
    ensures
        r is Ok,
        after.profile_name == a.profile_name,
        after.total_xp == a.total_xp,
        after.learning_language == a.learning_language,
        after.api_key == a.api_key,
        after.progress.same_as(a.progress),
{
    assert(decoded_whole(total_len, total_len, s.version, STATE_VERSION));
    let (mid, cleaned) = choose|mid: App, cleaned: App|
        #![trigger progresses_sanitized(mid, cleaned)]
        mid == (App {
            profile_name: s.profile_name,
            total_xp: s.total_xp,
            progress: s.progress,
            learning_language: s.learning_language,
            api_key: mid.api_key,
            ..before
        }) && mid.api_key == s.api_key && progresses_sanitized(mid, cleaned)
            && after == cleaned.selection_normalized();
    assert forall|l: LearningLanguage| #[trigger] after.progress.get(l).same_as(a.progress.get(l)) by {
        let ap = a.progress.get(l);
        let sp = s.progress.get(l);
        let cp = cleaned.progress.get(l);
        assert(sp.same_as(ap));
        assert(crate::app::sanitized_progress(mid.progress.get(l), cp, l));
        lemma_sanitized_same(sp.topic_history@, ap.topic_history@, l);
        assert(sanitized(ap.topic_history@, l) == ap.topic_history@);
        assert(same_history(cp.topic_history@, ap.topic_history@));
        assert(cp.selected_topic == ap.selected_topic);
    }
}

} // verus!
