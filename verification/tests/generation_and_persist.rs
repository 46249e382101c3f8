use jaturi::app::{App, Screen};
use jaturi::generation::{
    batch_prompts, check_batch, first_content, system_prompt, user_prompt, GenerationPayload, GenerationResult,
    WordCollector,
};
use jaturi::language::LearningLanguage;
use jaturi::model::{LanguageProgress, LearningProgressStore, TopicRecord, WordItem};
use jaturi::persist::{PersistedStateV2, PersistedStateV3, PersistedStateV4, PersistedStateV5};

fn word(term: &str, meaning: &str) -> WordItem {
    WordItem { term: term.to_string(), meaning_ko: meaning.to_string() }
}

fn record(topic: &str, words: Vec<WordItem>) -> TopicRecord {
    TopicRecord {
        topic: topic.to_string(),
        words,
        last_score: Some((3, 4)),
        passed: false,
        skill_reward_stage: 5,
        study_completed_once: true,
    }
}

fn payload(topic: &str, terms: &[&str]) -> GenerationPayload {
    GenerationPayload { topic: topic.to_string(), words: terms.iter().map(|t| word(t, "뜻")).collect() }
}

fn ok_save(_: &App) -> Result<(), String> {
    Ok(())
}

fn failing_save(_: &App) -> Result<(), String> {
    Err("no space".to_string())
}

fn strings(items: &[&str]) -> Vec<String> {
    items.iter().map(|s| s.to_string()).collect()
}

#[test]
fn collector_asks_for_missing_words_plus_four() {
    let c = WordCollector::new(10, &vec![], &vec![], LearningLanguage::English);
    assert_eq!(c.next_batch_size(), Some(14));
    assert!(c.fixed_topic().is_none());
}

#[test]
fn collector_keeps_new_single_words_of_one_topic() {
    let excluded = strings(&["  Apple ", "", "apple"]);
    let recent = strings(&["동물"]);
    let mut c = WordCollector::new(3, &excluded, &recent, LearningLanguage::English);
    assert_eq!(c.blocked.len(), 1);
    c.accept_batch(payload(" 동물 ", &["cat", "dog", "owl", "eel"]));
    assert!(c.collected.is_empty());
    assert!(c.generated_topic.is_none());
    assert_eq!(c.next_batch_size(), Some(7));
    c.accept_batch(payload(" 과일 ", &["APPLE", "ice cream", "pear", "Pear", ""]));
    assert_eq!(c.generated_topic.as_deref(), Some("과일"));
    let terms: Vec<&str> = c.collected.iter().map(|w| w.term.as_str()).collect();
    assert_eq!(terms, vec!["pear"]);
    c.accept_batch(payload("채소", &["kiwi", "plum"]));
    assert_eq!(c.collected.len(), 1);
    c.accept_batch(payload("", &["kiwi", "plum", "lime", "fig"]));
    let terms: Vec<&str> = c.collected.iter().map(|w| w.term.as_str()).collect();
    assert_eq!(terms, vec!["pear", "kiwi", "plum"]);
    assert_eq!(c.next_batch_size(), None);
    let result: GenerationResult = c.finish().expect("complete");
    assert_eq!(result.topic, "과일");
    assert_eq!(result.words.len(), 3);
    assert!(recent.iter().all(|t| t.trim().to_lowercase() != result.topic.trim().to_lowercase()));
}

#[test]
fn collector_gives_up_after_six_batches() {
    let mut c = WordCollector::new(2, &vec![], &vec![], LearningLanguage::English);
    for _ in 0..6 {
        assert!(c.next_batch_size().is_some());
        c.accept_batch(payload("주제", &["two words"]));
    }
    assert_eq!(c.next_batch_size(), None);
    let err = c.finish().err().expect("short");
    assert_eq!(
        err,
        "중복 없는 새 단어를 충분히 만들지 못했습니다: 요청 2, 생성 0. 최근 주제와 겹치지 않는 주제/단어가 부족할 수 있습니다. 생성된 주제: 주제"
    );
}

#[test]
fn collector_without_topic_reports_none() {
    let c = WordCollector::new(1, &vec![], &vec![], LearningLanguage::Japanese);
    assert_eq!(
        c.finish().err().unwrap(),
        "중복 없는 새 단어를 충분히 만들지 못했습니다: 요청 1, 생성 0. 최근 주제와 겹치지 않는 주제/단어가 부족할 수 있습니다. 생성된 주제: (주제 없음)"
    );
}

#[test]
fn prompts_embed_the_learner_and_recent_topics() {
    let recent = strings(&["동물", "say \"hi\""]);
    let (system, user) = batch_prompts(14, 3, 2, None, &recent, LearningLanguage::Japanese).unwrap();
    assert!(system.starts_with("You are a strict vocabulary generator for Korean learners."));
    assert!(system.contains("Every `term` must be one Japanese word with no spaces."));
    assert!(user.starts_with("Learner profile:\n- Learning language: Japanese\n- Language skill score: 3 (elementary)\n- App level: 2 (beginner)\n"));
    assert!(user.contains("- Recent 10 topics to avoid: [\"동물\",\"say \\\"hi\\\"\"]\n\n"));
    assert!(user.contains("Choose one practical topic and write `topic` in Korean."));
    assert!(user.contains("Generate exactly 14 vocabulary items."));
    let fixed = " 과일 ".to_string();
    let (_, user) = batch_prompts(5, 0, 9, Some(&fixed), &vec![], LearningLanguage::English).unwrap();
    assert!(user.contains("Use this exact topic for `topic`: \"과일\". Keep generating new words within this same topic."));
    assert!(user.contains("- Recent 10 topics to avoid: []\n"));
    assert!(user.contains("App level: 9 (advanced)"));
}

#[test]
fn prompts_in_full() {
    assert_eq!(
        system_prompt(LearningLanguage::Chinese),
        "You are a strict vocabulary generator for Korean learners. Return only JSON matching schema. `topic` must be in Korean. Every `term` must be one Chinese word with no spaces. `meaning_ko` must be Korean. Match vocabulary difficulty to both language skill score and app level. Never choose a topic that overlaps with the provided recent topics."
    );
    let topic = "여행".to_string();
    assert_eq!(
        user_prompt(12, 7, 4, Some(&topic), "[\"음식\"]", LearningLanguage::English),
        "Learner profile:\n- Learning language: English\n- Language skill score: 7 (intermediate)\n- App level: 4 (intermediate)\n- Recent 10 topics to avoid: [\"음식\"]\n\nUse this exact topic for `topic`: \"여행\". Keep generating new words within this same topic.\nGenerate exactly 12 vocabulary items.\nEach `term` must be exactly one English word and must not contain spaces.\n`meaning_ko` must be concise Korean meaning.\nDo not include words already used in beginner textbooks too frequently unless essential for the topic."
    );
    let (_, via_json) = batch_prompts(12, 7, 4, Some(&topic), &strings(&["음식"]), LearningLanguage::English).unwrap();
    assert_eq!(via_json, user_prompt(12, 7, 4, Some(&topic), "[\"음식\"]", LearningLanguage::English));
}

#[test]
fn batches_must_have_the_requested_size() {
    assert!(check_batch(payload("t", &["a", "b"]), 2).is_ok());
    assert_eq!(
        check_batch(payload("t", &["a"]), 2).err().unwrap(),
        "요청한 단어 수와 응답 단어 수가 다릅니다: 요청 2, 응답 1"
    );
}

#[test]
fn the_first_choice_carries_the_content() {
    assert_eq!(first_content(vec![Some("x".to_string()), None]).unwrap(), "x");
    assert_eq!(first_content(vec![None, Some("y".to_string())]).err().unwrap(), "OpenAI 응답에 content가 없습니다");
    assert_eq!(first_content(vec![]).err().unwrap(), "OpenAI 응답에 content가 없습니다");
}

#[test]
fn generated_topic_is_saved_and_studied() {
    let mut app = App::new("kim".to_string());
    let result = GenerationResult { topic: "과일".to_string(), words: vec![word("apple", "사과")] };
    app.apply_generation_outcome(Ok(result), &ok_save);
    assert_eq!(app.screen, Screen::Study);
    assert_eq!(app.active_topic, Some(0));
    assert_eq!(app.words.len(), 1);
    let failed = GenerationResult { topic: "동물".to_string(), words: vec![word("cat", "고양이")] };
    app.apply_generation_outcome(Ok(failed), &failing_save);
    assert_eq!(app.screen, Screen::Error);
    assert_eq!(app.topic_count(), 2);
    app.apply_generation_outcome(Err("timeout".to_string()), &ok_save);
    assert_eq!(app.message, "생성 실패: timeout");
    app.generation_channel_lost();
    assert_eq!(app.message, "내부 채널이 끊어졌습니다");
}

fn store_with(lang_records: Vec<TopicRecord>) -> LearningProgressStore {
    let mut store = LearningProgressStore::new();
    store.japanese = LanguageProgress { skill: 3, topic_history: lang_records, selected_topic: 8 };
    store
}

#[test]
fn newest_state_is_restored() {
    let mut app = App::new("kim".to_string());
    let v5 = PersistedStateV5 {
        version: 5,
        profile_name: "lee".to_string(),
        total_xp: 77,
        learning_language: LearningLanguage::Japanese,
        progress: store_with(vec![record("동물", vec![word("ねこ", "고양이")])]),
        api_key: "sk-9".to_string(),
    };
    assert_eq!(app.load_persisted_state(40, Some((v5, 40)), None, None, None), Ok(()));
    assert_eq!(app.profile_name, "lee");
    assert_eq!(app.total_xp, 77);
    assert_eq!(app.api_key, "sk-9");
    assert_eq!(app.progress.japanese.selected_topic, 0);
    assert_eq!(app.progress.japanese.topic_history[0].skill_reward_stage, 2);
    app.apply_load_outcome(Ok(true));
    assert_eq!(app.screen, Screen::Main);
    assert_eq!(app.message, "이전 학습 기록과 API Key를 불러왔습니다.");
}

#[test]
fn version_four_state_clears_the_key() {
    let mut app = App::new("kim".to_string());
    app.api_key = "old".to_string();
    let v5_wrong = PersistedStateV5 {
        version: 4,
        profile_name: "x".to_string(),
        total_xp: 1,
        learning_language: LearningLanguage::English,
        progress: LearningProgressStore::new(),
        api_key: "nope".to_string(),
    };
    let v4 = PersistedStateV4 {
        version: 4,
        profile_name: "park".to_string(),
        total_xp: 9,
        learning_language: LearningLanguage::English,
        progress: LearningProgressStore::new(),
    };
    assert_eq!(app.load_persisted_state(30, Some((v5_wrong, 30)), Some((v4, 30)), None, None), Ok(()));
    assert_eq!(app.profile_name, "park");
    assert_eq!(app.api_key, "");
    app.apply_load_outcome(Ok(true));
    assert_eq!(app.message, "이전 학습 기록을 불러왔습니다. N으로 새 주제 생성 시 API Key를 입력해 주세요");
}

#[test]
fn version_three_and_two_states_fill_one_language() {
    let mut app = App::new("kim".to_string());
    let v3 = PersistedStateV3 {
        version: 3,
        profile_name: "choi".to_string(),
        total_xp: 5,
        english_skill: 6,
        topic_history: vec![record("과일", vec![word("apple", "사과")])],
        selected_topic: 3,
        learning_language: LearningLanguage::English,
    };
    assert_eq!(app.load_persisted_state(20, None, None, Some((v3, 20)), None), Ok(()));
    assert_eq!(app.progress.english.skill, 6);
    assert_eq!(app.progress.english.selected_topic, 0);
    assert_eq!(app.progress.english.topic_history.len(), 1);

    let mut app = App::new("kim".to_string());
    let v2 = PersistedStateV2 {
        version: 2,
        profile_name: "jung".to_string(),
        total_xp: 8,
        english_skill: 1,
        topic_history: vec![],
        selected_topic: 0,
    };
    assert_eq!(app.load_persisted_state(20, None, None, None, Some((v2, 20))), Ok(()));
    assert_eq!(app.learning_language, LearningLanguage::English);
    assert_eq!(app.profile_name, "jung");
}

#[test]
fn unreadable_states_are_reported() {
    let mut app = App::new("kim".to_string());
    assert_eq!(app.load_persisted_state(3, None, None, None, None), Err("학습 상태 파일 파싱 실패".to_string()));
    let v2 = |version: u8| PersistedStateV2 {
        version,
        profile_name: "j".to_string(),
        total_xp: 0,
        english_skill: 0,
        topic_history: vec![],
        selected_topic: 0,
    };
    assert_eq!(
        app.load_persisted_state(9, None, None, None, Some((v2(2), 8))),
        Err("학습 상태 파일 끝에 불필요한 데이터가 있습니다".to_string())
    );
    assert_eq!(
        app.load_persisted_state(9, None, None, None, Some((v2(17), 9))),
        Err("지원하지 않는 상태 버전입니다: 17, 기대값: 2, 3, 4 또는 5".to_string())
    );
    assert_eq!(app.profile_name, "kim");
    app.apply_load_outcome(Err("boom".to_string()));
    assert_eq!(app.message, "저장된 학습 기록을 불러오지 못했습니다: boom");
    assert_eq!(app.screen, Screen::ApiKeySetup);
}
