use jaturi::app::{default_profile_name, sanitize_history, App, InputField, Screen};
use jaturi::keys::{handle_key_event, handle_paste_event, Key, KeyOutcome, KeyPress, GENERATED_WORD_COUNT};
use jaturi::language::LearningLanguage;
use jaturi::model::{TopicRecord, WordItem};
use jaturi::quiz::{
    is_case_flexible_exact_match, quiz_type_label, unique_meanings, unique_terms, QuizAnswer, QuizQuestion,
    QuizType,
};
use jaturi::quizgen::{build_quiz_questions, quiz_type_count, quiz_type_for_draw};

fn word(term: &str, meaning: &str) -> WordItem {
    WordItem { term: term.to_string(), meaning_ko: meaning.to_string() }
}

fn record(topic: &str, words: Vec<WordItem>) -> TopicRecord {
    TopicRecord {
        topic: topic.to_string(),
        words,
        last_score: None,
        passed: false,
        skill_reward_stage: 0,
        study_completed_once: false,
    }
}

fn ok_save(_: &App) -> Result<(), String> {
    Ok(())
}

fn failing_save(_: &App) -> Result<(), String> {
    Err("disk full".to_string())
}

fn press(key: Key) -> KeyPress {
    KeyPress { key, control: false }
}

fn fruit_words() -> Vec<WordItem> {
    vec![
        word("apple", "사과"),
        word("banana", "바나나"),
        word("cherry", "체리"),
        word("grape", "포도"),
        word("lemon", "레몬"),
    ]
}

fn app_with_topic() -> App {
    let mut app = App::new("tester".to_string());
    app.api_key = "sk-test".to_string();
    app.progress.english.topic_history.push(record("과일", fruit_words()));
    app.screen = Screen::Main;
    app
}

#[test]
fn quiz_labels_and_typed_matching() {
    assert_eq!(quiz_type_label(QuizType::MeaningChoice), "뜻 맞추기");
    assert_eq!(quiz_type_label(QuizType::FillBlankChoice), "빈칸 채우기");
    assert_eq!(quiz_type_label(QuizType::SpellingWrite), "철자 입력");
    assert!(is_case_flexible_exact_match("  Apple ", "apple"));
    assert!(is_case_flexible_exact_match("apple", " APPLE"));
    assert!(!is_case_flexible_exact_match("appl", "apple"));
    assert!(!is_case_flexible_exact_match("", "apple"));
}

#[test]
fn unique_candidates_are_sorted_distinct_and_exclude_the_word() {
    let words = vec![word("pear", "배"), word("apple", "사과"), word("pear", "배"), word("fig", "무화과")];
    assert_eq!(unique_terms(&words, 1), vec!["fig", "pear"]);
    assert_eq!(unique_terms(&words, 0), vec!["apple", "fig", "pear"]);
    assert_eq!(unique_meanings(&words, 3), vec!["배", "사과"]);
    assert!(unique_terms(&[], 0).is_empty());
}

fn check_question(words: &[WordItem], q: &QuizQuestion) {
    let w = words.iter().find(|w| w.term == q.target).expect("question about a word");
    match (&q.quiz_type, &q.answer) {
        (QuizType::MeaningChoice, QuizAnswer::Choice(i)) => {
            assert_eq!(q.options[*i], w.meaning_ko);
            assert_eq!(q.prompt, format!("'{}'의 한국어 뜻을 고르세요", w.term));
            assert_eq!(q.options.len(), 4);
        }
        (QuizType::FillBlankChoice, QuizAnswer::Choice(i)) => {
            assert_eq!(q.options[*i], w.term);
            assert!(q.prompt.starts_with("빈칸에 들어갈 단어를 고르세요\n한국어 뜻: "));
            assert!(q.prompt.ends_with(&jaturi::text::mask_term(&w.term)));
            assert_eq!(q.options.len(), 4);
        }
        (QuizType::SpellingWrite, QuizAnswer::Text(t)) => {
            assert_eq!(t, &w.term);
            assert!(q.options.is_empty());
        }
        _ => panic!("kind and answer do not fit"),
    }
    let mut sorted = q.options.clone();
    sorted.sort();
    sorted.dedup();
    assert_eq!(sorted.len(), q.options.len());
}

#[test]
fn quiz_has_one_question_per_word() {
    let words = fruit_words();
    for _ in 0..20 {
        let quiz = build_quiz_questions(&words, LearningLanguage::English);
        assert_eq!(quiz.len(), words.len());
        let mut targets: Vec<String> = quiz.iter().map(|q| q.target.clone()).collect();
        targets.sort();
        assert_eq!(targets, vec!["apple", "banana", "cherry", "grape", "lemon"]);
        for q in &quiz {
            check_question(&words, q);
        }
    }
}

#[test]
fn japanese_and_chinese_quizzes_have_no_spelling_questions() {
    let words = vec![word("ねこ", "고양이"), word("いぬ", "개"), word("とり", "새")];
    for language in [LearningLanguage::Japanese, LearningLanguage::Chinese] {
        for _ in 0..30 {
            for q in build_quiz_questions(&words, language) {
                assert!(q.quiz_type != QuizType::SpellingWrite);
                assert_eq!(q.options.len(), 3);
            }
        }
    }
}

#[test]
fn a_single_word_quiz_offers_only_the_answer() {
    let words = vec![word("apple", "사과")];
    for _ in 0..10 {
        let quiz = build_quiz_questions(&words, LearningLanguage::English);
        assert_eq!(quiz.len(), 1);
        match &quiz[0].answer {
            QuizAnswer::Choice(i) => {
                assert_eq!(*i, 0);
                assert_eq!(quiz[0].options.len(), 1);
            }
            QuizAnswer::Text(t) => assert_eq!(t, "apple"),
        }
    }
}

#[test]
fn profile_name_defaults() {
    assert_eq!(default_profile_name(Some("  kim \n".to_string())), "kim");
    assert_eq!(default_profile_name(Some("LOCALHOST".to_string())), "학습자");
    assert_eq!(default_profile_name(Some("   ".to_string())), "학습자");
    assert_eq!(default_profile_name(None), "학습자");
}

#[test]
fn new_session_starts_on_setup() {
    let app = App::new("kim".to_string());
    assert_eq!(app.screen, Screen::ApiKeySetup);
    assert_eq!(app.focused, InputField::ApiKey);
    assert_eq!(app.message, "API Key, 사용자 이름, 언어를 설정하고 Enter를 누르세요");
    assert_eq!(app.total_xp, 0);
    assert!(!app.pending_persist);
}

#[test]
fn xp_saturates_and_marks_pending() {
    let mut app = App::new("kim".to_string());
    app.add_xp(10);
    assert_eq!(app.total_xp, 10);
    assert!(app.pending_persist);
    app.total_xp = u32::MAX - 3;
    app.add_xp(10);
    assert_eq!(app.total_xp, u32::MAX);
}

#[test]
fn flush_clears_pending_or_reports_failure() {
    let mut app = App::new("kim".to_string());
    assert!(app.flush_pending_save(&failing_save));
    app.pending_persist = true;
    assert!(!app.flush_pending_save(&failing_save));
    assert_eq!(app.screen, Screen::Error);
    assert_eq!(app.message, "학습 상태 저장 실패: disk full. R: 다시 저장 시도 (저장 전까지 종료 불가)");
    assert!(app.pending_persist);
    assert!(app.flush_pending_save(&ok_save));
    assert!(!app.pending_persist);
}

#[test]
fn sanitizing_drops_invalid_topics_and_caps_stages() {
    let mut valid = record("과일", vec![word("apple", "사과")]);
    valid.skill_reward_stage = 7;
    let history = vec![
        record("빈 주제", vec![]),
        valid,
        record("구문", vec![word("ice cream", "아이스크림")]),
        record("동물", vec![word("cat", "고양이"), word("dog", "개")]),
    ];
    let cleaned = sanitize_history(history, LearningLanguage::English);
    assert_eq!(cleaned.len(), 2);
    assert_eq!(cleaned[0].topic, "과일");
    assert_eq!(cleaned[0].skill_reward_stage, 2);
    assert_eq!(cleaned[1].topic, "동물");
    let again = sanitize_history(cleaned.clone(), LearningLanguage::English);
    assert_eq!(again.len(), cleaned.len());
    assert_eq!(again[0].skill_reward_stage, 2);
}

#[test]
fn legacy_progress_is_moved_into_one_language() {
    let mut app = App::new("kim".to_string());
    let history = vec![record("과일", vec![word("apple", "사과")]), record("잘못", vec![word("two words", "x")])];
    app.apply_legacy_single_progress("lee".to_string(), 300, 4, history, 9, LearningLanguage::Japanese);
    assert_eq!(app.profile_name, "lee");
    assert_eq!(app.total_xp, 300);
    assert_eq!(app.learning_language, LearningLanguage::Japanese);
    assert_eq!(app.progress.japanese.skill, 4);
    assert!(app.progress.japanese.topic_history.is_empty());
    assert_eq!(app.progress.japanese.selected_topic, 0);
    assert!(app.active_topic.is_none());
}

#[test]
fn topic_selection_stops_at_the_ends() {
    let mut app = app_with_topic();
    app.progress.english.topic_history.push(record("동물", vec![word("cat", "고양이")]));
    app.move_topic_selection(-1);
    assert_eq!(app.current_selected_topic(), 0);
    app.move_topic_selection(1);
    assert_eq!(app.current_selected_topic(), 1);
    app.move_topic_selection(5);
    assert_eq!(app.current_selected_topic(), 1);
    app.progress.english.selected_topic = 40;
    app.move_topic_selection(-1);
    assert_eq!(app.current_selected_topic(), 0);
}

#[test]
fn setup_focus_and_language_cycle() {
    let mut app = App::new("kim".to_string());
    app.move_setup_focus(-1);
    assert_eq!(app.focused, InputField::LearningLanguage);
    app.move_setup_focus(1);
    assert_eq!(app.focused, InputField::ApiKey);
    app.adjust_language(-1);
    assert_eq!(app.learning_language, LearningLanguage::Chinese);
}

#[test]
fn setup_requires_key_and_name_before_saving() {
    let mut app = App::new("  ".to_string());
    app.setup_api_key(&ok_save);
    assert_eq!(app.message, "API Key를 입력해 주세요");
    app.api_key = "  sk-1 ".to_string();
    app.setup_api_key(&ok_save);
    assert_eq!(app.message, "사용자 이름을 입력해 주세요");
    assert_eq!(app.focused, InputField::ProfileName);
    app.profile_name = " kim ".to_string();
    app.setup_api_key(&ok_save);
    assert_eq!(app.api_key, "sk-1");
    assert_eq!(app.profile_name, "kim");
    assert_eq!(app.screen, Screen::Main);
    assert!(!app.pending_persist);
    assert_eq!(app.message, "N: 새 주제 생성, S: 학습, Q: 시험, K: 설정 수정");
}

#[test]
fn setup_save_failure_stays_pending() {
    let mut app = App::new("kim".to_string());
    app.api_key = "sk".to_string();
    app.setup_api_key(&failing_save);
    assert_eq!(app.screen, Screen::Error);
    assert!(app.pending_persist);
}

#[test]
fn setup_editing_keys() {
    let mut app = App::new("kim".to_string());
    handle_key_event(press(Key::Char('x')), &mut app, &ok_save);
    assert!(!app.setup_editing);
    handle_key_event(press(Key::Char('e')), &mut app, &ok_save);
    assert!(app.setup_editing);
    assert_eq!(app.message, "API Key 편집 중... Enter로 저장");
    handle_key_event(press(Key::Char('s')), &mut app, &ok_save);
    handle_key_event(press(Key::Char('k')), &mut app, &ok_save);
    handle_key_event(KeyPress { key: Key::Char('x'), control: true }, &mut app, &ok_save);
    assert_eq!(app.api_key, "sk");
    handle_key_event(press(Key::Backspace), &mut app, &ok_save);
    assert_eq!(app.api_key, "s");
    handle_paste_event(" -abc\r\n", &mut app);
    assert_eq!(app.api_key, "s -abc");
    handle_key_event(press(Key::Enter), &mut app, &ok_save);
    assert!(!app.setup_editing);
    assert_eq!(app.screen, Screen::Main);
    assert_eq!(app.api_key, "s -abc");
    assert!(!app.pending_persist);

    let mut app = App::new("kim".to_string());
    app.api_key = " sk-2 ".to_string();
    handle_key_event(press(Key::Up), &mut app, &ok_save);
    assert_eq!(app.focused, InputField::LearningLanguage);
    handle_key_event(press(Key::Char('E')), &mut app, &ok_save);
    assert_eq!(app.message, "언어 편집 중... Left/Right로 변경 후 Enter로 저장");
    handle_key_event(press(Key::Char('l')), &mut app, &ok_save);
    assert_eq!(app.learning_language, LearningLanguage::Japanese);
    handle_key_event(press(Key::Left), &mut app, &ok_save);
    assert_eq!(app.learning_language, LearningLanguage::English);
    handle_key_event(press(Key::Enter), &mut app, &ok_save);
    assert_eq!(app.screen, Screen::Main);
    assert_eq!(app.api_key, "sk-2");

    let mut app = App::new("kim".to_string());
    app.api_key = "sk-3".to_string();
    handle_key_event(press(Key::Char('S')), &mut app, &ok_save);
    assert_eq!(app.screen, Screen::Main);
}

#[test]
fn enter_on_setup_saves_and_opens_main() {
    let mut app = App::new(" lee ".to_string());
    app.api_key = "  sk-live  ".to_string();
    handle_key_event(press(Key::Enter), &mut app, &ok_save);
    assert_eq!(app.api_key, "sk-live");
    assert_eq!(app.profile_name, "lee");
    assert_eq!(app.screen, Screen::Main);
    assert!(!app.pending_persist);
    assert_eq!(app.message, "N: 새 주제 생성, S: 학습, Q: 시험, K: 설정 수정");

    let mut app = App::new("lee".to_string());
    handle_key_event(press(Key::Enter), &mut app, &ok_save);
    assert_eq!(app.screen, Screen::ApiKeySetup);
    assert_eq!(app.message, "API Key를 입력해 주세요");
}

#[test]
fn escape_quits_only_after_saving() {
    let mut app = app_with_topic();
    app.pending_persist = true;
    let outcome = handle_key_event(press(Key::Esc), &mut app, &failing_save);
    assert!(matches!(outcome, KeyOutcome::Done));
    assert!(!app.quit);
    assert_eq!(app.screen, Screen::Error);
    handle_key_event(press(Key::Char('q')), &mut app, &failing_save);
    assert!(!app.quit);
    assert_eq!(app.message, "저장되지 않은 변경이 있습니다. R로 저장 재시도 후 종료해 주세요");
    handle_key_event(press(Key::Char('r')), &mut app, &ok_save);
    assert!(!app.pending_persist);
    assert_eq!(app.screen, Screen::ApiKeySetup);
    assert_eq!(app.focused, InputField::ApiKey);
    assert!(!app.setup_editing);
    assert_eq!(app.message, "Up/Down으로 항목 선택, E로 편집, Enter로 저장");
    handle_key_event(press(Key::Esc), &mut app, &failing_save);
    assert!(app.quit);
}

#[test]
fn generation_needs_an_api_key() {
    let mut app = app_with_topic();
    app.api_key = "   ".to_string();
    handle_key_event(press(Key::Char('n')), &mut app, &ok_save);
    assert_eq!(app.screen, Screen::TopicCreate);
    assert_eq!(app.message, "Enter: AI가 주제와 단어를 자동 생성합니다 (10개)");
    let outcome = handle_key_event(press(Key::Enter), &mut app, &ok_save);
    assert!(matches!(outcome, KeyOutcome::Done));
    assert_eq!(app.screen, Screen::ApiKeySetup);
    assert_eq!(app.message, "API Key를 먼저 설정해 주세요");
}

#[test]
fn generation_request_describes_the_learner() {
    let mut app = app_with_topic();
    app.total_xp = 130;
    app.progress.english.skill = 5;
    app.progress.english.topic_history.push(record("  동물 ", vec![word("Apple", "사과"), word("cat", "고양이")]));
    app.screen = Screen::TopicCreate;
    let outcome = handle_key_event(press(Key::Enter), &mut app, &ok_save);
    assert_eq!(app.screen, Screen::Loading);
    match outcome {
        KeyOutcome::Generate(req) => {
            assert_eq!(req.count, GENERATED_WORD_COUNT);
            assert_eq!(req.api_key, "sk-test");
            assert_eq!(req.language_skill, 5);
            assert_eq!(req.current_level, 2);
            assert_eq!(req.excluded_terms, vec!["apple", "banana", "cherry", "grape", "lemon", "cat"]);
            assert_eq!(req.recent_topics, vec!["동물", "과일"]);
            assert_eq!(req.learning_language, LearningLanguage::English);
        }
        KeyOutcome::Done => panic!("expected a request"),
    }
}

#[test]
fn recent_topics_dedupe_and_limit() {
    let mut app = app_with_topic();
    app.progress.english.topic_history.push(record("과일 ", fruit_words()));
    app.progress.english.topic_history.push(record(" ", fruit_words()));
    app.progress.english.topic_history.push(record("Animals", fruit_words()));
    app.progress.english.topic_history.push(record("animals", fruit_words()));
    assert_eq!(app.recent_topics(10), vec!["animals", "과일"]);
    assert_eq!(app.recent_topics(1), vec!["animals"]);
    assert_eq!(app.recent_topics(0), vec!["animals"]);
}

#[test]
fn study_then_quiz_flow() {
    let mut app = app_with_topic();
    handle_key_event(press(Key::Enter), &mut app, &ok_save);
    assert_eq!(app.screen, Screen::Study);
    assert_eq!(app.active_topic, Some(0));
    assert_eq!(app.message, "Enter: 다음 단어, Q: 퀴즈 시작");
    for i in 1..5 {
        handle_key_event(press(Key::Enter), &mut app, &ok_save);
        assert_eq!(app.study_index, i);
    }
    handle_key_event(press(Key::Enter), &mut app, &ok_save);
    assert_eq!(app.total_xp, 10);
    assert!(app.progress.english.topic_history[0].study_completed_once);
    assert_eq!(app.screen, Screen::Quiz);
    assert_eq!(app.quiz_questions.len(), 5);
    assert_eq!(app.message, "문제 유형이 랜덤으로 출제됩니다");

    app.active_topic = Some(0);
    app.reward_study_completion();
    assert_eq!(app.total_xp, 15);
}

fn answer_all_correctly(app: &mut App) {
    while app.quiz_index < app.quiz_questions.len() {
        let question = app.quiz_questions[app.quiz_index].clone();
        match question.answer {
            QuizAnswer::Choice(i) => {
                for _ in 0..i {
                    handle_key_event(press(Key::Down), app, &ok_save);
                }
            }
            QuizAnswer::Text(t) => {
                handle_paste_event(&t.to_uppercase(), app);
            }
        }
        handle_key_event(press(Key::Enter), app, &ok_save);
    }
}

#[test]
fn perfect_quiz_reaches_the_top_stage_once() {
    let mut app = app_with_topic();
    handle_key_event(press(Key::Char('q')), &mut app, &ok_save);
    assert_eq!(app.screen, Screen::Quiz);
    answer_all_correctly(&mut app);
    assert_eq!(app.screen, Screen::Result);
    assert_eq!(app.score, 5);
    assert_eq!(app.quiz_reviews.len(), 5);
    assert!(app.quiz_reviews.iter().all(|r| r.is_correct));
    let record = &app.progress.english.topic_history[0];
    assert_eq!(record.last_score, Some((5, 5)));
    assert!(record.passed);
    assert_eq!(record.skill_reward_stage, 2);
    assert_eq!(app.progress.english.skill, 2);
    assert_eq!(app.total_xp, 5);
    assert_eq!(app.message, "복습 완료! +5 XP, 영어 실력 +2");

    app.start_quiz_for(0);
    answer_all_correctly(&mut app);
    assert_eq!(app.progress.english.skill, 2);
    assert_eq!(app.total_xp, 10);
    assert_eq!(app.message, "복습 완료! +5 XP");
}

#[test]
fn wrong_answers_are_reviewed() {
    let mut app = app_with_topic();
    handle_key_event(press(Key::Char('q')), &mut app, &ok_save);
    while app.quiz_index < app.quiz_questions.len() {
        let question = app.quiz_questions[app.quiz_index].clone();
        if let QuizAnswer::Choice(i) = question.answer {
            if i == 0 {
                handle_key_event(press(Key::Down), &mut app, &ok_save);
            }
        }
        handle_key_event(press(Key::Enter), &mut app, &ok_save);
    }
    assert_eq!(app.score, 0);
    assert!(app.quiz_reviews.iter().all(|r| !r.is_correct));
    let record = &app.progress.english.topic_history[0];
    assert_eq!(record.last_score, Some((0, 5)));
    assert!(!record.passed);
    assert_eq!(record.skill_reward_stage, 0);
    assert_eq!(app.progress.english.skill, 0);
    for review in &app.quiz_reviews {
        assert!(review.label.contains(": "));
        if review.user_answer == "(미입력)" {
            continue;
        }
        assert_ne!(review.user_answer, review.correct_answer);
    }
}

#[test]
fn result_screen_keys() {
    let mut app = app_with_topic();
    handle_key_event(press(Key::Char('q')), &mut app, &ok_save);
    answer_all_correctly(&mut app);
    handle_key_event(press(Key::Char('s')), &mut app, &ok_save);
    assert_eq!(app.screen, Screen::Study);
    app.screen = Screen::Result;
    handle_key_event(press(Key::Char('m')), &mut app, &ok_save);
    assert_eq!(app.screen, Screen::Main);
    assert_eq!(app.message, "N: 새 주제 생성, S: 학습, Q: 시험, K: 설정 수정, Enter: 학습");
    app.screen = Screen::Result;
    handle_key_event(press(Key::Char('R')), &mut app, &ok_save);
    assert_eq!(app.screen, Screen::ApiKeySetup);
    assert_eq!(app.focused, InputField::ApiKey);
    assert!(!app.setup_editing);
    app.screen = Screen::Result;
    app.pending_persist = true;
    handle_key_event(press(Key::Char('q')), &mut app, &ok_save);
    assert!(!app.quit);
    assert_eq!(app.message, "저장되지 않은 변경이 있습니다. R로 저장 재시도 후 종료해 주세요");
    app.pending_persist = false;
    handle_key_event(press(Key::Char('Q')), &mut app, &ok_save);
    assert!(app.quit);
}

#[test]
fn main_screen_without_topics_offers_creation() {
    let mut app = App::new("kim".to_string());
    app.screen = Screen::Main;
    handle_key_event(press(Key::Char('S')), &mut app, &ok_save);
    assert_eq!(app.screen, Screen::TopicCreate);
    app.screen = Screen::Main;
    handle_key_event(press(Key::Char('k')), &mut app, &ok_save);
    assert_eq!(app.screen, Screen::ApiKeySetup);
    assert_eq!(app.message, "Up/Down으로 항목 선택, E로 편집, Enter로 저장");
}

#[test]
fn saving_a_topic_selects_it() {
    let mut app = app_with_topic();
    let index = app.save_topic("동물".to_string(), vec![word("cat", "고양이")], &ok_save);
    assert_eq!(index, Some(1));
    assert_eq!(app.current_selected_topic(), 1);
    assert!(!app.pending_persist);
    let failed = app.save_topic("식물".to_string(), vec![word("tree", "나무")], &failing_save);
    assert_eq!(failed, None);
    assert_eq!(app.topic_count(), 3);
    assert_eq!(app.screen, Screen::Error);
}

#[test]
fn known_terms_skip_repeats_by_key() {
    let mut app = App::new("kim".to_string());
    app.progress.english.topic_history.push(record("a", vec![word(" Apple", "사과"), word("apple ", "사과")]));
    app.progress.english.topic_history.push(record("b", vec![word("  ", "?"), word("Pear", "배"), word("APPLE", "사과")]));
    assert_eq!(app.known_terms(), vec![" Apple", "Pear"]);
}

#[test]
fn drawn_numbers_pick_the_question_kind() {
    assert_eq!(quiz_type_count(LearningLanguage::English), 3);
    assert_eq!(quiz_type_count(LearningLanguage::Japanese), 2);
    assert_eq!(quiz_type_count(LearningLanguage::Chinese), 2);
    assert_eq!(quiz_type_for_draw(LearningLanguage::English, 0), QuizType::MeaningChoice);
    assert_eq!(quiz_type_for_draw(LearningLanguage::English, 1), QuizType::FillBlankChoice);
    assert_eq!(quiz_type_for_draw(LearningLanguage::English, 2), QuizType::SpellingWrite);
    assert_eq!(quiz_type_for_draw(LearningLanguage::Japanese, 0), QuizType::MeaningChoice);
    assert_eq!(quiz_type_for_draw(LearningLanguage::Chinese, 1), QuizType::FillBlankChoice);
}
