use jaturi::app::{App, InputField, Screen};
use jaturi::display::{
    field_look, masked_api_key, profile_lines, quiz_title, review_line, review_lines, score_line, study_title,
    topic_line, topic_list_lines, FieldLook,
};
use jaturi::keys::{handle_key_event, Key, KeyPress};
use jaturi::language::LearningLanguage;
use jaturi::model::{LanguageProgress, TopicRecord, WordItem};
use jaturi::quiz::QuizReviewItem;
use jaturi::text::{mask_term, strip_newlines};

fn word(term: &str, meaning: &str) -> WordItem {
    WordItem { term: term.to_string(), meaning_ko: meaning.to_string() }
}

fn record(topic: &str, words: Vec<WordItem>) -> TopicRecord {
    TopicRecord {
        topic: topic.to_string(),
        words,
        last_score: None,
        passed: false,
        skill_reward_stage: 0,
        study_completed_once: false,
    }
}

fn ok_save(_: &App) -> Result<(), String> {
    Ok(())
}

fn press(key: Key) -> KeyPress {
    KeyPress { key, control: false }
}

fn studied_app() -> App {
    let mut app = App::new("kim".to_string());
    app.api_key = "sk-live".to_string();
    app.total_xp = 130;
    app.learning_language = LearningLanguage::Japanese;
    let mut first = record("동물", vec![word("ねこ", "고양이"), word("いぬ", "개")]);
    first.last_score = Some((2, 2));
    first.passed = true;
    first.skill_reward_stage = 2;
    first.study_completed_once = true;
    app.progress.japanese =
        LanguageProgress { skill: 2, topic_history: vec![first, record("음식", vec![word("すし", "초밥")])], selected_topic: 1 };
    app.progress.english = LanguageProgress {
        skill: 1,
        topic_history: vec![record("과일", vec![word("apple", "사과")])],
        selected_topic: 0,
    };
    app
}

fn same_record(a: &TopicRecord, b: &TopicRecord) -> bool {
    a.topic == b.topic
        && a.words.len() == b.words.len()
        && a.words.iter().zip(b.words.iter()).all(|(x, y)| x.term == y.term && x.meaning_ko == y.meaning_ko)
        && a.last_score == b.last_score
        && a.passed == b.passed
        && a.skill_reward_stage == b.skill_reward_stage
        && a.study_completed_once == b.study_completed_once
}

fn same_progress(a: &LanguageProgress, b: &LanguageProgress) -> bool {
    a.skill == b.skill
        && a.selected_topic == b.selected_topic
        && a.topic_history.len() == b.topic_history.len()
        && a.topic_history.iter().zip(b.topic_history.iter()).all(|(x, y)| same_record(x, y))
}

#[test]
fn saved_state_copies_the_session() {
    let app = studied_app();
    let saved = app.saved_state();
    assert_eq!(saved.version, 5);
    assert_eq!(saved.profile_name, "kim");
    assert_eq!(saved.total_xp, 130);
    assert_eq!(saved.learning_language, LearningLanguage::Japanese);
    assert_eq!(saved.api_key, "sk-live");
    assert!(same_progress(&saved.progress.japanese, &app.progress.japanese));
    assert!(same_progress(&saved.progress.english, &app.progress.english));
    assert!(same_progress(&saved.progress.chinese, &app.progress.chinese));
}

#[test]
fn restoring_a_saved_clean_session_gives_it_back() {
    let app = studied_app();
    let saved = app.saved_state();
    let mut restored = App::new("someone".to_string());
    assert_eq!(restored.load_persisted_state(64, Some((saved, 64)), None, None, None), Ok(()));
    assert_eq!(restored.profile_name, app.profile_name);
    assert_eq!(restored.total_xp, app.total_xp);
    assert_eq!(restored.learning_language, app.learning_language);
    assert_eq!(restored.api_key, app.api_key);
    assert!(same_progress(&restored.progress.japanese, &app.progress.japanese));
    assert!(same_progress(&restored.progress.english, &app.progress.english));
    assert!(same_progress(&restored.progress.chinese, &app.progress.chinese));
}

#[test]
fn restoring_drops_topics_that_are_not_clean() {
    let mut app = studied_app();
    app.progress.english.topic_history.push(record("문장", vec![word("two words", "두 단어")]));
    let saved = app.saved_state();
    let mut restored = App::new("someone".to_string());
    assert_eq!(restored.load_persisted_state(64, Some((saved, 64)), None, None, None), Ok(()));
    assert_eq!(restored.progress.english.topic_history.len(), 1);
    assert_eq!(restored.progress.english.topic_history[0].topic, "과일");
}

#[test]
fn studying_a_topic_again_earns_half() {
    let mut app = studied_app();
    app.active_topic = Some(1);
    app.reward_study_completion();
    assert_eq!(app.total_xp, 140);
    assert!(app.progress.japanese.topic_history[1].study_completed_once);
    app.reward_study_completion();
    assert_eq!(app.total_xp, 145);
    app.active_topic = None;
    app.reward_study_completion();
    assert_eq!(app.total_xp, 155);
}

#[test]
fn quiz_rewards_count_each_stage_once() {
    let mut app = studied_app();
    app.learning_language = LearningLanguage::English;
    app.start_quiz_for(0);
    assert_eq!(app.active_topic, Some(0));
    assert_eq!(app.quiz_questions.len(), 1);
    // A wrong answer reaches no stage.
    app.selected_option = 1;
    app.typed_answer = "pear".to_string();
    app.answer_current(&ok_save);
    assert_eq!(app.progress.english.skill, 1);
    assert_eq!(app.progress.english.topic_history[0].skill_reward_stage, 0);
    // A perfect quiz climbs both stages at once.
    app.start_quiz();
    let answer = app.quiz_questions[0].answer.clone();
    match answer {
        jaturi::quiz::QuizAnswer::Choice(i) => app.selected_option = i,
        jaturi::quiz::QuizAnswer::Text(t) => app.typed_answer = t,
    }
    app.answer_current(&ok_save);
    assert_eq!(app.progress.english.skill, 3);
    assert_eq!(app.progress.english.topic_history[0].skill_reward_stage, 2);
    assert!(app.progress.english.topic_history[0].passed);
    // A later failure keeps the pass mark and the stage.
    app.start_quiz();
    app.selected_option = 1;
    app.typed_answer = String::new();
    app.answer_current(&ok_save);
    assert_eq!(app.progress.english.skill, 3);
    assert_eq!(app.progress.english.topic_history[0].skill_reward_stage, 2);
    assert!(app.progress.english.topic_history[0].passed);
    assert_eq!(app.progress.english.topic_history[0].last_score, Some((0, 1)));
}

#[test]
fn stripping_line_breaks_twice_changes_nothing() {
    let once = strip_newlines("a\r\nb\nc\r");
    assert_eq!(once, "abc");
    assert_eq!(strip_newlines(&once), once);
    assert_eq!(strip_newlines("\n\r\n"), "");
}

#[test]
fn spelling_hints_keep_length_and_ends() {
    let hint = mask_term("elephant");
    assert_eq!(hint, "e______t");
    assert_eq!(hint.chars().count(), 8);
    assert_eq!(mask_term("t-shirt"), "t-____t");
    assert_eq!(mask_term("ab"), "__");
}

#[test]
fn setup_focus_moves_back_to_where_it_was() {
    for start in [InputField::ApiKey, InputField::ProfileName, InputField::LearningLanguage] {
        for delta in [-4isize, -1, 1, 2, 5] {
            let mut app = App::new("kim".to_string());
            app.focused = start;
            app.move_setup_focus(delta);
            app.move_setup_focus(-delta);
            assert_eq!(app.focused, start);
        }
    }
    let mut app = App::new("kim".to_string());
    handle_key_event(press(Key::Down), &mut app, &ok_save);
    assert_eq!(app.focused, InputField::ProfileName);
    handle_key_event(press(Key::Up), &mut app, &ok_save);
    assert_eq!(app.focused, InputField::ApiKey);
    handle_key_event(press(Key::BackTab), &mut app, &ok_save);
    assert_eq!(app.focused, InputField::LearningLanguage);
}

#[test]
fn topic_selection_never_leaves_the_history() {
    let mut app = studied_app();
    app.screen = Screen::Main;
    app.move_topic_selection(isize::MAX);
    assert_eq!(app.current_selected_topic(), 1);
    app.move_topic_selection(isize::MIN + 1);
    assert_eq!(app.current_selected_topic(), 0);
    app.progress.japanese.selected_topic = 40;
    app.move_topic_selection(-1);
    assert_eq!(app.current_selected_topic(), 0);
}

#[test]
fn api_key_is_shown_masked() {
    assert_eq!(masked_api_key(""), "(input your OpenAI API key)");
    assert_eq!(masked_api_key("sk-12"), "*****");
    assert_eq!(masked_api_key(&"k".repeat(45)), "*".repeat(40));
    assert_eq!(masked_api_key("키"), "***");
}

#[test]
fn topic_lines_show_selection_status_and_score() {
    let app = studied_app();
    let first = &app.progress.japanese.topic_history[0];
    assert_eq!(topic_line(0, 1, first), "  topic: 동물  words: 2  status: passed  score: 2/2");
    let second = &app.progress.japanese.topic_history[1];
    assert_eq!(topic_line(1, 1, second), "> topic: 음식  words: 1  status: in progress");
}

#[test]
fn review_lines_number_from_one() {
    let item = QuizReviewItem {
        label: "뜻 맞추기: cat".to_string(),
        user_answer: "개".to_string(),
        correct_answer: "고양이".to_string(),
        is_correct: false,
    };
    assert_eq!(review_line(0, &item), "1. [X] 뜻 맞추기: cat | 내 답: 개 | 정답: 고양이");
    let right = QuizReviewItem { is_correct: true, ..item };
    assert_eq!(review_line(9, &right), "10. [O] 뜻 맞추기: cat | 내 답: 개 | 정답: 고양이");
}

#[test]
fn profile_panel_lines() {
    let app = App::new("kim".to_string());
    assert_eq!(
        profile_lines(&app),
        vec![
            "이름: kim".to_string(),
            "학습 언어: 영어".to_string(),
            "전체 XP: 0 (다음 레벨까지 120 XP)".to_string(),
            "레벨: 1 (레벨 진행 0/120)".to_string(),
            "언어 실력(영어): 0".to_string(),
        ]
    );
    let app = studied_app();
    assert_eq!(
        profile_lines(&app),
        vec![
            "이름: kim".to_string(),
            "학습 언어: 일본어".to_string(),
            "전체 XP: 130 (다음 레벨까지 140 XP)".to_string(),
            "레벨: 2 (레벨 진행 10/150)".to_string(),
            "언어 실력(일본어): 2".to_string(),
        ]
    );
}

#[test]
fn screen_titles() {
    assert_eq!(study_title(0, 10), "Study Mode (1/10)");
    assert_eq!(quiz_title(4, 10, 3), "Quiz (5/10)  Score: 3");
    assert_eq!(score_line(7, 10), "정답: 7/10");
}

#[test]
fn setup_fields_show_focus_and_editing() {
    let mut app = App::new("kim".to_string());
    assert_eq!(field_look(&app, InputField::ApiKey), FieldLook::Focused);
    assert_eq!(field_look(&app, InputField::ProfileName), FieldLook::Plain);
    app.setup_editing = true;
    assert_eq!(field_look(&app, InputField::ApiKey), FieldLook::Editing);
    assert_eq!(field_look(&app, InputField::LearningLanguage), FieldLook::Plain);
}

#[test]
fn topic_and_review_lists() {
    let empty = App::new("kim".to_string());
    assert_eq!(topic_list_lines(&empty), vec!["저장된 주제가 없습니다. N으로 새 주제를 생성하세요.".to_string()]);
    assert_eq!(review_lines(&empty.quiz_reviews), vec!["문제 결과가 없습니다".to_string()]);
    let app = studied_app();
    assert_eq!(
        topic_list_lines(&app),
        vec![
            "  topic: 동물  words: 2  status: passed  score: 2/2".to_string(),
            "> topic: 음식  words: 1  status: in progress".to_string(),
        ]
    );
    let reviews = vec![
        QuizReviewItem {
            label: "철자 입력: cat".to_string(),
            user_answer: "cat".to_string(),
            correct_answer: "cat".to_string(),
            is_correct: true,
        },
        QuizReviewItem {
            label: "빈칸 채우기: dog".to_string(),
            user_answer: "(미선택)".to_string(),
            correct_answer: "dog".to_string(),
            is_correct: false,
        },
    ];
    assert_eq!(
        review_lines(&reviews),
        vec![
            "1. [O] 철자 입력: cat | 내 답: cat | 정답: cat".to_string(),
            "2. [X] 빈칸 채우기: dog | 내 답: (미선택) | 정답: dog".to_string(),
        ]
    );
}

#[test]
fn every_non_blank_topic_with_a_new_key_is_listed() {
    let mut app = App::new("kim".to_string());
    for topic in ["ß", " İ ", "Σ", "ς", "  "] {
        app.progress.english.topic_history.push(record(topic, vec![word("apple", "사과")]));
    }
    assert_eq!(app.recent_topics(10), vec!["ς", "Σ", "İ", "ß"]);
}
