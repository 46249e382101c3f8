use jaturi::language::{
    app_level_band, default_learning_language, is_chinese_char, is_japanese_char, is_single_word_term,
    language_skill_band, LearningLanguage,
};
use jaturi::level::{level_progress_from_xp, xp_required_for_next_level};
use jaturi::order::{sorted_unique, text_less};
use jaturi::text::{
    decimal_string, eq_ignore_ascii_case, is_blank, mask_term, normalize_term, normalize_topic, strip_newlines, trimmed,
};

#[test]
fn trimmed_removes_unicode_whitespace_at_both_ends() {
    assert_eq!(trimmed("  apple \n"), "apple");
    assert_eq!(trimmed("\u{3000}사과\u{00A0}"), "사과");
    assert_eq!(trimmed("a b"), "a b");
    assert_eq!(trimmed(" \t "), "");
}

#[test]
fn blank_texts() {
    assert!(is_blank(""));
    assert!(is_blank(" \r\n\t"));
    assert!(!is_blank(" x "));
}

#[test]
fn strip_newlines_drops_line_breaks_only() {
    assert_eq!(strip_newlines("sk-\r\nabc\n"), "sk-abc");
    assert_eq!(strip_newlines("a b"), "a b");
    let once = strip_newlines("x\ny\r");
    assert_eq!(strip_newlines(&once), once);
}

#[test]
fn mask_term_keeps_ends_and_non_letters() {
    assert_eq!(mask_term("apple"), "a___e");
    assert_eq!(mask_term("co-op"), "c_-_p");
    assert_eq!(mask_term("ab"), "__");
    assert_eq!(mask_term("a"), "__");
    assert_eq!(mask_term("ねこです"), "ねこです");
    assert_eq!(mask_term("abc").chars().count(), 3);
}

#[test]
fn decimal_rendering() {
    assert_eq!(decimal_string(0), "0");
    assert_eq!(decimal_string(7), "7");
    assert_eq!(decimal_string(1203), "1203");
    assert_eq!(decimal_string(u64::MAX), u64::MAX.to_string());
}

#[test]
fn ascii_case_comparison() {
    assert!(eq_ignore_ascii_case("LocalHost", "localhost"));
    assert!(!eq_ignore_ascii_case("localhost1", "localhost"));
    assert!(!eq_ignore_ascii_case("é", "É"));
}

#[test]
fn normalize_term_trims_and_lowercases() {
    assert_eq!(normalize_term("  HeLLo "), "hello");
    assert_eq!(normalize_term("ÉCOLE"), "école");
    assert_eq!(normalize_term("   "), "");
}

#[test]
fn normalize_topic_trims_and_lowercases() {
    assert_eq!(normalize_topic("\t Daily Life \n"), "daily life");
    assert_eq!(normalize_topic("여행"), "여행");
}

#[test]
fn language_names() {
    assert_eq!(LearningLanguage::English.display_name_ko(), "영어");
    assert_eq!(LearningLanguage::Japanese.display_name_ko(), "일본어");
    assert_eq!(LearningLanguage::Chinese.display_name_ko(), "중국어");
    assert_eq!(LearningLanguage::Chinese.term_language_name(), "Chinese");
    assert_eq!(LearningLanguage::topic_language_name(), "Korean");
    assert_eq!(default_learning_language(), LearningLanguage::English);
}

#[test]
fn rotation_wraps_both_ways() {
    assert_eq!(LearningLanguage::English.rotate(1), LearningLanguage::Japanese);
    assert_eq!(LearningLanguage::English.rotate(-1), LearningLanguage::Chinese);
    assert_eq!(LearningLanguage::Chinese.rotate(1), LearningLanguage::English);
    assert_eq!(LearningLanguage::Japanese.rotate(3), LearningLanguage::Japanese);
    assert_eq!(LearningLanguage::Japanese.rotate(-7), LearningLanguage::English);
    for l in [LearningLanguage::English, LearningLanguage::Japanese, LearningLanguage::Chinese] {
        for d in [-5isize, -1, 0, 2, 4] {
            assert_eq!(l.rotate(d).rotate(-d), l);
        }
    }
}

#[test]
fn script_classes() {
    assert!(is_japanese_char('ね'));
    assert!(is_japanese_char('カ'));
    assert!(is_japanese_char('猫'));
    assert!(!is_japanese_char('a'));
    assert!(is_chinese_char('猫'));
    assert!(!is_chinese_char('ね'));
}

#[test]
fn single_word_terms() {
    assert!(is_single_word_term("apple", LearningLanguage::English));
    assert!(is_single_word_term("  well-being ", LearningLanguage::English));
    assert!(is_single_word_term("don't", LearningLanguage::English));
    assert!(!is_single_word_term("ice cream", LearningLanguage::English));
    assert!(!is_single_word_term("café", LearningLanguage::English));
    assert!(!is_single_word_term("   ", LearningLanguage::English));
    assert!(is_single_word_term("ねこ", LearningLanguage::Japanese));
    assert!(is_single_word_term("勉強", LearningLanguage::Japanese));
    assert!(!is_single_word_term("neko", LearningLanguage::Japanese));
    assert!(!is_single_word_term("猫 犬", LearningLanguage::Japanese));
    assert!(is_single_word_term("学习", LearningLanguage::Chinese));
    assert!(!is_single_word_term("ねこ", LearningLanguage::Chinese));
    assert!(!is_single_word_term("学习a", LearningLanguage::Chinese));
}

#[test]
fn difficulty_bands() {
    assert_eq!(language_skill_band(0), "beginner");
    assert_eq!(language_skill_band(2), "beginner");
    assert_eq!(language_skill_band(3), "elementary");
    assert_eq!(language_skill_band(7), "intermediate");
    assert_eq!(language_skill_band(12), "advanced");
    assert_eq!(app_level_band(0), "advanced");
    assert_eq!(app_level_band(1), "beginner");
    assert_eq!(app_level_band(4), "intermediate");
    assert_eq!(app_level_band(8), "advanced");
}

#[test]
fn xp_needed_per_level() {
    assert_eq!(xp_required_for_next_level(0), 120);
    assert_eq!(xp_required_for_next_level(1), 120);
    assert_eq!(xp_required_for_next_level(2), 150);
    assert_eq!(xp_required_for_next_level(10), 390);
}

#[test]
fn level_progress_examples() {
    assert_eq!(level_progress_from_xp(0), (1, 0, 120, 120));
    assert_eq!(level_progress_from_xp(119), (1, 119, 120, 1));
    assert_eq!(level_progress_from_xp(120), (2, 0, 150, 150));
    assert_eq!(level_progress_from_xp(269), (2, 149, 150, 1));
    assert_eq!(level_progress_from_xp(270), (3, 0, 180, 180));
    let (level, inside, needed, missing) = level_progress_from_xp(u32::MAX);
    assert!(level > 1);
    assert!(inside < needed);
    assert_eq!(inside + missing, needed);
}

#[test]
fn level_never_drops_with_more_xp() {
    let mut last = 1;
    for xp in (0..5000u32).step_by(7) {
        let (level, _, _, _) = level_progress_from_xp(xp);
        assert!(level >= last);
        last = level;
    }
}

#[test]
fn text_order_and_sorted_unique() {
    assert!(text_less("apple", "banana"));
    assert!(text_less("app", "apple"));
    assert!(!text_less("apple", "apple"));
    assert!(text_less("Zebra", "apple"));
    let items = vec!["pear".to_string(), "apple".to_string(), "pear".to_string(), "fig".to_string()];
    assert_eq!(sorted_unique(items), vec!["apple", "fig", "pear"]);
}
