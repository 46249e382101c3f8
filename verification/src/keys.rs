//! What each key and each paste does on each screen: the decisions of the
//! session, from state and event to next state and, when words must be
//! generated, the request to send.

use vstd::prelude::*;
use vstd::string::*;
use crate::app::{
    field_at, field_index, flushed, moved_selection, save_callable, App, InputField, Screen,
};
use crate::language::{rotated, LearningLanguage};
use crate::level::{is_level_of, level_progress_from_xp};
use crate::model::LanguageProgress;
use crate::quiz::QuizAnswer;
use crate::study::{answered, main_started, quiz_started, study_rewarded, topic_quizzed, topic_studied};
use crate::text::{is_blank, owned, pop_char, push_char, strip_newlines, trim, without_last, without_newlines};
use crate::topics::{lists_known_terms, lists_recent_topics};

verus! {

/// How many words one generated topic holds.
pub const GENERATED_WORD_COUNT: usize = 10;

/// How many recent topics the generator is told to avoid.
pub const RECENT_TOPIC_LIMIT: usize = 10;

#[derive(Clone, Copy, PartialEq, Eq, Debug, Structural)]
pub enum Key {
    Enter,
    Esc,
    Up,
    Down,
    Left,
    Right,
    Tab,
    BackTab,
    Backspace,
    Char(char),
    Other,
}

/// A pressed key and whether Control was held.
#[derive(Clone, Copy, PartialEq, Eq, Debug, Structural)]
pub struct KeyPress {
    pub key: Key,
    pub control: bool,
}

/// What the word generator is asked for.
#[derive(Debug)]
pub struct GenerationRequest {
    pub api_key: String,
    pub count: usize,
    pub excluded_terms: Vec<String>,
    pub language_skill: u32,
    pub current_level: u32,
    pub recent_topics: Vec<String>,
    pub learning_language: LearningLanguage,
}

/// What the caller has to do after a key: nothing, or start generating.
#[derive(Debug)]
pub enum KeyOutcome {
    Done,
    Generate(GenerationRequest),
}

pub open spec fn topic_create_message() -> Seq<char> {
    "Enter: AI가 주제와 단어를 자동 생성합니다 (10개)"@
}

pub open spec fn setup_main_message() -> Seq<char> {
    "N: 새 주제 생성, S: 학습, Q: 시험, K: 설정 수정"@
}

pub open spec fn editing_message(field: InputField) -> Seq<char> {
    match field {
        InputField::ApiKey => "API Key 편집 중... Enter로 저장"@,
        InputField::ProfileName => "이름 편집 중... Enter로 저장"@,
        InputField::LearningLanguage => "언어 편집 중... Left/Right로 변경 후 Enter로 저장"@,
    }
}

/// What the settings screen says when it is opened from another screen.
pub open spec fn setup_guide_message() -> Seq<char> {
    "Up/Down으로 항목 선택, E로 편집, Enter로 저장"@
}

pub open spec fn unsaved_quit_message() -> Seq<char> {
    "저장되지 않은 변경이 있습니다. R로 저장 재시도 후 종료해 주세요"@
}

pub open spec fn is_char_key(key: Key, lower: char, upper: char) -> bool {
    key == Key::Char(lower) || key == Key::Char(upper)
}

/// The state after switching the language `delta` steps along.
pub open spec fn language_adjusted(before: App, delta: int) -> App {
    (App { learning_language: rotated(before.learning_language, delta), ..before }).selection_normalized()
}

/// Saving the setup: both fields must be non-blank; then they are stored
/// trimmed, saved, and the main screen opens if the save succeeded.
pub open spec fn setup_saved<F: Fn(&App) -> Result<(), String>>(save: &F, before: App, after: App) -> bool {
    if trim(before.api_key@).len() == 0 {
        after == (App { message: after.message, ..before }) && after.message@ == "API Key를 입력해 주세요"@
    } else if trim(before.profile_name@).len() == 0 {
        &&& after == (App { message: after.message, focused: InputField::ProfileName, ..before })
        &&& after.message@ == "사용자 이름을 입력해 주세요"@
    } else {
        exists|mid: App, saved: App, ok: bool|
            #![trigger flushed(save, mid, saved, ok)]
            mid == (App {
                api_key: mid.api_key,
                profile_name: mid.profile_name,
                setup_editing: false,
                pending_persist: true,
                ..before
            }) && mid.api_key@ == trim(before.api_key@) && mid.profile_name@ == trim(before.profile_name@)
                && flushed(save, mid, saved, ok) && if ok {
                after == (App { screen: Screen::Main, message: after.message, ..saved })
                    && after.message@ == setup_main_message()
            } else {
                after == saved
            }
    }
}

/// What a key does on the setup screen.
pub open spec fn setup_input_effect<F: Fn(&App) -> Result<(), String>>(
    save: &F,
    before: App,
    key: KeyPress,
    after: App,
) -> bool {
    if before.setup_editing {
        match key.key {
            Key::Enter => setup_saved(save, before, after),
            Key::Left => if before.focused == InputField::LearningLanguage {
                after == language_adjusted(before, -1)
            } else {
                after == before
            },
            Key::Right => if before.focused == InputField::LearningLanguage {
                after == language_adjusted(before, 1)
            } else {
                after == before
            },
            Key::Backspace => match before.focused {
                InputField::ApiKey => after == (App { api_key: after.api_key, ..before })
                    && after.api_key@ == without_last(before.api_key@),
                InputField::ProfileName => after == (App { profile_name: after.profile_name, ..before })
                    && after.profile_name@ == without_last(before.profile_name@),
                InputField::LearningLanguage => after == before,
            },
            Key::Char(c) => if key.control {
                after == before
            } else {
                match before.focused {
                    InputField::ApiKey => after == (App { api_key: after.api_key, ..before })
                        && after.api_key@ == before.api_key@.push(c),
                    InputField::ProfileName => if c != '\n' && c != '\r' {
                        after == (App { profile_name: after.profile_name, ..before })
                            && after.profile_name@ == before.profile_name@.push(c)
                    } else {
                        after == before
                    },
                    InputField::LearningLanguage => if c == 'h' || c == 'H' {
                        after == language_adjusted(before, -1)
                    } else if c == 'l' || c == 'L' {
                        after == language_adjusted(before, 1)
                    } else {
                        after == before
                    },
                }
            },
            _ => after == before,
        }
    } else {
        match key.key {
            Key::Up | Key::BackTab => after == (App {
                focused: field_at((field_index(before.focused) - 1) % 3),
                ..before
            }),
            Key::Down | Key::Tab => after == (App {
                focused: field_at((field_index(before.focused) + 1) % 3),
                ..before
            }),
            Key::Enter => setup_saved(save, before, after),
            Key::Char(c) => if c == 's' || c == 'S' {
                setup_saved(save, before, after)
            } else if c == 'e' || c == 'E' {
                &&& after == (App { setup_editing: true, message: after.message, ..before })
                &&& after.message@ == editing_message(before.focused)
            } else {
                after == before
            },
            _ => after == before,
        }
    }
}

/// `req` asks for the words of a new topic for the profile of `before`.
pub open spec fn request_for(before: App, req: GenerationRequest) -> bool {
    let p = before.progress_now();
    &&& req.api_key == before.api_key
    &&& req.count == GENERATED_WORD_COUNT
    &&& lists_known_terms(p.topic_history@, req.excluded_terms@)
    &&& req.language_skill == p.skill
    &&& is_level_of(before.total_xp as nat, req.current_level as nat)
    &&& lists_recent_topics(p.topic_history@, RECENT_TOPIC_LIMIT, req.recent_topics@)
    &&& req.learning_language == before.learning_language
}

/// `after` is the setup screen focused on the API key, not editing.
pub open spec fn setup_reopened(before: App, after: App) -> bool {
    after == (App {
        screen: Screen::ApiKeySetup,
        focused: InputField::ApiKey,
        setup_editing: false,
        message: after.message,
        ..before
    })
}

/// `after` has the topic selection of `before` moved by `delta`.
pub open spec fn selection_moved(before: App, delta: int, after: App) -> bool {
    let p = before.progress_now();
    after == before.with_progress(
        before.learning_language,
        LanguageProgress {
            selected_topic: moved_selection(p.selected_topic, p.topic_history@.len(), delta),
            ..p
        },
    )
}

/// The question being asked expects a choice.
pub open spec fn asking_choice(a: App) -> bool {
    a.quiz_index < a.quiz_questions@.len() && a.quiz_questions@[a.quiz_index as int].answer is Choice
}

/// The question being asked expects typed text.
pub open spec fn asking_text(a: App) -> bool {
    a.quiz_index < a.quiz_questions@.len() && a.quiz_questions@[a.quiz_index as int].answer is Text
}

/// What a key does on the main screen.
pub open spec fn main_key_effect(before: App, key: KeyPress, after: App) -> bool {
    let sel = before.progress_now().selected_topic;
    let len = before.progress_now().topic_history@.len();
    if key.key == Key::Up {
        selection_moved(before, -1, after)
    } else if key.key == Key::Down {
        selection_moved(before, 1, after)
    } else if key.key == Key::Enter || is_char_key(key.key, 's', 'S') {
        if sel < len {
            topic_studied(before, sel, after)
        } else {
            after == (App { screen: Screen::TopicCreate, message: after.message, ..before })
                && after.message@ == topic_create_message()
        }
    } else if is_char_key(key.key, 'q', 'Q') {
        if sel < len {
            topic_quizzed(before, sel, after)
        } else {
            after == before
        }
    } else if is_char_key(key.key, 'n', 'N') {
        after == (App { screen: Screen::TopicCreate, message: after.message, ..before })
            && after.message@ == topic_create_message()
    } else if is_char_key(key.key, 'k', 'K') {
        setup_reopened(before, after) && after.message@ == setup_guide_message()
    } else {
        after == before
    }
}

/// What a key does on the topic creation screen: Enter asks for words when
/// an API key is set, and goes to the setup otherwise.
pub open spec fn topic_create_key_effect(before: App, key: KeyPress, after: App, outcome: KeyOutcome) -> bool {
    if key.key == Key::Enter {
        if trim(before.api_key@).len() == 0 {
            &&& outcome is Done
            &&& setup_reopened(before, after)
            &&& after.message@ == "API Key를 먼저 설정해 주세요"@
        } else {
            &&& after == (App { screen: Screen::Loading, message: after.message, ..before })
            &&& after.message@ == "OpenAI에서 단어를 생성하는 중..."@
            &&& outcome matches KeyOutcome::Generate(req) && request_for(before, req)
        }
    } else {
        &&& outcome is Done
        &&& if is_char_key(key.key, 'm', 'M') {
            main_started(before, after)
        } else {
            after == before
        }
    }
}

/// What a key does on the study screen: Enter shows the next word, and
/// after the last one rewards the study and starts the quiz once saved.
pub open spec fn study_key_effect<F: Fn(&App) -> Result<(), String>>(
    save: &F,
    before: App,
    key: KeyPress,
    after: App,
) -> bool {
    if key.key == Key::Enter {
        if before.study_index + 1 < before.words@.len() {
            after == (App { study_index: (before.study_index + 1) as usize, ..before })
        } else {
            exists|rewarded: App, saved: App, ok: bool|
                #![trigger flushed(save, rewarded, saved, ok)]
                study_rewarded(before, rewarded) && flushed(save, rewarded, saved, ok) && if ok {
                    quiz_started(saved, after)
                } else {
                    after == saved
                }
        }
    } else if is_char_key(key.key, 'q', 'Q') {
        quiz_started(before, after)
    } else {
        after == before
    }
}

/// What a key does on the quiz screen.
pub open spec fn quiz_key_effect<F: Fn(&App) -> Result<(), String>>(
    save: &F,
    before: App,
    key: KeyPress,
    after: App,
) -> bool {
    match key.key {
        Key::Up => if asking_choice(before) && before.selected_option > 0 {
            after == (App { selected_option: (before.selected_option - 1) as usize, ..before })
        } else {
            after == before
        },
        Key::Down => if asking_choice(before) && before.selected_option + 1
            < before.quiz_questions@[before.quiz_index as int].options@.len() {
            after == (App { selected_option: (before.selected_option + 1) as usize, ..before })
        } else {
            after == before
        },
        Key::Enter => answered(save, before, after),
        Key::Backspace => if asking_text(before) {
            after == (App { typed_answer: after.typed_answer, ..before })
                && after.typed_answer@ == without_last(before.typed_answer@)
        } else {
            after == before
        },
        Key::Char(c) => if !key.control && asking_text(before) {
            after == (App { typed_answer: after.typed_answer, ..before })
                && after.typed_answer@ == before.typed_answer@.push(c)
        } else {
            after == before
        },
        _ => after == before,
    }
}

/// R on the result and error screens: a pending save is retried, and once
/// nothing is left unsaved the settings screen opens with the API key field
/// focused and editing off.
pub open spec fn settings_reopened<F: Fn(&App) -> Result<(), String>>(save: &F, before: App, after: App) -> bool {
    exists|saved: App, ok: bool|
        #![trigger flushed(save, before, saved, ok)]
        flushed(save, before, saved, ok) && if !ok {
            after == saved
        } else {
            setup_reopened(saved, after) && after.message@ == setup_guide_message()
        }
}

/// Q on the result and error screens: the program quits, unless a save is
/// pending, which is then pointed out instead.
pub open spec fn quit_requested(before: App, after: App) -> bool {
    if before.pending_persist {
        after == (App { message: after.message, ..before }) && after.message@ == unsaved_quit_message()
    } else {
        after == (App { quit: true, ..before })
    }
}

/// What a key does on the result screen: M goes to the main screen, S
/// studies the topic again, R goes back to the settings, Q quits.
pub open spec fn result_key_effect<F: Fn(&App) -> Result<(), String>>(
    save: &F,
    before: App,
    key: KeyPress,
    after: App,
) -> bool {
    if is_char_key(key.key, 'm', 'M') {
        main_started(before, after)
    } else if is_char_key(key.key, 's', 'S') {
        match before.active_topic {
            Some(a) => topic_studied(before, a, after),
            None => after == before,
        }
    } else if is_char_key(key.key, 'r', 'R') {
        settings_reopened(save, before, after)
    } else if is_char_key(key.key, 'q', 'Q') {
        quit_requested(before, after)
    } else {
        after == before
    }
}

/// What a key does on the error screen: R goes back to the settings, Q
/// quits.
pub open spec fn error_key_effect<F: Fn(&App) -> Result<(), String>>(
    save: &F,
    before: App,
    key: KeyPress,
    after: App,
) -> bool {
    if is_char_key(key.key, 'r', 'R') {
        settings_reopened(save, before, after)
    } else if is_char_key(key.key, 'q', 'Q') {
        quit_requested(before, after)
    } else {
        after == before
    }
}

/// What a key does on each screen. Escape quits, but only once nothing is
/// left unsaved.
pub open spec fn key_effect<F: Fn(&App) -> Result<(), String>>(
    save: &F,
    before: App,
    key: KeyPress,
    after: App,
    outcome: KeyOutcome,
) -> bool {
    if key.key == Key::Esc {
        &&& outcome is Done
        &&& exists|mid: App, ok: bool|
            #![trigger flushed(save, before, mid, ok)]
            flushed(save, before, mid, ok) && after == (if ok { App { quit: true, ..mid } } else { mid })
    } else if before.screen == Screen::TopicCreate {
        topic_create_key_effect(before, key, after, outcome)
    } else {
        &&& outcome is Done
        &&& match before.screen {
            Screen::ApiKeySetup => setup_input_effect(save, before, key, after),
            Screen::Main => main_key_effect(before, key, after),
            Screen::TopicCreate => true,
            Screen::Loading => after == before,
            Screen::Study => study_key_effect(save, before, key, after),
            Screen::Quiz => quiz_key_effect(save, before, key, after),
            Screen::Result => result_key_effect(save, before, key, after),
            Screen::Error => error_key_effect(save, before, key, after),
        }
    }
}

/// What a paste does: line breaks are dropped, and the rest is appended to
/// the field being edited or to the typed answer.
pub open spec fn paste_effect(before: App, text: Seq<char>, after: App) -> bool {
    let cleaned = without_newlines(text);
    if cleaned.len() == 0 {
        after == before
    } else if before.screen == Screen::ApiKeySetup && before.setup_editing && before.focused
        == InputField::ApiKey {
        after == (App { api_key: after.api_key, ..before }) && after.api_key@ == before.api_key@ + cleaned
    } else if before.screen == Screen::ApiKeySetup && before.setup_editing && before.focused
        == InputField::ProfileName {
        after == (App { profile_name: after.profile_name, ..before }) && after.profile_name@
            == before.profile_name@ + cleaned
    } else if before.screen == Screen::Quiz && asking_text(before) {
        after == (App { typed_answer: after.typed_answer, ..before }) && after.typed_answer@
            == before.typed_answer@ + cleaned
    } else {
        after == before
    }
}

impl App {
    /// Stores the setup after checking that the API key and the name are
    /// not blank, saves, and opens the main screen when saved.
    pub fn setup_api_key<F: Fn(&App) -> Result<(), String>>(&mut self, save: &F)
        requires
            save_callable(save),
        ensures
            setup_saved(save, *old(self), *final(self)),
    {
        if is_blank(self.api_key.as_str()) {
            self.message = owned("API Key를 입력해 주세요");
            return;
        }
        if is_blank(self.profile_name.as_str()) {
            self.message = owned("사용자 이름을 입력해 주세요");
            self.focused = InputField::ProfileName;
            return;
        }
        let normalized = crate::text::trimmed(self.api_key.as_str());
        let normalized_name = crate::text::trimmed(self.profile_name.as_str());
        self.api_key = normalized;
        self.profile_name = normalized_name;
        self.setup_editing = false;
        self.pending_persist = true;
        let ghost mid = *self;
        let ok = self.flush_pending_save(save);
        let ghost saved = *self;
        if ok {
            self.screen = Screen::Main;
            self.message = owned("N: 새 주제 생성, S: 학습, Q: 시험, K: 설정 수정");
        }
        assert(flushed(save, mid, saved, ok));
    }

    /// Handles a key on the setup screen. Up/Down and Tab move the focus;
    /// Enter (or S) stores the trimmed API key and name, saves and opens the
    /// main screen. Since Enter saves, editing a field is started with E
    /// instead; while editing, characters and pastes go into the focused
    /// field, Backspace deletes, and Left/Right (or H/L) change the language.
    pub fn handle_setup_input<F: Fn(&App) -> Result<(), String>>(&mut self, key: KeyPress, save: &F)
        requires
            save_callable(save),
        ensures
            setup_input_effect(save, *old(self), key, *final(self)),
    {
        if self.setup_editing {
            match key.key {
                Key::Enter => self.setup_api_key(save),
                Key::Left => {
                    if self.focused == InputField::LearningLanguage {
                        self.adjust_language(-1);
                    }
                },
                Key::Right => {
                    if self.focused == InputField::LearningLanguage {
                        self.adjust_language(1);
                    }
                },
                Key::Backspace => match self.focused {
                    InputField::ApiKey => {
                        pop_char(&mut self.api_key);
                    },
                    InputField::ProfileName => {
                        pop_char(&mut self.profile_name);
                    },
                    InputField::LearningLanguage => {},
                },
                Key::Char(c) => {
                    if !key.control {
                        match self.focused {
                            InputField::ApiKey => push_char(&mut self.api_key, c),
                            InputField::ProfileName => {
                                if c != '\n' && c != '\r' {
                                    push_char(&mut self.profile_name, c);
                                }
                            },
                            InputField::LearningLanguage => {
                                if c == 'h' || c == 'H' {
                                    self.adjust_language(-1);
                                } else if c == 'l' || c == 'L' {
                                    self.adjust_language(1);
                                }
                            },
                        }
                    }
                },
                _ => {},
            }
            return;
        }
        match key.key {
            Key::Up => self.move_setup_focus(-1),
            Key::Down => self.move_setup_focus(1),
            Key::Tab => self.move_setup_focus(1),
            Key::BackTab => self.move_setup_focus(-1),
            Key::Enter => self.setup_api_key(save),
            Key::Char(c) => {
                if c == 's' || c == 'S' {
                    self.setup_api_key(save);
                } else if c == 'e' || c == 'E' {
                    self.setup_editing = true;
                    self.message = match self.focused {
                        InputField::ApiKey => owned("API Key 편집 중... Enter로 저장"),
                        InputField::ProfileName => owned("이름 편집 중... Enter로 저장"),
                        InputField::LearningLanguage => owned("언어 편집 중... Left/Right로 변경 후 Enter로 저장"),
                    };
                }
            },
            _ => {},
        }
    }
}

impl App {
    fn handle_main_key(&mut self, key: KeyPress)
        requires
            old(self).progress_now().topic_history@.len() <= isize::MAX,
        ensures
            main_key_effect(*old(self), key, *final(self)),
            final(self).quit == old(self).quit,
            final(self).pending_persist == old(self).pending_persist,
    {
        if key.key == Key::Up {
            self.move_topic_selection(-1);
        } else if key.key == Key::Down {
            self.move_topic_selection(1);
        } else if key.key == Key::Enter || key.key == Key::Char('s') || key.key == Key::Char('S') {
            if self.selected_topic_record().is_some() {
                let selected = self.current_selected_topic();
                self.start_study_for(selected);
            } else {
                self.screen = Screen::TopicCreate;
                self.message = owned("Enter: AI가 주제와 단어를 자동 생성합니다 (10개)");
            }
        } else if key.key == Key::Char('q') || key.key == Key::Char('Q') {
            if self.selected_topic_record().is_some() {
                let selected = self.current_selected_topic();
                self.start_quiz_for(selected);
            }
        } else if key.key == Key::Char('n') || key.key == Key::Char('N') {
            self.screen = Screen::TopicCreate;
            self.message = owned("Enter: AI가 주제와 단어를 자동 생성합니다 (10개)");
        } else if key.key == Key::Char('k') || key.key == Key::Char('K') {
            self.screen = Screen::ApiKeySetup;
            self.focused = InputField::ApiKey;
            self.setup_editing = false;
            self.message = owned("Up/Down으로 항목 선택, E로 편집, Enter로 저장");
        }
    }

    fn handle_topic_create_key(&mut self, key: KeyPress) -> (r: KeyOutcome)
        ensures
            topic_create_key_effect(*old(self), key, *final(self), r),
            final(self).quit == old(self).quit,
            final(self).pending_persist == old(self).pending_persist,
    {
        if key.key == Key::Enter {
            if is_blank(self.api_key.as_str()) {
                self.screen = Screen::ApiKeySetup;
                self.focused = InputField::ApiKey;
                self.setup_editing = false;
                self.message = owned("API Key를 먼저 설정해 주세요");
                return KeyOutcome::Done;
            }
            let request = GenerationRequest {
                api_key: self.api_key.clone(),
                count: GENERATED_WORD_COUNT,
                excluded_terms: self.known_terms(),
                language_skill: self.current_skill(),
                current_level: level_progress_from_xp(self.total_xp).0,
                recent_topics: self.recent_topics(RECENT_TOPIC_LIMIT),
                learning_language: self.learning_language,
            };
            self.screen = Screen::Loading;
            self.message = owned("OpenAI에서 단어를 생성하는 중...");
            return KeyOutcome::Generate(request);
        } else if key.key == Key::Char('m') || key.key == Key::Char('M') {
            self.start_main();
        }
        KeyOutcome::Done
    }

    fn handle_study_key<F: Fn(&App) -> Result<(), String>>(&mut self, key: KeyPress, save: &F)
        requires
            save_callable(save),
        ensures
            study_key_effect(save, *old(self), key, *final(self)),
            final(self).quit == old(self).quit,
    {
        if key.key == Key::Enter {
            if self.words.len() > 0 && self.study_index < self.words.len() - 1 {
                self.study_index = self.study_index + 1;
            } else {
                self.reward_study_completion();
                let ghost rewarded = *self;
                let ok = self.flush_pending_save(save);
                let ghost saved = *self;
                if ok {
                    self.start_quiz();
                }
                assert(flushed(save, rewarded, saved, ok));
            }
        } else if key.key == Key::Char('q') || key.key == Key::Char('Q') {
            self.start_quiz();
        }
    }

    /// Handles a key on the quiz screen. Requires the consistent quiz
    /// counters (`wf`) that every session built by the library has.
    fn handle_quiz_key<F: Fn(&App) -> Result<(), String>>(&mut self, key: KeyPress, save: &F)
        requires
            save_callable(save),
            old(self).wf(),
        ensures
            quiz_key_effect(save, *old(self), key, *final(self)),
            final(self).quit == old(self).quit,
            final(self).wf(),
    {
        match key.key {
            Key::Up => {
                let is_choice = match self.current_quiz() {
                    Some(question) => match question.answer {
                        QuizAnswer::Choice(_) => true,
                        QuizAnswer::Text(_) => false,
                    },
                    None => false,
                };
                if is_choice && self.selected_option > 0 {
                    self.selected_option = self.selected_option - 1;
                }
            },
            Key::Down => {
                let choice_option_len: Option<usize> = match self.current_quiz() {
                    Some(question) => match question.answer {
                        QuizAnswer::Choice(_) => Some(question.options.len()),
                        QuizAnswer::Text(_) => None,
                    },
                    None => None,
                };
                if let Some(option_len) = choice_option_len {
                    if option_len > 0 && self.selected_option < option_len - 1 {
                        self.selected_option = self.selected_option + 1;
                    }
                }
            },
            Key::Enter => self.answer_current(save),
            Key::Backspace => {
                let is_text = match self.current_quiz() {
                    Some(question) => match question.answer {
                        QuizAnswer::Choice(_) => false,
                        QuizAnswer::Text(_) => true,
                    },
                    None => false,
                };
                if is_text {
                    pop_char(&mut self.typed_answer);
                }
            },
            Key::Char(c) => {
                if !key.control {
                    let is_text = match self.current_quiz() {
                        Some(question) => match question.answer {
                            QuizAnswer::Choice(_) => false,
                            QuizAnswer::Text(_) => true,
                        },
                        None => false,
                    };
                    if is_text {
                        push_char(&mut self.typed_answer, c);
                    }
                }
            },
            _ => {},
        }
    }

    /// R on the result and error screens.
    fn reopen_settings<F: Fn(&App) -> Result<(), String>>(&mut self, save: &F)
        requires
            save_callable(save),
        ensures
            settings_reopened(save, *old(self), *final(self)),
            final(self).quit == old(self).quit,
    {
        let ok = if self.pending_persist {
            self.flush_pending_save(save)
        } else {
            true
        };
        let ghost saved = *self;
        if ok {
            self.screen = Screen::ApiKeySetup;
            self.focused = InputField::ApiKey;
            self.setup_editing = false;
            self.message = owned("Up/Down으로 항목 선택, E로 편집, Enter로 저장");
        }
        assert(flushed(save, *old(self), saved, ok));
    }

    /// Q on the result and error screens.
    fn request_quit(&mut self)
        ensures
            quit_requested(*old(self), *final(self)),
    {
        if self.pending_persist {
            self.message = owned("저장되지 않은 변경이 있습니다. R로 저장 재시도 후 종료해 주세요");
        } else {
            self.quit = true;
        }
    }

    fn handle_result_key<F: Fn(&App) -> Result<(), String>>(&mut self, key: KeyPress, save: &F)
        requires
            save_callable(save),
        ensures
            result_key_effect(save, *old(self), key, *final(self)),
            final(self).quit && !old(self).quit ==> !final(self).pending_persist,
    {
        if key.key == Key::Char('m') || key.key == Key::Char('M') {
            self.start_main();
        } else if key.key == Key::Char('s') || key.key == Key::Char('S') {
            if let Some(active) = self.active_topic {
                self.start_study_for(active);
            }
        } else if key.key == Key::Char('r') || key.key == Key::Char('R') {
            self.reopen_settings(save);
        } else if key.key == Key::Char('q') || key.key == Key::Char('Q') {
            self.request_quit();
        }
    }

    fn handle_error_key<F: Fn(&App) -> Result<(), String>>(&mut self, key: KeyPress, save: &F)
        requires
            save_callable(save),
        ensures
            error_key_effect(save, *old(self), key, *final(self)),
            final(self).quit && !old(self).quit ==> !final(self).pending_persist,
    {
        if key.key == Key::Char('r') || key.key == Key::Char('R') {
            self.reopen_settings(save);
        } else if key.key == Key::Char('q') || key.key == Key::Char('Q') {
            self.request_quit();
        }
    }
}

/// Handles a key: updates the session and says whether words must be
/// generated. Quitting happens only once nothing is left unsaved, and no
/// generation is asked for without an API key. Requires the consistent quiz
/// counters (`wf`) that every session built by the library has, and a topic
/// history short enough to count in an `isize`.
pub fn handle_key_event<F: Fn(&App) -> Result<(), String>>(key: KeyPress, app: &mut App, save: &F) -> (r: KeyOutcome)
    requires
        save_callable(save),
        old(app).wf(),
        old(app).progress_now().topic_history@.len() <= isize::MAX,
    ensures
        key_effect(save, *old(app), key, *final(app), r),
        final(app).wf(),
        final(app).quit && !old(app).quit ==> !final(app).pending_persist,
        r matches KeyOutcome::Generate(req) ==> trim(req.api_key@).len() > 0 && req.count
            == GENERATED_WORD_COUNT,
{
    if key.key == Key::Esc {
        let ghost before = *app;
        let ok = app.flush_pending_save(save);
        let ghost mid = *app;
        if ok {
            app.quit = true;
        }
        assert(flushed(save, before, mid, ok));
        return KeyOutcome::Done;
    }
    match app.screen {
        Screen::ApiKeySetup => {
            app.handle_setup_input(key, save);
            KeyOutcome::Done
        },
        Screen::Main => {
            app.handle_main_key(key);
            KeyOutcome::Done
        },
        Screen::TopicCreate => app.handle_topic_create_key(key),
        Screen::Loading => KeyOutcome::Done,
        Screen::Study => {
            app.handle_study_key(key, save);
            KeyOutcome::Done
        },
        Screen::Quiz => {
            app.handle_quiz_key(key, save);
            KeyOutcome::Done
        },
        Screen::Result => {
            app.handle_result_key(key, save);
            KeyOutcome::Done
        },
        Screen::Error => {
            app.handle_error_key(key, save);
            KeyOutcome::Done
        },
    }
}

/// Handles pasted text on the setup and quiz screens.
pub fn handle_paste_event(text: &str, app: &mut App)
    ensures
        paste_effect(*old(app), text@, *final(app)),
{
    let cleaned = strip_newlines(text);
    if cleaned.as_str().is_empty() {
        return;
    }
    match app.screen {
        Screen::ApiKeySetup => {
            if !app.setup_editing {
                return;
            }
            match app.focused {
                InputField::ApiKey => app.api_key.append(cleaned.as_str()),
                InputField::ProfileName => app.profile_name.append(cleaned.as_str()),
                InputField::LearningLanguage => {},
            }
        },
        Screen::Quiz => {
            let is_text = match app.current_quiz() {
                Some(question) => match question.answer {
                    QuizAnswer::Choice(_) => false,
                    QuizAnswer::Text(_) => true,
                },
                None => false,
            };
            if is_text {
                app.typed_answer.append(cleaned.as_str());
            }
        },
        _ => {},
    }
}

/// On the main screen, Down selects the next topic and Up the previous one,
/// whenever there is one in that direction; the topics themselves stay as
/// they were.
pub proof fn law_main_arrows_move_selection<F: Fn(&App) -> Result<(), String>>(
    save: &F,
    before: App,
    key: KeyPress,
    after: App,
    outcome: KeyOutcome,
)
    requires
        key_effect(save, before, key, after, outcome),
        before.screen == Screen::Main,
        key.key == Key::Up || key.key == Key::Down,
        before.progress_now().selected_topic < before.progress_now().topic_history@.len(),
    ensures
        after.learning_language == before.learning_language,
        after.progress_now().topic_history == before.progress_now().topic_history,
        key.key == Key::Down && before.progress_now().selected_topic + 1 < before.progress_now().topic_history@.len()
            ==> after.progress_now().selected_topic == before.progress_now().selected_topic + 1,
        key.key == Key::Up && before.progress_now().selected_topic > 0 ==> after.progress_now().selected_topic
            == before.progress_now().selected_topic - 1,
{
    let l = before.learning_language;
    let p = before.progress_now();
    let d: int = if key.key == Key::Up { -1 } else { 1 };
    assert(p.topic_history@.len() == p.topic_history.len());
    assert(selection_moved(before, d, after));
    let q = LanguageProgress { selected_topic: moved_selection(p.selected_topic, p.topic_history@.len(), d), ..p };
    assert(after.progress.get(l) == q) by {
        match l {
            LearningLanguage::English => {},
            LearningLanguage::Japanese => {},
            LearningLanguage::Chinese => {},
        }
    }
}

} // verus!
