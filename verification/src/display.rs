//! The text lines the screens show.

use vstd::prelude::*;
use vstd::string::*;
use crate::app::{App, InputField};
use crate::language::display_name_ko_text;
use crate::level::{level_progress_from_xp, xp_before, xp_required, is_level_of};
use crate::model::TopicRecord;
use crate::quiz::QuizReviewItem;
use crate::text::{concat2, concat3, decimal, decimal_string, owned, push_char};

verus! {

/// `n` asterisks.
pub open spec fn stars(n: nat) -> Seq<char> {
    Seq::new(n, |i: int| '*')
}

/// What the API key field shows: a hint when empty, otherwise one asterisk
/// per byte of the key, at most 40.
pub open spec fn api_key_shown(key: &str) -> Seq<char> {
    if key@.len() == 0 {
        "(input your OpenAI API key)"@
    } else {
        stars(if key.len() < 40 { key.len() as nat } else { 40 })
    }
}

pub open spec fn score_text(last_score: Option<(usize, usize)>) -> Seq<char> {
    match last_score {
        Some((value, total)) => "  score: "@ + decimal(value as nat) + "/"@ + decimal(total as nat),
        None => Seq::empty(),
    }
}

/// The line of the topic list for `record` at position `idx`.
pub open spec fn topic_line_text(idx: usize, selected: usize, record: TopicRecord) -> Seq<char> {
    (if idx == selected { "> "@ } else { "  "@ }) + "topic: "@ + record.topic@ + "  words: "@ + decimal(
        record.words@.len(),
    ) + "  status: "@ + (if record.passed { "passed"@ } else { "in progress"@ }) + score_text(record.last_score)
}

/// The line of the result list for the review at position `idx`.
pub open spec fn review_line_text(idx: usize, item: QuizReviewItem) -> Seq<char> {
    decimal(idx as nat + 1) + ". ["@ + (if item.is_correct { "O"@ } else { "X"@ }) + "] "@ + item.label@
        + " | 내 답: "@ + item.user_answer@ + " | 정답: "@ + item.correct_answer@
}

/// How a field of the setup screen is drawn.
#[derive(Clone, Copy, PartialEq, Eq, Debug, Structural)]
pub enum FieldLook {
    /// The field is being edited.
    Editing,
    /// The field has the focus.
    Focused,
    Plain,
}

pub open spec fn field_look_of(focused: InputField, editing: bool, field: InputField) -> FieldLook {
    if focused == field && editing {
        FieldLook::Editing
    } else if focused == field {
        FieldLook::Focused
    } else {
        FieldLook::Plain
    }
}

/// The lines of the main screen's topic list: one per topic, or a hint
/// when there is none.
pub open spec fn topic_list_text(history: Seq<TopicRecord>, selected: usize) -> Seq<Seq<char>> {
    if history.len() == 0 {
        seq!["저장된 주제가 없습니다. N으로 새 주제를 생성하세요."@]
    } else {
        Seq::new(history.len(), |i: int| topic_line_text(i as usize, selected, history[i]))
    }
}

/// The lines of the result screen's review list: one per answered
/// question, or a note when there is none.
pub open spec fn review_list_text(reviews: Seq<QuizReviewItem>) -> Seq<Seq<char>> {
    if reviews.len() == 0 {
        seq!["문제 결과가 없습니다"@]
    } else {
        Seq::new(reviews.len(), |i: int| review_line_text(i as usize, reviews[i]))
    }
}

/// How `field` is drawn on the setup screen.
pub fn field_look(app: &App, field: InputField) -> (r: FieldLook)
    ensures
        r == field_look_of(app.focused, app.setup_editing, field),
{
    if app.focused == field && app.setup_editing {
        FieldLook::Editing
    } else if app.focused == field {
        FieldLook::Focused
    } else {
        FieldLook::Plain
    }
}

/// What the API key field shows.
pub fn masked_api_key(key: &str) -> (r: String)
    ensures
        r@ == api_key_shown(key),
{
    if key.is_empty() {
        return owned("(input your OpenAI API key)");
    }
    let n: usize = if key.len() < 40 { key.len() } else { 40 };
    let mut r = String::new();
    let mut i: usize = 0;
    while i < n
        invariant
            i <= n,
            r@ == stars(i as nat),
        decreases n - i,
    {
        push_char(&mut r, '*');
        assert(stars(i as nat + 1) =~= stars(i as nat).push('*'));
        i = i + 1;
    }
    r
}

/// The line of the topic list for `record` at position `idx`.
pub fn topic_line(idx: usize, selected: usize, record: &TopicRecord) -> (r: String)
    ensures
        r@ == topic_line_text(idx, selected, *record),
{
    let mut line = owned(if idx == selected { "> " } else { "  " });
    line.append("topic: ");
    line.append(record.topic.as_str());
    line.append("  words: ");
    let count = decimal_string(record.words.len() as u64);
    line.append(count.as_str());
    line.append("  status: ");
    line.append(if record.passed { "passed" } else { "in progress" });
    match record.last_score {
        Some((value, total)) => {
            let v = decimal_string(value as u64);
            let t = decimal_string(total as u64);
            line.append("  score: ");
            line.append(v.as_str());
            line.append("/");
            line.append(t.as_str());
        },
        None => {},
    }
    line
}

/// The line of the result list for the review at position `idx`.
pub fn review_line(idx: usize, item: &QuizReviewItem) -> (r: String)
    requires
        idx < usize::MAX,
    ensures
        r@ == review_line_text(idx, *item),
{
    let mut line = decimal_string(idx as u64 + 1);
    line.append(". [");
    line.append(if item.is_correct { "O" } else { "X" });
    line.append("] ");
    line.append(item.label.as_str());
    line.append(" | 내 답: ");
    line.append(item.user_answer.as_str());
    line.append(" | 정답: ");
    line.append(item.correct_answer.as_str());
    line
}

/// The lines of the main screen's topic list for the current language.
pub fn topic_list_lines(app: &App) -> (r: Vec<String>)
    ensures
        r@.len() == topic_list_text(app.progress_now().topic_history@, app.progress_now().selected_topic).len(),
        forall|i: int|
            0 <= i < r@.len() ==> #[trigger] r@[i]@ == topic_list_text(
                app.progress_now().topic_history@,
                app.progress_now().selected_topic,
            )[i],
{
    let progress = app.current_progress();
    let mut lines: Vec<String> = Vec::new();
    if progress.topic_history.len() == 0 {
        lines.push(owned("저장된 주제가 없습니다. N으로 새 주제를 생성하세요."));
        return lines;
    }
    let mut i: usize = 0;
    while i < progress.topic_history.len()
        invariant
            *progress == app.progress_now(),
            progress.topic_history@.len() > 0,
            i <= progress.topic_history@.len(),
            lines@.len() == i,
            forall|k: int|
                0 <= k < i ==> #[trigger] lines@[k]@ == topic_line_text(
                    k as usize,
                    progress.selected_topic,
                    progress.topic_history@[k],
                ),
        decreases progress.topic_history@.len() - i,
    {
        lines.push(topic_line(i, progress.selected_topic, &progress.topic_history[i]));
        i = i + 1;
    }
    lines
}

/// The lines of the result screen's review list.
pub fn review_lines(reviews: &Vec<QuizReviewItem>) -> (r: Vec<String>)
    ensures
        r@.len() == review_list_text(reviews@).len(),
        forall|i: int| 0 <= i < r@.len() ==> #[trigger] r@[i]@ == review_list_text(reviews@)[i],
{
    let mut lines: Vec<String> = Vec::new();
    if reviews.len() == 0 {
        lines.push(owned("문제 결과가 없습니다"));
        return lines;
    }
    let mut i: usize = 0;
    while i < reviews.len()
        invariant
            reviews@.len() > 0,
            i <= reviews@.len(),
            lines@.len() == i,
            forall|k: int| 0 <= k < i ==> #[trigger] lines@[k]@ == review_line_text(k as usize, reviews@[k]),
        decreases reviews@.len() - i,
    {
        lines.push(review_line(i, &reviews[i]));
        i = i + 1;
    }
    lines
}

/// The profile panel of the main screen: name, language, total XP, level
/// and skill.
pub fn profile_lines(app: &App) -> (r: Vec<String>)
    ensures
        r@.len() == 5,
        r@[0]@ == "이름: "@ + app.profile_name@,
        r@[1]@ == "학습 언어: "@ + display_name_ko_text(app.learning_language),
        exists|level: nat| {
            &&& #[trigger] is_level_of(app.total_xp as nat, level)
            &&& r@[2]@ == "전체 XP: "@ + decimal(app.total_xp as nat) + " (다음 레벨까지 "@ + decimal(
                (xp_before(level) + xp_required(level) - app.total_xp) as nat,
            ) + " XP)"@
            &&& r@[3]@ == "레벨: "@ + decimal(level) + " (레벨 진행 "@ + decimal(
                (app.total_xp - xp_before(level)) as nat,
            ) + "/"@ + decimal(xp_required(level)) + ")"@
        },
        r@[4]@ == "언어 실력("@ + display_name_ko_text(app.learning_language) + "): "@ + decimal(
            app.progress_now().skill as nat,
        ),
{
    let (level, in_level, required, remaining) = level_progress_from_xp(app.total_xp);
    let language = app.learning_language.display_name_ko();
    let mut lines: Vec<String> = Vec::new();
    lines.push(concat2("이름: ", app.profile_name.as_str()));
    lines.push(concat2("학습 언어: ", language));
    let xp = decimal_string(app.total_xp as u64);
    let rem = decimal_string(remaining as u64);
    let mut xp_line = concat3("전체 XP: ", xp.as_str(), " (다음 레벨까지 ");
    xp_line.append(rem.as_str());
    xp_line.append(" XP)");
    lines.push(xp_line);
    let lv = decimal_string(level as u64);
    let inside = decimal_string(in_level as u64);
    let need = decimal_string(required as u64);
    let mut level_line = concat3("레벨: ", lv.as_str(), " (레벨 진행 ");
    level_line.append(inside.as_str());
    level_line.append("/");
    level_line.append(need.as_str());
    level_line.append(")");
    lines.push(level_line);
    let skill = decimal_string(app.current_skill() as u64);
    let mut skill_line = concat3("언어 실력(", language, "): ");
    skill_line.append(skill.as_str());
    lines.push(skill_line);
    assert(is_level_of(app.total_xp as nat, level as nat));
    lines
}

/// The title of the study screen: the position of the word shown.
pub fn study_title(study_index: usize, word_count: usize) -> (r: String)
    requires
        study_index < usize::MAX,
    ensures
        r@ == "Study Mode ("@ + decimal(study_index as nat + 1) + "/"@ + decimal(word_count as nat) + ")"@,
{
    let position = decimal_string(study_index as u64 + 1);
    let total = decimal_string(word_count as u64);
    let mut r = concat3("Study Mode (", position.as_str(), "/");
    r.append(total.as_str());
    r.append(")");
    r
}

/// The title of the quiz screen: the position of the question and the
/// score so far.
pub fn quiz_title(quiz_index: usize, question_count: usize, score: usize) -> (r: String)
    requires
        quiz_index < usize::MAX,
    ensures
        r@ == "Quiz ("@ + decimal(quiz_index as nat + 1) + "/"@ + decimal(question_count as nat) + ")  Score: "@
            + decimal(score as nat),
{
    let position = decimal_string(quiz_index as u64 + 1);
    let total = decimal_string(question_count as u64);
    let points = decimal_string(score as u64);
    let mut r = concat3("Quiz (", position.as_str(), "/");
    r.append(total.as_str());
    r.append(")  Score: ");
    r.append(points.as_str());
    r
}

/// The score line of the result screen.
pub fn score_line(score: usize, question_count: usize) -> (r: String)
    ensures
        r@ == "정답: "@ + decimal(score as nat) + "/"@ + decimal(question_count as nat),
{
    let points = decimal_string(score as u64);
    let total = decimal_string(question_count as u64);
    let mut r = concat3("정답: ", points.as_str(), "/");
    r.append(total.as_str());
    r
}

} // verus!
