//! The decisions of the list window: marking and swapping lines of the
//! file list from the keyboard, the search and episode lists, the checks
//! before renaming, and a rename run that moves the selected files.
use vstd::prelude::*;
use crate::bangumi_api::{preferred_name, Episode, Episodes, Subject};
use crate::cuby::{episode_line, subject_line};
use crate::http::join2;
use crate::names::{cleaned, episode_file_name, new_episode_file_name};
use crate::num::{dec_digits, int_digits, push_dec, push_int};
use crate::paths::{join_path, path_join, paths_equal, same_path};
use crate::report::join_seqs;
use crate::report::join_strings;
use crate::rename::{quoted, usize_text};
use crate::text::{push_range, push_str};

verus! {

// ---------------------------------------------------------------- marking lines

/// A change to the selection or the lines of the file list.
pub enum ListEdit {
    /// Select this line (from 1).
    Select(i32),
    /// Deselect this line.
    Deselect(i32),
    /// Swap the texts of these two lines.
    Swap(i32, i32),
}

/// The line marked with the space bar (from 1), or none.
pub struct MarkState {
    marked: i32,
}

impl View for MarkState {
    type V = i32;

    closed spec fn view(&self) -> i32 {
        self.marked
    }
}

/// The space bar on line `current`: marks it; on the marked line, unmarks
/// it; on another line, swaps the two lines and unmarks.
pub open spec fn space_step(marked: i32, current: i32) -> (i32, Seq<ListEdit>) {
    if current <= 0 {
        (marked, Seq::empty())
    } else if marked == -1 {
        (current, seq![ListEdit::Select(current)])
    } else if marked == current {
        (-1i32, seq![ListEdit::Deselect(marked)])
    } else {
        (-1i32, seq![ListEdit::Swap(marked, current), ListEdit::Select(current)])
    }
}

impl MarkState {
    /// No line is marked.
    pub fn new() -> (r: Self)
        ensures
            r@ == -1,
    {
        MarkState { marked: -1 }
    }

    /// A double click on line `line` marks it.
    pub fn on_double_click(&mut self, line: i32)
        ensures
            final(self)@ == line,
    {
        self.marked = line;
    }

    /// An arrow key with line `value` selected in a list of `size` lines:
    /// with none selected, the first line is selected and the mark dropped.
    pub fn on_arrow(&mut self, value: i32, size: i32) -> (r: Vec<ListEdit>)
        ensures
            value <= 0 && size > 0 ==> final(self)@ == -1 && r@ == seq![ListEdit::Select(1)],
            !(value <= 0 && size > 0) ==> final(self)@ == old(self)@ && r@.len() == 0,
    {
        let mut edits: Vec<ListEdit> = Vec::new();
        if value <= 0 && size > 0 {
            edits.push(ListEdit::Select(1));
            self.marked = -1;
            assert(edits@ =~= seq![ListEdit::Select(1)]);
        }
        edits
    }

    /// The space bar with line `current` selected.
    pub fn on_space(&mut self, current: i32) -> (r: Vec<ListEdit>)
        ensures
            (final(self)@, r@) == space_step(old(self)@, current),
    {
        let mut edits: Vec<ListEdit> = Vec::new();
        if current <= 0 {
            assert(edits@ =~= Seq::<ListEdit>::empty());
            return edits;
        }
        let marked = self.marked;
        if marked == -1 {
            self.marked = current;
            edits.push(ListEdit::Select(current));
        } else if marked == current {
            edits.push(ListEdit::Deselect(marked));
            self.marked = -1;
        } else {
            edits.push(ListEdit::Swap(marked, current));
            edits.push(ListEdit::Select(current));
            self.marked = -1;
        }
        assert(edits@ =~= space_step(old(self)@, current).1);
        edits
    }

    /// The escape key: drops the mark; says whether there was one.
    pub fn on_escape(&mut self) -> (r: (bool, Vec<ListEdit>))
        ensures
            old(self)@ != -1 ==> final(self)@ == -1 && r.0 && r.1@ == seq![ListEdit::Deselect(old(self)@)],
            old(self)@ == -1 ==> final(self)@ == -1 && !r.0 && r.1@.len() == 0,
    {
        let mut edits: Vec<ListEdit> = Vec::new();
        if self.marked != -1 {
            edits.push(ListEdit::Deselect(self.marked));
            self.marked = -1;
            assert(edits@ =~= seq![ListEdit::Deselect(old(self)@)]);
            return (true, edits);
        }
        (false, edits)
    }
}

// ---------------------------------------------------------------- moving files

/// Where a move run stands.
#[derive(Debug, Copy, Clone, PartialEq, Eq, Structural)]
pub enum MovePhase {
    /// Waiting for the user to confirm going on with more files than episodes.
    Confirming,
    /// Waiting to learn whether the current file's target exists.
    CheckingTarget,
    /// Waiting for the current file's move.
    Moving,
    /// The run is over.
    Finished,
}

/// What the caller reports back to a move run.
pub enum MoveEvent {
    /// The user's answer to the confirmation.
    Answer(bool),
    /// Whether the target asked about exists.
    Exists(bool),
    /// How the move went (the error's text on failure).
    Moved(Result<(), String>),
}

/// What a move run asks the caller to do.
pub enum MoveAction {
    /// Ask the user whether to go on (yes/no) with this message.
    Confirm(String),
    /// Tell whether this path exists.
    CheckExists(String),
    /// Rename (move) `source` to `target`.
    Move { source: String, target: String },
    /// The run is over.
    Finished,
}

/// The abstract value of a [`MoveAction`].
pub enum MoveActionView {
    Confirm(Seq<char>),
    CheckExists(Seq<char>),
    Move(Seq<char>, Seq<char>),
    Finished,
}

impl View for MoveAction {
    type V = MoveActionView;

    open spec fn view(&self) -> MoveActionView {
        match self {
            MoveAction::Confirm(m) => MoveActionView::Confirm(m@),
            MoveAction::CheckExists(p) => MoveActionView::CheckExists(p@),
            MoveAction::Move { source, target } => MoveActionView::Move(source@, target@),
            MoveAction::Finished => MoveActionView::Finished,
        }
    }
}

/// The abstract value of a [`MoveEvent`].
pub enum MoveEventView {
    Answer(bool),
    Exists(bool),
    Moved(Result<(), Seq<char>>),
}

impl View for MoveEvent {
    type V = MoveEventView;

    open spec fn view(&self) -> MoveEventView {
        match self {
            MoveEvent::Answer(b) => MoveEventView::Answer(*b),
            MoveEvent::Exists(b) => MoveEventView::Exists(*b),
            MoveEvent::Moved(Ok(())) => MoveEventView::Moved(Ok(())),
            MoveEvent::Moved(Err(e)) => MoveEventView::Moved(Err(e@)),
        }
    }
}

/// A run that renames the selected files (in `base`) after the episode
/// names, moving them into the target folder.
pub struct MoveRun {
    sources: Vec<String>,
    labels: Vec<String>,
    base: String,
    target_dir: String,
    index: usize,
    phase: MovePhase,
    successful: usize,
    failed: usize,
    errors: Vec<String>,
}

/// The abstract state of a [`MoveRun`].
pub struct MoveView {
    pub sources: Seq<Seq<char>>,
    pub labels: Seq<Seq<char>>,
    pub base: Seq<char>,
    pub target_dir: Seq<char>,
    pub index: int,
    pub phase: MovePhase,
    pub successful: usize,
    pub failed: usize,
    pub errors: Seq<Seq<char>>,
}

impl View for MoveRun {
    type V = MoveView;

    closed spec fn view(&self) -> MoveView {
        MoveView {
            sources: self.sources@.map_values(|s: String| s@),
            labels: self.labels@.map_values(|s: String| s@),
            base: self.base@,
            target_dir: self.target_dir@,
            index: self.index as int,
            phase: self.phase,
            successful: self.successful,
            failed: self.failed,
            errors: self.errors@.map_values(|s: String| s@),
        }
    }
}

/// The path of source file `i`.
pub open spec fn move_source(v: MoveView, i: int) -> Seq<char> {
    join_path(v.base, v.sources[i])
}

/// The path source file `i` is moved to.
pub open spec fn move_target(v: MoveView, i: int) -> Seq<char> {
    join_path(v.target_dir, episode_file_name(v.base, v.sources[i], v.labels[i]))
}

/// The state at file `i` in phase `p`.
pub open spec fn move_at(v: MoveView, i: int, p: MovePhase) -> MoveView {
    MoveView { index: i, phase: p, ..v }
}

/// The note on a file beyond the episodes.
pub open spec fn beyond_note(name: Seq<char>, files: nat, episodes: nat) -> Seq<char> {
    "跳过文件 '"@ + name + "': 超出剧集范围 (源文件: "@ + dec_digits(files) + ", 剧集: "@ + dec_digits(episodes)
        + ")."@
}

/// Moves on from file `i`: files beyond the episodes and files whose target
/// is their source are noted and passed over (not counted); the next other
/// file has its target checked; after the last file the run is over.
pub open spec fn move_advance(v: MoveView, i: int) -> (MoveView, MoveActionView)
    decreases v.sources.len() - i,
{
    if i < 0 || i >= v.sources.len() {
        (move_at(v, v.sources.len() as int, MovePhase::Finished), MoveActionView::Finished)
    } else if i >= v.labels.len() {
        move_advance(
            MoveView { errors: v.errors.push(beyond_note(v.sources[i], v.sources.len(), v.labels.len())), ..v },
            i + 1,
        )
    } else if same_path(move_source(v, i), move_target(v, i)) {
        move_advance(MoveView { errors: v.errors.push("跳过文件 '"@ + v.sources[i] + "': 源与目标相同."@), ..v }, i + 1)
    } else {
        (move_at(v, i, MovePhase::CheckingTarget), MoveActionView::CheckExists(move_target(v, i)))
    }
}

/// The confirmation shown when more files than episodes are selected.
pub open spec fn move_warning(files: nat, episodes: nat) -> Seq<char> {
    "警告: 选择的文件数量 ("@ + dec_digits(files) + ") 多于剧集数量 ("@ + dec_digits(episodes)
        + ").\n这可能导致部分文件无法被处理。\n是否继续?"@
}

/// The state a move run starts in and its first action.
pub open spec fn move_start(sources: Seq<Seq<char>>, labels: Seq<Seq<char>>, base: Seq<char>, target_dir: Seq<char>) -> (
    MoveView,
    MoveActionView,
) {
    let v = MoveView {
        sources,
        labels,
        base,
        target_dir,
        index: 0,
        phase: MovePhase::Confirming,
        successful: 0,
        failed: 0,
        errors: Seq::empty(),
    };
    if sources.len() > labels.len() {
        (v, MoveActionView::Confirm(move_warning(sources.len(), labels.len())))
    } else {
        move_advance(v, 0)
    }
}

/// The event is the one the phase waits for.
pub open spec fn move_expects(p: MovePhase, e: MoveEventView) -> bool {
    match p {
        MovePhase::Confirming => e is Answer,
        MovePhase::CheckingTarget => e is Exists,
        MovePhase::Moving => e is Moved,
        MovePhase::Finished => false,
    }
}

/// The transition of a move run on an event its phase waits for: an
/// existing target counts the file as failed, and so does a failed move.
pub open spec fn move_step(v: MoveView, e: MoveEventView) -> (MoveView, MoveActionView) {
    let i = v.index;
    match (v.phase, e) {
        (MovePhase::Confirming, MoveEventView::Answer(yes)) => if yes {
            move_advance(v, 0)
        } else {
            (
                MoveView { errors: v.errors.push("操作被用户取消：文件数量多于剧集数量。"@), phase: MovePhase::Finished, ..v },
                MoveActionView::Finished,
            )
        },
        (MovePhase::CheckingTarget, MoveEventView::Exists(exists)) => if exists {
            move_advance(
                MoveView {
                    failed: (v.failed + 1) as usize,
                    errors: v.errors.push("跳过文件 '"@ + v.sources[i] + "': 目标 '"@ + move_target(v, i) + "' 已存在."@),
                    ..v
                },
                i + 1,
            )
        } else {
            (move_at(v, i, MovePhase::Moving), MoveActionView::Move(move_source(v, i), move_target(v, i)))
        },
        (MovePhase::Moving, MoveEventView::Moved(r)) => match r {
            Ok(()) => move_advance(MoveView { successful: (v.successful + 1) as usize, ..v }, i + 1),
            Err(m) => move_advance(
                MoveView {
                    failed: (v.failed + 1) as usize,
                    errors: v.errors.push("失败: '"@ + v.sources[i] + "', 错误: "@ + m),
                    ..v
                },
                i + 1,
            ),
        },
        _ => (v, MoveActionView::Finished),
    }
}

/// The consistency of a move run: the current file exists, the counts stay
/// within the files passed, and no file is moved onto itself.
pub open spec fn move_ok(v: MoveView) -> bool {
    &&& v.sources.len() <= usize::MAX
    &&& 0 <= v.index <= v.sources.len()
    &&& v.successful + v.failed <= v.index
    &&& (v.phase == MovePhase::CheckingTarget || v.phase == MovePhase::Moving) ==> v.index < v.sources.len()
        && v.index < v.labels.len() && !same_path(move_source(v, v.index), move_target(v, v.index))
    &&& v.phase == MovePhase::Confirming ==> v.index == 0
}

impl MoveRun {
    /// What the run has counted: files moved, files failed, and the notes.
    pub fn outcome(&self) -> (r: (usize, usize, &Vec<String>))
        ensures
            r.0 == self@.successful,
            r.1 == self@.failed,
            r.2@.map_values(|s: String| s@) == self@.errors,
    {
        (self.successful, self.failed, &self.errors)
    }

    /// Whether the run is over.
    pub fn is_finished(&self) -> (r: bool)
        ensures
            r == (self@.phase == MovePhase::Finished),
    {
        self.phase == MovePhase::Finished
    }

    fn source_of(&self, i: usize) -> (r: String)
        requires
            i < self@.sources.len(),
        ensures
            r@ == move_source(self@, i as int),
    {
        path_join(self.base.as_str(), self.sources[i].as_str())
    }

    fn target_of(&self, i: usize) -> (r: String)
        requires
            i < self@.sources.len(),
            i < self@.labels.len(),
        ensures
            r@ == move_target(self@, i as int),
    {
        let name = new_episode_file_name(self.base.as_str(), self.sources[i].as_str(), self.labels[i].as_str());
        path_join(self.target_dir.as_str(), name.as_str())
    }

    fn note(&mut self, text: String)
        ensures
            final(self)@ == (MoveView { errors: old(self)@.errors.push(text@), ..old(self)@ }),
    {
        self.errors.push(text);
        assert(self@.errors =~= old(self)@.errors.push(text@));
    }

    fn advance_from(&mut self, from: usize) -> (r: MoveAction)
        requires
            from <= old(self)@.sources.len(),
            old(self)@.successful + old(self)@.failed <= from,
        ensures
            (final(self)@, r@) == move_advance(old(self)@, from as int),
            move_ok(final(self)@),
    {
        let mut i = from;
        loop
            invariant
                from <= i <= self@.sources.len(),
                self@.successful + self@.failed <= i,
                move_advance(old(self)@, from as int) == move_advance(self@, i as int),
            decreases self@.sources.len() - i,
        {
            if i >= self.sources.len() {
                self.index = self.sources.len();
                self.phase = MovePhase::Finished;
                return MoveAction::Finished;
            }
            if i >= self.labels.len() {
                let mut text = "跳过文件 '".to_owned();
                push_str(&mut text, self.sources[i].as_str());
                push_str(&mut text, "': 超出剧集范围 (源文件: ");
                push_str(&mut text, usize_text(self.sources.len()).as_str());
                push_str(&mut text, ", 剧集: ");
                push_str(&mut text, usize_text(self.labels.len()).as_str());
                push_str(&mut text, ").");
                assert(self@.sources[i as int] == self.sources@[i as int]@);
                assert(text@ == beyond_note(self@.sources[i as int], self@.sources.len(), self@.labels.len()));
                self.note(text);
                i = i + 1;
                continue;
            }
            let src = self.source_of(i);
            let tgt = self.target_of(i);
            if paths_equal(src.as_str(), tgt.as_str()) {
                let mut text = "跳过文件 '".to_owned();
                push_str(&mut text, self.sources[i].as_str());
                push_str(&mut text, "': 源与目标相同.");
                assert(self@.sources[i as int] == self.sources@[i as int]@);
                self.note(text);
                i = i + 1;
                continue;
            }
            self.index = i;
            self.phase = MovePhase::CheckingTarget;
            return MoveAction::CheckExists(tgt);
        }
    }

    /// Starts a run: `source_files` are the selected names in `base_path`,
    /// to be renamed after `formatted_episode_names` into `target_anime_dir`.
    pub fn start(
        source_files: Vec<String>,
        base_path: String,
        formatted_episode_names: Vec<String>,
        target_anime_dir: String,
    ) -> (r: (MoveRun, MoveAction))
        ensures
            (r.0@, r.1@) == move_start(
                source_files@.map_values(|s: String| s@),
                formatted_episode_names@.map_values(|s: String| s@),
                base_path@,
                target_anime_dir@,
            ),
            move_ok(r.0@),
    {
        let n = source_files.len();
        let m = formatted_episode_names.len();
        let mut run = MoveRun {
            sources: source_files,
            labels: formatted_episode_names,
            base: base_path,
            target_dir: target_anime_dir,
            index: 0,
            phase: MovePhase::Confirming,
            successful: 0,
            failed: 0,
            errors: Vec::new(),
        };
        assert(run@.errors =~= Seq::<Seq<char>>::empty());
        if n > m {
            let mut text = "警告: 选择的文件数量 (".to_owned();
            push_str(&mut text, usize_text(n).as_str());
            push_str(&mut text, ") 多于剧集数量 (");
            push_str(&mut text, usize_text(m).as_str());
            push_str(&mut text, ").\n这可能导致部分文件无法被处理。\n是否继续?");
            return (run, MoveAction::Confirm(text));
        }
        let a = run.advance_from(0);
        (run, a)
    }

    /// Takes what the caller reports and says what to do next.
    pub fn on_event(&mut self, event: MoveEvent) -> (r: MoveAction)
        requires
            move_ok(old(self)@),
            move_expects(old(self)@.phase, event@),
        ensures
            (final(self)@, r@) == move_step(old(self)@, event@),
            move_ok(final(self)@),
    {
        let i = self.index;
        match event {
            MoveEvent::Answer(yes) => {
                if yes {
                    return self.advance_from(0);
                }
                self.note("操作被用户取消：文件数量多于剧集数量。".to_owned());
                self.phase = MovePhase::Finished;
                MoveAction::Finished
            },
            MoveEvent::Exists(exists) => {
                let tgt = self.target_of(i);
                if exists {
                    let text = quoted("跳过文件 '", self.sources[i].as_str(), "': 目标 '", tgt.as_str());
                    let mut text = text;
                    push_str(&mut text, "' 已存在.");
                    self.note(text);
                    self.failed = self.failed + 1;
                    return self.advance_from(i + 1);
                }
                self.phase = MovePhase::Moving;
                let src = self.source_of(i);
                MoveAction::Move { source: src, target: tgt }
            },
            MoveEvent::Moved(result) => match result {
                Ok(()) => {
                    self.successful = self.successful + 1;
                    self.advance_from(i + 1)
                },
                Err(m) => {
                    let text = quoted("失败: '", self.sources[i].as_str(), "', 错误: ", m.as_str());
                    self.note(text);
                    self.failed = self.failed + 1;
                    self.advance_from(i + 1)
                },
            },
        }
    }
}

/// The report shown after a move run.
pub open spec fn move_summary_text(successful: usize, failed: usize, errors: Seq<Seq<char>>) -> Seq<char> {
    "重命名完成报告:\n成功: "@ + dec_digits(successful as nat) + "\n失败: "@ + dec_digits(failed as nat) + if errors.len()
        > 0 {
        "\n\n详细信息:\n"@ + join_seqs(errors, "\n"@)
    } else {
        Seq::empty()
    }
}

/// The report shown after a move run.
pub fn display_rename_summary(successful_renames: usize, failed_renames: usize, errors_log: &[String]) -> (r: String)
    ensures
        r@ == move_summary_text(successful_renames, failed_renames, errors_log@.map_values(|s: String| s@)),
{
    let mut out = "重命名完成报告:\n成功: ".to_owned();
    push_str(&mut out, usize_text(successful_renames).as_str());
    push_str(&mut out, "\n失败: ");
    push_str(&mut out, usize_text(failed_renames).as_str());
    if errors_log.len() > 0 {
        push_str(&mut out, "\n\n详细信息:\n");
        push_str(&mut out, join_strings(errors_log, "\n").as_str());
    } else {
        assert(out@ =~= move_summary_text(successful_renames, failed_renames, errors_log@.map_values(|s: String| s@)));
    }
    out
}

/// A move run never moves a file onto itself.
pub proof fn lemma_no_move_onto_itself(v: MoveView, e: MoveEventView)
    requires
        move_ok(v),
        move_expects(v.phase, e),
    ensures
        move_step(v, e).1 matches MoveActionView::Move(s, t) ==> !same_path(s, t),
{
    lemma_move_advance_no_move(v, 0);
    lemma_move_advance_no_move(v, v.index + 1);
    let i = v.index;
    if v.phase == MovePhase::CheckingTarget {
        lemma_move_advance_no_move(
            MoveView {
                failed: (v.failed + 1) as usize,
                errors: v.errors.push("跳过文件 '"@ + v.sources[i] + "': 目标 '"@ + move_target(v, i) + "' 已存在."@),
                ..v
            },
            i + 1,
        );
    }
    if let MoveEventView::Moved(r) = e {
        lemma_move_advance_no_move(MoveView { successful: (v.successful + 1) as usize, ..v }, i + 1);
        if let Err(m) = r {
            lemma_move_advance_no_move(
                MoveView {
                    failed: (v.failed + 1) as usize,
                    errors: v.errors.push("失败: '"@ + v.sources[i] + "', 错误: "@ + m),
                    ..v
                },
                i + 1,
            );
        }
    }
}

proof fn lemma_move_advance_no_move(v: MoveView, i: int)
    ensures
        !(move_advance(v, i).1 is Move),
    decreases v.sources.len() - i,
{
    if 0 <= i < v.sources.len() {
        if i >= v.labels.len() {
            lemma_move_advance_no_move(
                MoveView { errors: v.errors.push(beyond_note(v.sources[i], v.sources.len(), v.labels.len())), ..v },
                i + 1,
            );
        } else if same_path(move_source(v, i), move_target(v, i)) {
            lemma_move_advance_no_move(
                MoveView { errors: v.errors.push("跳过文件 '"@ + v.sources[i] + "': 源与目标相同."@), ..v },
                i + 1,
            );
        }
    }
}

// ---------------------------------------------------------------- search and episode lists

/// The line of a subject in the list window's search list: Chinese name, then the
/// original name in brackets.
pub open spec fn list_subject_line(s: Subject) -> Seq<char> {
    s.name_cn@ + " ("@ + s.name@ + ")"@
}

/// What the search list shows after a search: its lines (after clearing
/// it), the subjects kept for selection, and a message for a dialog.
pub struct SearchOutcome {
    pub lines: Vec<String>,
    pub results: Option<Vec<Subject>>,
    pub message: Option<String>,
}

/// What a search for `query` shows, given the subjects found (or the error).
pub open spec fn search_outcome_of(query: Seq<char>, result: Result<Vec<Subject>, String>) -> (
    Seq<Seq<char>>,
    Option<Seq<Subject>>,
    Option<Seq<char>>,
) {
    match result {
        Ok(subjects) => if subjects@.len() == 0 {
            (Seq::empty(), None, Some("未找到与\""@ + query + "\"相关的番剧。"@))
        } else {
            (
                Seq::new(subjects@.len(), |i: int| list_subject_line(subjects@[i])),
                Some(subjects@),
                None,
            )
        },
        Err(e) => (
            Seq::empty(),
            None,
            Some("搜索\""@ + query + "\"失败：请检查网络连接或稍后再试。\n详细错误: "@ + e@),
        ),
    }
}

/// The abstract value of a [`SearchOutcome`].
pub open spec fn search_outcome_view(o: SearchOutcome) -> (Seq<Seq<char>>, Option<Seq<Subject>>, Option<Seq<char>>) {
    (
        o.lines@.map_values(|s: String| s@),
        match o.results {
            Some(v) => Some(v@),
            None => None,
        },
        o.message.deep_view(),
    )
}

/// Searches for the text of the search box: an empty text clears the list
/// without a request; otherwise `fetch` makes the request.
pub fn handle_search<F>(query: &str, fetch: F) -> (r: SearchOutcome) where
    F: Fn(&str) -> Result<Vec<Subject>, String>,

    requires
        forall|q: &str| #[trigger] fetch.requires((q,)),
    ensures
        query@.len() == 0 ==> search_outcome_view(r) == (Seq::<Seq<char>>::empty(), None::<Seq<Subject>>, None::<Seq<char>>),
        query@.len() > 0 ==> exists|result: Result<Vec<Subject>, String>|
            #[trigger] fetch.ensures((query,), result) && search_outcome_view(r) == search_outcome_of(query@, result),
{
    if query.is_empty() {
        let r = SearchOutcome { lines: Vec::new(), results: None, message: None };
        assert(r.lines@.map_values(|s: String| s@) =~= Seq::<Seq<char>>::empty());
        return r;
    }
    let result = fetch(query);
    let ghost res = result;
    let r = match result {
        Ok(subjects) => {
            if subjects.len() == 0 {
                let mut m = join2("未找到与\"", query);
                push_str(&mut m, "\"相关的番剧。");
                let r = SearchOutcome { lines: Vec::new(), results: None, message: Some(m) };
                assert(r.lines@.map_values(|s: String| s@) =~= Seq::<Seq<char>>::empty());
                r
            } else {
                let mut lines: Vec<String> = Vec::new();
                let mut i: usize = 0;
                while i < subjects.len()
                    invariant
                        i <= subjects@.len(),
                        lines@.len() == i,
                        forall|j: int| 0 <= j < i ==> #[trigger] lines@[j]@ == list_subject_line(subjects@[j]),
                    decreases subjects@.len() - i,
                {
                    let mut line = subjects[i].name_cn.clone();
                    push_str(&mut line, " (");
                    push_str(&mut line, subjects[i].name.as_str());
                    push_str(&mut line, ")");
                    lines.push(line);
                    i = i + 1;
                }
                assert(lines@.map_values(|s: String| s@) =~= Seq::new(
                    subjects@.len(),
                    |i: int| list_subject_line(subjects@[i]),
                ));
                SearchOutcome { lines, results: Some(subjects), message: None }
            }
        },
        Err(e) => {
            let mut m = join2("搜索\"", query);
            push_str(&mut m, "\"失败：请检查网络连接或稍后再试。\n详细错误: ");
            push_str(&mut m, e.as_str());
            let r = SearchOutcome { lines: Vec::new(), results: None, message: Some(m) };
            assert(r.lines@.map_values(|s: String| s@) =~= Seq::<Seq<char>>::empty());
            r
        },
    };
    assert(fetch.ensures((query,), res));
    r
}

/// What the search list shows after a double click, and what is kept: the
/// episodes and the id of the subject chosen.
pub struct DoubleClickOutcome {
    pub lines: Vec<String>,
    pub episodes: Option<Episodes>,
    pub selected_id: Option<String>,
}

/// The subject id at line `line` (from 1) of the search results, if any.
pub open spec fn chosen_id(results: Option<Seq<Subject>>, line: i32) -> Option<u64> {
    match results {
        Some(v) => if 0 <= line - 1 < v.len() {
            Some(v[line - 1].id)
        } else {
            None
        },
        None => None,
    }
}

/// The lines shown for the episodes fetched (or the error).
pub open spec fn episode_result_lines(result: Result<Episodes, String>) -> Seq<Seq<char>> {
    match result {
        Ok(eps) => if eps.items@.len() == 0 {
            seq!["未能获取到剧集信息或剧集列表为空。"@]
        } else {
            Seq::new(eps.items@.len(), |i: int| episode_line(eps.items@[i]))
        },
        Err(e) => seq!["获取剧集列表失败: "@ + e@],
    }
}

/// `o` shows the episodes of subject `id` as `result` gives them.
pub open spec fn outcome_matches(o: DoubleClickOutcome, id: u64, result: Result<Episodes, String>) -> bool {
    &&& o.lines@.map_values(|s: String| s@) == episode_result_lines(result)
    &&& match result {
        Ok(eps) => o.episodes == Some(eps) && o.selected_id.deep_view() == Some(dec_digits(id as nat)),
        Err(_) => o.episodes is None && o.selected_id is None,
    }
}

/// `o` shows the episodes of subject `id` as `fetch` returned them.
pub open spec fn fetched_outcome<F: Fn(u64) -> Result<Episodes, String>>(fetch: F, id: u64, o: DoubleClickOutcome) -> bool {
    exists|result: Result<Episodes, String>| #[trigger] fetch.ensures((id,), result) && outcome_matches(o, id, result)
}

/// A double click on line `line` (from 1) of a list of `size` lines:
/// nothing for no valid line; otherwise the episodes of the subject on that
/// line, fetched by `fetch`, or the note that the selection is invalid.
pub fn handle_search_results_double_click<F>(
    line: i32,
    size: i32,
    results: &Option<Vec<Subject>>,
    fetch: F,
) -> (r: Option<DoubleClickOutcome>) where
    F: Fn(u64) -> Result<Episodes, String>,

    requires
        forall|id: u64| #[trigger] fetch.requires((id,)),
    ensures
        (line <= 0 || line > size) ==> r is None,
        !(line <= 0 || line > size) ==> (r matches Some(o) && match chosen_id(
            match results {
                Some(v) => Some(v@),
                None => None,
            },
            line,
        ) {
            Some(id) => fetched_outcome(fetch, id, o),
            None => o.lines@.map_values(|s: String| s@) == seq!["选择无效或数据不一致。"@] && o.episodes is None
                && o.selected_id is None,
        }),
{
    if line <= 0 || line > size {
        return None;
    }
    let idx = (line - 1) as usize;
    let id = match results {
        Some(v) => if idx < v.len() {
            Some(v[idx].id)
        } else {
            None
        },
        None => None,
    };
    let ghost rv = match results {
        Some(v) => Some(v@),
        None => None::<Seq<Subject>>,
    };
    assert(chosen_id(rv, line) == id);
    let mut lines: Vec<String> = Vec::new();
    match id {
        None => {
            lines.push("选择无效或数据不一致。".to_owned());
            assert(lines@.map_values(|s: String| s@) =~= seq!["选择无效或数据不一致。"@]);
            Some(DoubleClickOutcome { lines, episodes: None, selected_id: None })
        },
        Some(id) => {
            let result = fetch(id);
            let ghost res = result;
            let o = match result {
                Ok(col) => {
                    if col.items.len() == 0 {
                        lines.push("未能获取到剧集信息或剧集列表为空。".to_owned());
                    } else {
                        let mut i: usize = 0;
                        while i < col.items.len()
                            invariant
                                i <= col.items@.len(),
                                lines@.len() == i,
                                forall|j: int| 0 <= j < i ==> #[trigger] lines@[j]@ == episode_line(col.items@[j]),
                            decreases col.items@.len() - i,
                        {
                            let e = &col.items[i];
                            let mut cs: Vec<char> = Vec::new();
                            crate::num::push_dec_padded(&mut cs, e.sort, 2);
                            let mut text = "Ep.".to_owned();
                            push_range(&mut text, &cs, 0, cs.len());
                            assert(cs@.subrange(0, cs@.len() as int) =~= cs@);
                            push_str(&mut text, " - ");
                            push_str(&mut text, e.display_name());
                            lines.push(text);
                            i = i + 1;
                        }
                    }
                    assert(lines@.map_values(|s: String| s@) =~= episode_result_lines(res));
                    let selected = usize_text_u64(id);
                    DoubleClickOutcome { lines, episodes: Some(col), selected_id: Some(selected) }
                },
                Err(e) => {
                    lines.push(join2("获取剧集列表失败: ", e.as_str()));
                    assert(lines@.map_values(|s: String| s@) =~= episode_result_lines(res));
                    DoubleClickOutcome { lines, episodes: None, selected_id: None }
                },
            };
            assert(fetch.ensures((id,), res) && outcome_matches(o, id, res));
            assert(fetched_outcome(fetch, id, o));
            Some(o)
        },
    }
}

/// The decimal numeral of a subject id.
fn usize_text_u64(n: u64) -> (r: String)
    ensures
        r@ == dec_digits(n as nat),
{
    let mut digits: Vec<char> = Vec::new();
    push_dec(&mut digits, n);
    let mut out = String::new();
    push_range(&mut out, &digits, 0, digits.len());
    assert(digits@.subrange(0, digits@.len() as int) =~= digits@);
    out
}

// ---------------------------------------------------------------- before renaming

/// Renaming needs an episode list, a source folder and a target folder, in that order.
pub fn validate_pre_rename_conditions(
    has_episode_list: bool,
    base_path: &Option<String>,
    anime_path: &Option<String>,
) -> (r: Result<(), String>)
    ensures
        !has_episode_list ==> (r matches Err(m) && m@ == "错误: 剧集列表为空。\n请先在右侧搜索并双击选定一部番剧。"@),
        has_episode_list && base_path is None ==> (r matches Err(m) && m@
            == "错误: 源路径未设置。\n请选择包含视频文件的源文件夹。"@),
        has_episode_list && base_path is Some && anime_path is None ==> (r matches Err(m) && m@
            == "错误: 目标路径未设置。\n请选择重命名后文件存放的目标文件夹。"@),
        has_episode_list && base_path is Some && anime_path is Some ==> r is Ok,
{
    if !has_episode_list {
        return Err("错误: 剧集列表为空。\n请先在右侧搜索并双击选定一部番剧。".to_owned());
    }
    if base_path.is_none() {
        return Err("错误: 源路径未设置。\n请选择包含视频文件的源文件夹。".to_owned());
    }
    if anime_path.is_none() {
        return Err("错误: 目标路径未设置。\n请选择重命名后文件存放的目标文件夹。".to_owned());
    }
    Ok(())
}

/// The name and the year text of the subject selected in the search list
/// (line `selected`, from 1), with the year of its episodes.
pub fn get_selected_anime_details(results: &Option<Vec<Subject>>, selected: i32, year: i32) -> (r: Result<
    (String, String),
    String,
>)
    ensures
        selected <= 0 ==> (r matches Err(m) && m@ == "错误: 请先搜索番剧并选择一个有效的番剧。"@),
        selected > 0 ==> match chosen_subject(
            match results {
                Some(v) => Some(v@),
                None => None,
            },
            selected,
        ) {
            Some(s) => r matches Ok((name, y)) && name@ == preferred_name(s.name@, s.name_cn@) && y@ == int_digits(
                year as int,
            ),
            None => r matches Err(m) && m@ == "错误: 选择的番剧无效。\n请在右侧搜索结果中选择一个有效的番剧。"@,
        },
{
    let mut ys: Vec<char> = Vec::new();
    push_int(&mut ys, year as i64);
    let mut y = String::new();
    push_range(&mut y, &ys, 0, ys.len());
    assert(ys@.subrange(0, ys@.len() as int) =~= ys@);
    if selected <= 0 {
        return Err("错误: 请先搜索番剧并选择一个有效的番剧。".to_owned());
    }
    let idx = (selected - 1) as usize;
    match results {
        Some(v) => {
            if idx < v.len() {
                let s = &v[idx];
                let name = if !s.name_cn.as_str().is_empty() {
                    s.name_cn.clone()
                } else {
                    s.name.clone()
                };
                Ok((name, y))
            } else {
                Err("错误: 选择的番剧无效。\n请在右侧搜索结果中选择一个有效的番剧。".to_owned())
            }
        },
        None => Err("错误: 选择的番剧无效。\n请在右侧搜索结果中选择一个有效的番剧。".to_owned()),
    }
}

/// The subject at line `selected` (from 1) of the search results, if any.
pub open spec fn chosen_subject(results: Option<Seq<Subject>>, selected: i32) -> Option<Subject> {
    match results {
        Some(v) => if 0 <= selected - 1 < v.len() {
            Some(v[selected - 1])
        } else {
            None
        },
        None => None,
    }
}

/// The message shown when the target folder cannot be created.
pub fn target_folder_error(dir: &str, error: &str) -> (r: String)
    ensures
        r@ == "错误: 创建目标文件夹 '"@ + dir@ + "' 失败。\n详细信息: "@ + error@,
{
    let mut m = join2("错误: 创建目标文件夹 '", dir);
    push_str(&mut m, "' 失败。\n详细信息: ");
    push_str(&mut m, error);
    m
}

/// The message shown when no file is listed for renaming.
pub fn no_files_error() -> (r: String)
    ensures
        r@ == "错误: 未选择任何文件进行处理。\n请在左侧文件浏览器中选择文件。"@,
{
    "错误: 未选择任何文件进行处理。\n请在左侧文件浏览器中选择文件。".to_owned()
}

} // verus!
