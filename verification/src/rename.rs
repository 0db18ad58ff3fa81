//! A rename run: each selected video file gets the name of its episode in
//! the anime's library folder (hard-linked, or copied across volumes), and
//! its subtitles are copied along. The run is a state machine; the caller
//! performs the file-system work and the dialogs it asks for and reports
//! back what happened.
use vstd::prelude::*;
use crate::names::{
    cleaned, clean_filename, episode_file_name, lemma_cleaned_is_safe, reserved_char, find_matching_subtitle_files, matching_subtitles,
    new_episode_file_name, new_subtitle_file_name, pair_views, string_views, subtitle_target_name,
};
use crate::num::{dec_digits, push_dec};
use crate::paths::{join_path, path_join, paths_equal, same_path};
use crate::report::{empty_report, FileOperationReport, ReportView, VideoTransferMode, summary_text};
use crate::text::{push_range, push_str};

verus! {

/// Where a run stands.
#[derive(Debug, Copy, Clone, PartialEq, Eq, Structural)]
pub enum Phase {
    /// Waiting for the user to confirm going on with more files than episodes.
    Confirming,
    /// Waiting to learn whether the current file's target exists.
    CheckingTarget,
    /// Waiting for the current file's transfer.
    Transferring,
    /// Waiting for the user to accept copying across volumes.
    ConfirmingCrossVolume,
    /// Waiting for the current file's copy after the hard link failed.
    RetryingCopy,
    /// Waiting for the names of the files beside the source.
    Listing,
    /// Waiting to learn whether the current subtitle's target exists.
    CheckingSubtitle,
    /// Waiting for the current subtitle's copy.
    CopyingSubtitle,
    /// The run is over.
    Finished,
}

/// A transfer that did not succeed: the error's text and whether it is the
/// error of a hard link across file systems.
pub struct TransferFailure {
    pub message: String,
    pub cross_device: bool,
}

/// What the caller reports back.
pub enum RenameEvent {
    /// The user's answer to a confirmation.
    Answer(bool),
    /// Whether the path asked about exists.
    Exists(bool),
    /// How a video transfer went.
    Transferred(Result<(), TransferFailure>),
    /// The names of the regular files of the directory asked about, in listing order.
    Listing(Vec<String>),
    /// How a subtitle copy went (the error's text on failure).
    Copied(Result<(), String>),
}

/// What the caller is to do next.
pub enum RenameAction {
    /// Ask the user whether to go on (yes/no) with this message.
    Confirm(String),
    /// Tell whether this path exists.
    CheckExists(String),
    /// Hard-link or copy `source` to `target`.
    TransferVideo { source: String, target: String, mode: VideoTransferMode },
    /// Ask the user whether to copy instead of hard-linking between these folders.
    ConfirmCrossVolume { source_root: String, target_root: String },
    /// List the names of the regular files of this directory.
    ListDirectory(String),
    /// Copy the subtitle `source` to `target`.
    CopySubtitle { source: String, target: String },
    /// The run is over; its report is ready.
    Finished,
}

/// The abstract value of a [`TransferFailure`].
pub struct FailureView {
    pub message: Seq<char>,
    pub cross_device: bool,
}

/// The abstract value of a [`RenameEvent`].
pub enum EventView {
    Answer(bool),
    Exists(bool),
    Transferred(Result<(), FailureView>),
    Listing(Seq<Seq<char>>),
    Copied(Result<(), Seq<char>>),
}

/// The abstract value of a [`RenameAction`].
pub enum ActionView {
    Confirm(Seq<char>),
    CheckExists(Seq<char>),
    TransferVideo(Seq<char>, Seq<char>, VideoTransferMode),
    ConfirmCrossVolume(Seq<char>, Seq<char>),
    ListDirectory(Seq<char>),
    CopySubtitle(Seq<char>, Seq<char>),
    Finished,
}

impl View for RenameEvent {
    type V = EventView;

    open spec fn view(&self) -> EventView {
        match self {
            RenameEvent::Answer(b) => EventView::Answer(*b),
            RenameEvent::Exists(b) => EventView::Exists(*b),
            RenameEvent::Transferred(Ok(())) => EventView::Transferred(Ok(())),
            RenameEvent::Transferred(Err(f)) => EventView::Transferred(
                Err(FailureView { message: f.message@, cross_device: f.cross_device }),
            ),
            RenameEvent::Listing(v) => EventView::Listing(string_views(v@)),
            RenameEvent::Copied(Ok(())) => EventView::Copied(Ok(())),
            RenameEvent::Copied(Err(m)) => EventView::Copied(Err(m@)),
        }
    }
}

impl View for RenameAction {
    type V = ActionView;

    open spec fn view(&self) -> ActionView {
        match self {
            RenameAction::Confirm(m) => ActionView::Confirm(m@),
            RenameAction::CheckExists(p) => ActionView::CheckExists(p@),
            RenameAction::TransferVideo { source, target, mode } => ActionView::TransferVideo(
                source@,
                target@,
                *mode,
            ),
            RenameAction::ConfirmCrossVolume { source_root, target_root } => ActionView::ConfirmCrossVolume(
                source_root@,
                target_root@,
            ),
            RenameAction::ListDirectory(p) => ActionView::ListDirectory(p@),
            RenameAction::CopySubtitle { source, target } => ActionView::CopySubtitle(source@, target@),
            RenameAction::Finished => ActionView::Finished,
        }
    }
}

/// The abstract state of a run.
pub struct RunView {
    pub report: ReportView,
    pub sources: Seq<Seq<char>>,
    pub labels: Seq<Seq<char>>,
    pub base: Seq<char>,
    pub target_dir: Seq<char>,
    pub mode: VideoTransferMode,
    pub index: int,
    pub phase: Phase,
    pub subs: Seq<(Seq<char>, Seq<char>)>,
    pub sub_index: int,
}

/// The path of source file `i`.
pub open spec fn source_path(v: RunView, i: int) -> Seq<char> {
    join_path(v.base, v.sources[i])
}

/// The path source file `i` is renamed to.
pub open spec fn target_path(v: RunView, i: int) -> Seq<char> {
    join_path(v.target_dir, episode_file_name(v.base, v.sources[i], v.labels[i]))
}

/// The path of subtitle `j` of the current file.
pub open spec fn subtitle_source(v: RunView, j: int) -> Seq<char> {
    join_path(v.base, v.subs[j].0)
}

/// The path subtitle `j` of the current file is copied to.
pub open spec fn subtitle_target(v: RunView, j: int) -> Seq<char> {
    join_path(
        v.target_dir,
        subtitle_target_name(v.sources[v.index], v.subs[j].0, v.subs[j].1, cleaned(v.labels[v.index])),
    )
}

/// A count one higher, held at the largest `usize`.
pub open spec fn inc(n: usize) -> usize {
    if n == usize::MAX {
        n
    } else {
        (n + 1) as usize
    }
}

/// The report with one more skipped file and a detail line.
pub open spec fn with_skip(r: ReportView, detail: Seq<char>) -> ReportView {
    ReportView { skipped_files: inc(r.skipped_files), details: r.details.push(detail), ..r }
}

/// The report with one more failed transfer and a detail line.
pub open spec fn with_failure(r: ReportView, detail: Seq<char>) -> ReportView {
    ReportView { failed_links: inc(r.failed_links), details: r.details.push(detail), ..r }
}

/// The report with one more transferred video.
pub open spec fn with_success(r: ReportView) -> ReportView {
    ReportView { successful_links: inc(r.successful_links), ..r }
}

/// The report of a cancelled run.
pub open spec fn with_cancel(r: ReportView, message: Seq<char>) -> ReportView {
    ReportView { cancelled: true, cancel_message: Some(message), ..r }
}

/// "跳过文件 'name': reason".
pub open spec fn skip_detail(name: Seq<char>, reason: Seq<char>) -> Seq<char> {
    "跳过文件 '"@ + name + "': "@ + reason
}

/// "失败: 'name', 错误: message".
pub open spec fn failure_detail(name: Seq<char>, message: Seq<char>) -> Seq<char> {
    "失败: '"@ + name + "', 错误: "@ + message
}

/// The state at file `i` in phase `p`.
pub open spec fn at(v: RunView, i: int, p: Phase) -> RunView {
    RunView { index: i, phase: p, ..v }
}

/// Moves on from file `i`: files beyond the episodes, and files whose target
/// is their source, are skipped; the next other file has its target checked;
/// after the last file the run is over.
pub open spec fn advance(v: RunView, i: int) -> (RunView, ActionView)
    decreases v.sources.len() - i,
{
    if i < 0 || i >= v.sources.len() {
        (at(v, v.sources.len() as int, Phase::Finished), ActionView::Finished)
    } else if i >= v.labels.len() {
        advance(
            RunView { report: with_skip(v.report, skip_detail(v.sources[i], "超出剧集范围"@)), ..v },
            i + 1,
        )
    } else if same_path(source_path(v, i), target_path(v, i)) {
        advance(
            RunView { report: with_skip(v.report, skip_detail(v.sources[i], "源与目标相同"@)), ..v },
            i + 1,
        )
    } else {
        (at(v, i, Phase::CheckingTarget), ActionView::CheckExists(target_path(v, i)))
    }
}

/// Moves on to subtitle `j` of the current file, or to the next file.
pub open spec fn next_subtitle(v: RunView, j: int) -> (RunView, ActionView) {
    if j < 0 || j >= v.subs.len() {
        advance(v, v.index + 1)
    } else {
        (
            RunView { sub_index: j, phase: Phase::CheckingSubtitle, ..v },
            ActionView::CheckExists(subtitle_target(v, j)),
        )
    }
}

/// The confirmation message shown when more files than episodes are selected.
pub open spec fn count_warning(files: nat, episodes: nat) -> Seq<char> {
    "警告: 选择的文件数量 ("@ + dec_digits(files) + ") 多于剧集数量 ("@ + dec_digits(episodes)
        + "). 是否继续?"@
}

/// The event is the one the phase waits for.
pub open spec fn expects(p: Phase, e: EventView) -> bool {
    match p {
        Phase::Confirming => e is Answer,
        Phase::CheckingTarget => e is Exists,
        Phase::Transferring => e is Transferred,
        Phase::ConfirmingCrossVolume => e is Answer,
        Phase::RetryingCopy => e is Transferred,
        Phase::Listing => e is Listing,
        Phase::CheckingSubtitle => e is Exists,
        Phase::CopyingSubtitle => e is Copied,
        Phase::Finished => false,
    }
}

/// The transition of a run on an event the phase waits for.
pub open spec fn step(v: RunView, e: EventView) -> (RunView, ActionView) {
    let i = v.index;
    match (v.phase, e) {
        (Phase::Confirming, EventView::Answer(yes)) => if yes {
            advance(v, 0)
        } else {
            (
                at(RunView { report: with_cancel(v.report, "已取消：文件数量多于剧集数量"@), ..v }, i, Phase::Finished),
                ActionView::Finished,
            )
        },
        (Phase::CheckingTarget, EventView::Exists(exists)) => if exists {
            advance(
                RunView { report: with_skip(v.report, skip_detail(v.sources[i], "目标已存在"@)), ..v },
                i + 1,
            )
        } else {
            (at(v, i, Phase::Transferring), ActionView::TransferVideo(source_path(v, i), target_path(v, i), v.mode))
        },
        (Phase::Transferring, EventView::Transferred(r)) => match r {
            Ok(()) => (
                at(RunView { report: with_success(v.report), ..v }, i, Phase::Listing),
                ActionView::ListDirectory(v.base),
            ),
            Err(f) => if v.mode == VideoTransferMode::HardLink && f.cross_device {
                (at(v, i, Phase::ConfirmingCrossVolume), ActionView::ConfirmCrossVolume(v.base, v.target_dir))
            } else {
                advance(
                    RunView { report: with_failure(v.report, failure_detail(v.sources[i], f.message)), ..v },
                    i + 1,
                )
            },
        },
        (Phase::ConfirmingCrossVolume, EventView::Answer(yes)) => if yes {
            (
                RunView {
                    mode: VideoTransferMode::Copy,
                    report: ReportView { transfer_mode: VideoTransferMode::Copy, ..v.report },
                    phase: Phase::RetryingCopy,
                    ..v
                },
                ActionView::TransferVideo(source_path(v, i), target_path(v, i), VideoTransferMode::Copy),
            )
        } else {
            (
                at(RunView { report: with_cancel(v.report, "已取消：跨盘复制未确认"@), ..v }, i, Phase::Finished),
                ActionView::Finished,
            )
        },
        (Phase::RetryingCopy, EventView::Transferred(r)) => match r {
            Ok(()) => (
                at(RunView { report: with_success(v.report), ..v }, i, Phase::Listing),
                ActionView::ListDirectory(v.base),
            ),
            Err(f) => advance(
                RunView { report: with_failure(v.report, failure_detail(v.sources[i], f.message)), ..v },
                i + 1,
            ),
        },
        (Phase::Listing, EventView::Listing(names)) => next_subtitle(
            RunView { subs: matching_subtitles(v.sources[i], names), ..v },
            0,
        ),
        (Phase::CheckingSubtitle, EventView::Exists(exists)) => if exists {
            next_subtitle(
                RunView {
                    report: ReportView {
                        subtitle_skipped: inc(v.report.subtitle_skipped),
                        details: v.report.details.push(
                            "跳过字幕文件 '"@ + v.subs[v.sub_index].0 + "': 目标已存在"@,
                        ),
                        ..v.report
                    },
                    ..v
                },
                v.sub_index + 1,
            )
        } else {
            (
                RunView { phase: Phase::CopyingSubtitle, ..v },
                ActionView::CopySubtitle(subtitle_source(v, v.sub_index), subtitle_target(v, v.sub_index)),
            )
        },
        (Phase::CopyingSubtitle, EventView::Copied(r)) => match r {
            Ok(()) => next_subtitle(
                RunView {
                    report: ReportView { subtitle_copied: inc(v.report.subtitle_copied), ..v.report },
                    ..v
                },
                v.sub_index + 1,
            ),
            Err(m) => next_subtitle(
                RunView {
                    report: ReportView {
                        subtitle_failed: inc(v.report.subtitle_failed),
                        details: v.report.details.push(
                            "字幕文件复制失败: '"@ + v.subs[v.sub_index].0 + "', 错误: "@ + m,
                        ),
                        ..v.report
                    },
                    ..v
                },
                v.sub_index + 1,
            ),
        },
        _ => (v, ActionView::Finished),
    }
}

/// The state a run starts in and its first action: a confirmation when there
/// are more files than episodes, else the first file.
pub open spec fn start_run(
    sources: Seq<Seq<char>>,
    labels: Seq<Seq<char>>,
    base: Seq<char>,
    target_dir: Seq<char>,
    mode: VideoTransferMode,
    report: ReportView,
) -> (RunView, ActionView) {
    let v = RunView {
        report: ReportView { transfer_mode: mode, ..report },
        sources,
        labels,
        base,
        target_dir,
        mode,
        index: 0,
        phase: Phase::Confirming,
        subs: Seq::empty(),
        sub_index: 0,
    };
    if sources.len() > labels.len() {
        (v, ActionView::Confirm(count_warning(sources.len(), labels.len())))
    } else {
        advance(v, 0)
    }
}


/// The phases that work on one source file.
pub open spec fn file_phase(p: Phase) -> bool {
    p == Phase::CheckingTarget || p == Phase::Transferring || p == Phase::ConfirmingCrossVolume
        || p == Phase::RetryingCopy || p == Phase::Listing || p == Phase::CheckingSubtitle
        || p == Phase::CopyingSubtitle
}

/// The phases after the current file was transferred.
pub open spec fn after_transfer(p: Phase) -> bool {
    p == Phase::Listing || p == Phase::CheckingSubtitle || p == Phase::CopyingSubtitle
}

/// Transfers, failures and skips counted so far.
pub open spec fn files_counted(r: ReportView) -> int {
    r.successful_links + r.failed_links + r.skipped_files
}

/// The consistency of a run: the current file and subtitle exist, and every
/// file before the current one (and the current one once transferred) is
/// counted exactly once.
pub open spec fn run_ok(v: RunView) -> bool {
    &&& v.sources.len() <= usize::MAX
    &&& 0 <= v.index <= v.sources.len()
    &&& file_phase(v.phase) ==> v.index < v.sources.len() && v.index < v.labels.len()
    &&& (v.phase == Phase::CheckingSubtitle || v.phase == Phase::CopyingSubtitle) ==> 0 <= v.sub_index
        < v.subs.len()
    &&& v.phase == Phase::Confirming ==> v.index == 0
    &&& (v.phase == Phase::Finished && !v.report.cancelled) ==> v.index == v.sources.len()
    &&& (v.phase == Phase::CheckingTarget || v.phase == Phase::Transferring
        || v.phase == Phase::ConfirmingCrossVolume || v.phase == Phase::RetryingCopy) ==> !same_path(
        source_path(v, v.index),
        target_path(v, v.index),
    )
    &&& files_counted(v.report) == v.index + if after_transfer(v.phase) {
        1int
    } else {
        0int
    }
}

/// A run over the selected source files.
pub struct RenameRun {
    report: FileOperationReport,
    sources: Vec<String>,
    labels: Vec<String>,
    base: String,
    target_dir: String,
    mode: VideoTransferMode,
    index: usize,
    phase: Phase,
    subs: Vec<(String, String)>,
    sub_index: usize,
}

impl View for RenameRun {
    type V = RunView;

    closed spec fn view(&self) -> RunView {
        RunView {
            report: self.report@,
            sources: string_views(self.sources@),
            labels: string_views(self.labels@),
            base: self.base@,
            target_dir: self.target_dir@,
            mode: self.mode,
            index: self.index as int,
            phase: self.phase,
            subs: pair_views(self.subs@),
            sub_index: self.sub_index as int,
        }
    }
}

/// "prefix 'name'middle" + tail, as a string.
pub(crate) fn quoted(prefix: &str, name: &str, middle: &str, tail: &str) -> (r: String)
    ensures
        r@ == prefix@ + name@ + middle@ + tail@,
{
    let mut out = prefix.to_owned();
    push_str(&mut out, name);
    push_str(&mut out, middle);
    push_str(&mut out, tail);
    out
}

/// The decimal numeral of `n`, as a string.
pub fn usize_text(n: usize) -> (r: String)
    ensures
        r@ == dec_digits(n as nat),
{
    let mut digits: Vec<char> = Vec::new();
    push_dec(&mut digits, n as u64);
    let mut out = String::new();
    push_range(&mut out, &digits, 0, digits.len());
    assert(digits@.subrange(0, digits@.len() as int) =~= digits@);
    out
}

impl RenameRun {
    /// The report of the run so far.
    pub fn report(&self) -> (r: &FileOperationReport)
        ensures
            r@ == self@.report,
    {
        &self.report
    }

    /// The report, once the run is over.
    pub fn into_report(self) -> (r: FileOperationReport)
        ensures
            r@ == self@.report,
    {
        self.report
    }

    /// Whether the run is over.
    pub fn is_finished(&self) -> (r: bool)
        ensures
            r == (self@.phase == Phase::Finished),
    {
        self.phase == Phase::Finished
    }

    /// The path of source file `i`.
    fn source_path_of(&self, i: usize) -> (r: String)
        requires
            i < self@.sources.len(),
        ensures
            r@ == source_path(self@, i as int),
    {
        path_join(self.base.as_str(), self.sources[i].as_str())
    }

    /// The path source file `i` is renamed to.
    fn target_path_of(&self, i: usize) -> (r: String)
        requires
            i < self@.sources.len(),
            i < self@.labels.len(),
        ensures
            r@ == target_path(self@, i as int),
    {
        let name = new_episode_file_name(self.base.as_str(), self.sources[i].as_str(), self.labels[i].as_str());
        path_join(self.target_dir.as_str(), name.as_str())
    }

    /// Counts file `i` as skipped for `reason`.
    fn skip_file(&mut self, i: usize, reason: &str)
        requires
            i < old(self)@.sources.len(),
            files_counted(old(self)@.report) < usize::MAX,
        ensures
            final(self)@ == (RunView {
                report: with_skip(old(self)@.report, skip_detail(old(self)@.sources[i as int], reason@)),
                ..old(self)@
            }),
    {
        let detail = quoted("跳过文件 '", self.sources[i].as_str(), "': ", reason);
        self.report.skipped_files = self.report.skipped_files + 1;
        self.report.details.push(detail);
        assert(self@.report.details =~= old(self)@.report.details.push(skip_detail(old(self)@.sources[i as int], reason@)));
        assert(self@.report == with_skip(old(self)@.report, skip_detail(old(self)@.sources[i as int], reason@)));
    }

    /// Moves on from file `from`.
    fn advance_from(&mut self, from: usize) -> (r: RenameAction)
        requires
            from <= old(self)@.sources.len(),
            old(self)@.sources.len() <= usize::MAX,
            files_counted(old(self)@.report) == from,
        ensures
            (final(self)@, r@) == advance(old(self)@, from as int),
            run_ok(final(self)@),
    {
        let mut i = from;
        loop
            invariant
                from <= i <= self@.sources.len(),
                self@.sources.len() <= usize::MAX,
                self@.sources == old(self)@.sources,
                self@.labels == old(self)@.labels,
                self@.base == old(self)@.base,
                self@.target_dir == old(self)@.target_dir,
                files_counted(self@.report) == i,
                advance(old(self)@, from as int) == advance(self@, i as int),
            decreases self@.sources.len() - i,
        {
            if i >= self.sources.len() {
                self.index = self.sources.len();
                self.phase = Phase::Finished;
                return RenameAction::Finished;
            }
            if i >= self.labels.len() {
                self.skip_file(i, "超出剧集范围");
                i = i + 1;
                continue;
            }
            let src = self.source_path_of(i);
            let tgt = self.target_path_of(i);
            if paths_equal(src.as_str(), tgt.as_str()) {
                self.skip_file(i, "源与目标相同");
                i = i + 1;
                continue;
            }
            self.index = i;
            self.phase = Phase::CheckingTarget;
            return RenameAction::CheckExists(tgt);
        }
    }

    /// Starts a run: `source_files` are the selected names in `base_path`,
    /// to be renamed after `formatted_episode_names` in `target_anime_dir`.
    pub fn start(
        source_files: Vec<String>,
        base_path: String,
        formatted_episode_names: Vec<String>,
        target_anime_dir: String,
        transfer_mode: VideoTransferMode,
    ) -> (r: (RenameRun, RenameAction))
        ensures
            (r.0@, r.1@) == start_run(
                string_views(source_files@),
                string_views(formatted_episode_names@),
                base_path@,
                target_anime_dir@,
                transfer_mode,
                empty_report(),
            ),
            run_ok(r.0@),
    {
        let mut report = FileOperationReport::new();
        report.transfer_mode = transfer_mode;
        let n = source_files.len();
        let m = formatted_episode_names.len();
        let mut run = RenameRun {
            report,
            sources: source_files,
            labels: formatted_episode_names,
            base: base_path,
            target_dir: target_anime_dir,
            mode: transfer_mode,
            index: 0,
            phase: Phase::Confirming,
            subs: Vec::new(),
            sub_index: 0,
        };
        assert(run@.subs =~= Seq::<(Seq<char>, Seq<char>)>::empty());
        if n > m {
            let mut msg = "警告: 选择的文件数量 (".to_owned();
            push_str(&mut msg, usize_text(n).as_str());
            push_str(&mut msg, ") 多于剧集数量 (");
            push_str(&mut msg, usize_text(m).as_str());
            push_str(&mut msg, "). 是否继续?");
            return (run, RenameAction::Confirm(msg));
        }
        let action = run.advance_from(0);
        (run, action)
    }

    /// Moves on to subtitle `j` of the current file, or to the next file.
    fn next_subtitle_from(&mut self, j: usize) -> (r: RenameAction)
        requires
            old(self)@.index < old(self)@.sources.len(),
            old(self)@.index < old(self)@.labels.len(),
            old(self)@.sources.len() <= usize::MAX,
            files_counted(old(self)@.report) == old(self)@.index + 1,
        ensures
            (final(self)@, r@) == next_subtitle(old(self)@, j as int),
            run_ok(final(self)@),
    {
        if j >= self.subs.len() {
            return self.advance_from(self.index + 1);
        }
        self.sub_index = j;
        self.phase = Phase::CheckingSubtitle;
        RenameAction::CheckExists(self.subtitle_target_of(j))
    }

    /// The path subtitle `j` of the current file is copied to.
    fn subtitle_target_of(&self, j: usize) -> (r: String)
        requires
            j < self@.subs.len(),
            self@.index < self@.sources.len(),
            self@.index < self@.labels.len(),
        ensures
            r@ == subtitle_target(self@, j as int),
    {
        let i = self.index;
        let cleaned_label = clean_filename(self.labels[i].as_str());
        let name = new_subtitle_file_name(
            self.sources[i].as_str(),
            self.subs[j].0.as_str(),
            self.subs[j].1.as_str(),
            cleaned_label.as_str(),
        );
        path_join(self.target_dir.as_str(), name.as_str())
    }

    fn on_answer(&mut self, yes: bool) -> (r: RenameAction)
        requires
            run_ok(old(self)@),
            old(self)@.phase == Phase::Confirming || old(self)@.phase == Phase::ConfirmingCrossVolume,
        ensures
            (final(self)@, r@) == step(old(self)@, EventView::Answer(yes)),
            run_ok(final(self)@),
    {
        let i = self.index;
        if self.phase == Phase::Confirming {
            if yes {
                return self.advance_from(0);
            }
            self.report.cancelled = true;
            self.report.cancel_message = Some("已取消：文件数量多于剧集数量".to_owned());
            self.phase = Phase::Finished;
            return RenameAction::Finished;
        }
        if yes {
            self.mode = VideoTransferMode::Copy;
            self.report.transfer_mode = VideoTransferMode::Copy;
            self.phase = Phase::RetryingCopy;
            let src = self.source_path_of(i);
            let tgt = self.target_path_of(i);
            return RenameAction::TransferVideo { source: src, target: tgt, mode: VideoTransferMode::Copy };
        }
        self.report.cancelled = true;
        self.report.cancel_message = Some("已取消：跨盘复制未确认".to_owned());
        self.phase = Phase::Finished;
        RenameAction::Finished
    }

    fn on_exists(&mut self, exists: bool) -> (r: RenameAction)
        requires
            run_ok(old(self)@),
            old(self)@.phase == Phase::CheckingTarget || old(self)@.phase == Phase::CheckingSubtitle,
        ensures
            (final(self)@, r@) == step(old(self)@, EventView::Exists(exists)),
            run_ok(final(self)@),
    {
        let i = self.index;
        if self.phase == Phase::CheckingTarget {
            if exists {
                self.skip_file(i, "目标已存在");
                return self.advance_from(i + 1);
            }
            self.phase = Phase::Transferring;
            let src = self.source_path_of(i);
            let tgt = self.target_path_of(i);
            return RenameAction::TransferVideo { source: src, target: tgt, mode: self.mode };
        }
        let j = self.sub_index;
        let ns = self.subs.len();
        assert(j < ns);
        if exists {
            let ghost v0 = self@;
            let mut detail = "跳过字幕文件 '".to_owned();
            push_str(&mut detail, self.subs[j].0.as_str());
            push_str(&mut detail, "': 目标已存在");
            self.report.subtitle_skipped = self.report.subtitle_skipped.saturating_add(1);
            self.report.details.push(detail);
            assert(self@.report.details =~= v0.report.details.push(
                "跳过字幕文件 '"@ + v0.subs[j as int].0 + "': 目标已存在"@,
            ));
            assert(self@ == RunView {
                report: ReportView {
                    subtitle_skipped: inc(v0.report.subtitle_skipped),
                    details: v0.report.details.push(
                        "跳过字幕文件 '"@ + v0.subs[v0.sub_index].0 + "': 目标已存在"@,
                    ),
                    ..v0.report
                },
                ..v0
            });
            return self.next_subtitle_from(j + 1);
        }
        self.phase = Phase::CopyingSubtitle;
        let src = path_join(self.base.as_str(), self.subs[j].0.as_str());
        let tgt = self.subtitle_target_of(j);
        RenameAction::CopySubtitle { source: src, target: tgt }
    }

    fn on_transferred(&mut self, result: Result<(), TransferFailure>) -> (r: RenameAction)
        requires
            run_ok(old(self)@),
            old(self)@.phase == Phase::Transferring || old(self)@.phase == Phase::RetryingCopy,
        ensures
            (final(self)@, r@) == step(old(self)@, RenameEvent::Transferred(result)@),
            run_ok(final(self)@),
    {
        let i = self.index;
        match result {
            Ok(()) => {
                let ghost v0 = self@;
                assert(v0.report.successful_links < usize::MAX);
                self.report.successful_links = self.report.successful_links + 1;
                self.phase = Phase::Listing;
                assert(self@.report == with_success(v0.report));
                assert(self@ == at(RunView { report: with_success(v0.report), ..v0 }, i as int, Phase::Listing));
                RenameAction::ListDirectory(self.base.clone())
            },
            Err(f) => {
                if self.phase == Phase::Transferring && self.mode == VideoTransferMode::HardLink
                    && f.cross_device {
                    self.phase = Phase::ConfirmingCrossVolume;
                    return RenameAction::ConfirmCrossVolume {
                        source_root: self.base.clone(),
                        target_root: self.target_dir.clone(),
                    };
                }
                let ghost v0 = self@;
                let detail = quoted("失败: '", self.sources[i].as_str(), "', 错误: ", f.message.as_str());
                self.report.failed_links = self.report.failed_links + 1;
                self.report.details.push(detail);
                assert(self@.report.details =~= v0.report.details.push(failure_detail(v0.sources[i as int], f.message@)));
                assert(self@ == RunView { report: with_failure(v0.report, failure_detail(v0.sources[i as int], f.message@)), ..v0 });
                self.advance_from(i + 1)
            },
        }
    }

    fn on_listing(&mut self, names: Vec<String>) -> (r: RenameAction)
        requires
            run_ok(old(self)@),
            old(self)@.phase == Phase::Listing,
        ensures
            (final(self)@, r@) == step(old(self)@, EventView::Listing(string_views(names@))),
            run_ok(final(self)@),
    {
        let i = self.index;
        let ghost v0 = self@;
        self.subs = find_matching_subtitle_files(self.sources[i].as_str(), names.as_slice());
        assert(v0.sources[i as int] == self.sources@[i as int]@);
        assert(self@ == RunView { subs: matching_subtitles(v0.sources[i as int], string_views(names@)), ..v0 });
        self.next_subtitle_from(0)
    }

    fn on_copied(&mut self, result: Result<(), String>) -> (r: RenameAction)
        requires
            run_ok(old(self)@),
            old(self)@.phase == Phase::CopyingSubtitle,
        ensures
            (final(self)@, r@) == step(old(self)@, RenameEvent::Copied(result)@),
            run_ok(final(self)@),
    {
        let i = self.index;
        let j = self.sub_index;
        let ns = self.subs.len();
        assert(j < ns);
        let ghost v0 = self@;
        match result {
            Ok(()) => {
                self.report.subtitle_copied = self.report.subtitle_copied.saturating_add(1);
                assert(self@ == RunView {
                    report: ReportView { subtitle_copied: inc(v0.report.subtitle_copied), ..v0.report },
                    ..v0
                });
                self.next_subtitle_from(j + 1)
            },
            Err(m) => {
                let detail = quoted("字幕文件复制失败: '", self.subs[j].0.as_str(), "', 错误: ", m.as_str());
                self.report.subtitle_failed = self.report.subtitle_failed.saturating_add(1);
                self.report.details.push(detail);
                assert(self@.report.details =~= v0.report.details.push(
                    "字幕文件复制失败: '"@ + v0.subs[v0.sub_index].0 + "', 错误: "@ + m@,
                ));
                assert(self@ == RunView {
                    report: ReportView {
                        subtitle_failed: inc(v0.report.subtitle_failed),
                        details: v0.report.details.push(
                            "字幕文件复制失败: '"@ + v0.subs[v0.sub_index].0 + "', 错误: "@ + m@,
                        ),
                        ..v0.report
                    },
                    ..v0
                });
                self.next_subtitle_from(j + 1)
            },
        }
    }

    /// Takes what the caller reports and says what to do next.
    pub fn on_event(&mut self, event: RenameEvent) -> (r: RenameAction)
        requires
            run_ok(old(self)@),
            expects(old(self)@.phase, event@),
        ensures
            (final(self)@, r@) == step(old(self)@, event@),
            run_ok(final(self)@),
    {
        match event {
            RenameEvent::Answer(yes) => self.on_answer(yes),
            RenameEvent::Exists(exists) => self.on_exists(exists),
            RenameEvent::Transferred(result) => self.on_transferred(result),
            RenameEvent::Listing(names) => self.on_listing(names),
            RenameEvent::Copied(result) => self.on_copied(result),
        }
    }
}

proof fn lemma_advance_no_transfer(v: RunView, i: int)
    ensures
        advance(v, i).1 is CheckExists || advance(v, i).1 is Finished,
    decreases v.sources.len() - i,
{
    if 0 <= i < v.sources.len() {
        if i >= v.labels.len() {
            lemma_advance_no_transfer(
                RunView { report: with_skip(v.report, skip_detail(v.sources[i], "超出剧集范围"@)), ..v },
                i + 1,
            );
        } else if same_path(source_path(v, i), target_path(v, i)) {
            lemma_advance_no_transfer(
                RunView { report: with_skip(v.report, skip_detail(v.sources[i], "源与目标相同"@)), ..v },
                i + 1,
            );
        }
    }
}

proof fn lemma_next_subtitle_no_transfer(v: RunView, j: int)
    ensures
        next_subtitle(v, j).1 is CheckExists || next_subtitle(v, j).1 is Finished,
{
    if j < 0 || j >= v.subs.len() {
        lemma_advance_no_transfer(v, v.index + 1);
    }
}

/// A run never transfers a video onto itself: every transfer it asks for,
/// first or later, goes between two different paths.
pub proof fn lemma_no_transfer_onto_itself(v: RunView, e: EventView)
    requires
        run_ok(v),
        expects(v.phase, e),
    ensures
        step(v, e).1 matches ActionView::TransferVideo(s, t, _) ==> !same_path(s, t),
{
    let i = v.index;
    match (v.phase, e) {
        (Phase::Confirming, EventView::Answer(yes)) => {
            lemma_advance_no_transfer(v, 0);
        },
        (Phase::CheckingTarget, EventView::Exists(exists)) => {
            lemma_advance_no_transfer(
                RunView { report: with_skip(v.report, skip_detail(v.sources[i], "目标已存在"@)), ..v },
                i + 1,
            );
        },
        (Phase::Transferring, EventView::Transferred(r)) => {
            if let Err(f) = r {
                lemma_advance_no_transfer(
                    RunView { report: with_failure(v.report, failure_detail(v.sources[i], f.message)), ..v },
                    i + 1,
                );
            }
        },
        (Phase::RetryingCopy, EventView::Transferred(r)) => {
            if let Err(f) = r {
                lemma_advance_no_transfer(
                    RunView { report: with_failure(v.report, failure_detail(v.sources[i], f.message)), ..v },
                    i + 1,
                );
            }
        },
        (Phase::Listing, EventView::Listing(names)) => {
            lemma_next_subtitle_no_transfer(RunView { subs: matching_subtitles(v.sources[i], names), ..v }, 0);
        },
        (Phase::CheckingSubtitle, EventView::Exists(exists)) => {
            lemma_next_subtitle_no_transfer(
                RunView {
                    report: ReportView {
                        subtitle_skipped: inc(v.report.subtitle_skipped),
                        details: v.report.details.push(
                            "跳过字幕文件 '"@ + v.subs[v.sub_index].0 + "': 目标已存在"@,
                        ),
                        ..v.report
                    },
                    ..v
                },
                v.sub_index + 1,
            );
        },
        (Phase::CopyingSubtitle, EventView::Copied(r)) => {
            match r {
                Ok(()) => {
                    lemma_next_subtitle_no_transfer(
                        RunView {
                            report: ReportView { subtitle_copied: inc(v.report.subtitle_copied), ..v.report },
                            ..v
                        },
                        v.sub_index + 1,
                    );
                },
                Err(m) => {
                    lemma_next_subtitle_no_transfer(
                        RunView {
                            report: ReportView {
                                subtitle_failed: inc(v.report.subtitle_failed),
                                details: v.report.details.push(
                                    "字幕文件复制失败: '"@ + v.subs[v.sub_index].0 + "', 错误: "@ + m,
                                ),
                                ..v.report
                            },
                            ..v
                        },
                        v.sub_index + 1,
                    );
                },
            }
        },
        _ => {},
    }
}

/// The first action of a run is never a transfer.
pub proof fn lemma_start_no_transfer(
    sources: Seq<Seq<char>>,
    labels: Seq<Seq<char>>,
    base: Seq<char>,
    target_dir: Seq<char>,
    mode: VideoTransferMode,
    report: ReportView,
)
    ensures
        !(start_run(sources, labels, base, target_dir, mode, report).1 is TransferVideo),
{
    let v = RunView {
        report: ReportView { transfer_mode: mode, ..report },
        sources,
        labels,
        base,
        target_dir,
        mode,
        index: 0,
        phase: Phase::Confirming,
        subs: Seq::empty(),
        sub_index: 0,
    };
    lemma_advance_no_transfer(v, 0);
}

/// A run that ends without being cancelled has counted every selected file
/// exactly once: as transferred, as failed, or as skipped.
pub proof fn lemma_finished_run_counts_every_file(v: RunView)
    requires
        run_ok(v),
        v.phase == Phase::Finished,
        !v.report.cancelled,
    ensures
        v.report.successful_links + v.report.failed_links + v.report.skipped_files == v.sources.len(),
{
}

/// A subtitle is renamed after its video: its target lies in the video's
/// target folder, and its name starts with the video's new name without
/// extension, which is the episode label with each reserved character
/// replaced and every other character kept; so that part of the name holds
/// no reserved character.
pub proof fn lemma_subtitle_follows_video_name(v: RunView, j: int)
    requires
        0 <= v.index < v.labels.len(),
        v.index < v.sources.len(),
        0 <= j < v.subs.len(),
    ensures
        ({
            let label = v.labels[v.index];
            exists|vn: Seq<char>, sn: Seq<char>|
                #![trigger join_path(v.target_dir, vn), join_path(v.target_dir, sn)]
                target_path(v, v.index) == join_path(v.target_dir, vn) && subtitle_target(v, j) == join_path(
                    v.target_dir,
                    sn,
                ) && vn.len() >= label.len() && sn.len() > label.len() && sn.take(label.len() as int) == vn.take(
                    label.len() as int,
                ) && (forall|k: int|
                    0 <= k < label.len() ==> !reserved_char(#[trigger] sn[k]) && (!reserved_char(label[k])
                        ==> sn[k] == label[k]))
        }),
{
    let label = v.labels[v.index];
    let cl = cleaned(label);
    lemma_cleaned_is_safe(label);
    let vn = episode_file_name(v.base, v.sources[v.index], label);
    let sn = subtitle_target_name(v.sources[v.index], v.subs[j].0, v.subs[j].1, cl);
    assert(vn.take(label.len() as int) =~= cl);
    assert(sn.take(label.len() as int) =~= cl);
    assert forall|k: int| 0 <= k < label.len() implies !reserved_char(#[trigger] sn[k]) && (!reserved_char(label[k])
        ==> sn[k] == label[k]) by {
        assert(sn[k] == cl[k]);
    }
    assert(target_path(v, v.index) == join_path(v.target_dir, vn));
    assert(subtitle_target(v, j) == join_path(v.target_dir, sn));
}

} // verus!
