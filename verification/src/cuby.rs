//! The main window's decisions. The window hands each message (with what it
//! read from its widgets or dialogs) to [`Cuby::handle_message`], which
//! updates the state and answers with the widget changes and the work to do,
//! in order; the outcome of that work comes back as further messages.
use vstd::prelude::*;
use crate::bangumi_api::{episode_label, episode_width, preferred_name, Episode, Episodes, Subject};
use crate::http::join2;
use crate::names::{anime_folder_name, anime_title, extract_anime_name_regex, new_anime_folder_name, string_views};
use crate::num::{dec_digits, int_digits, push_dec, push_dec_padded, push_int, zero_pad};
use crate::paths::{file_name_of, join_path, path_file_name, path_join, seq_chars_equal};
use crate::report::{detail_text, summary_text, FileOperationReport, VideoTransferMode};
use crate::text::{chars_of, push_range, push_str};

verus! {

/// The folders given on the command line.
#[derive(Debug, Clone)]
pub struct CliArgs {
    /// The folder holding the video files.
    pub base_path: Option<String>,
    /// The library folder the renamed files go to.
    pub anime_path: Option<String>,
}

/// What the search list shows.
pub enum UiMode {
    Idle,
    SearchResults { subjects: Vec<Subject> },
    EpisodeList { subject: Subject, episodes: Episodes },
}

/// A message to the window, with what the window read for it.
pub enum Message {
    Register,
    Logout,
    About,
    Exit,
    /// The library folder chosen in the folder dialog, if one was.
    ButtonA { chosen: Option<String> },
    /// The source folder chosen in the folder dialog, if one was.
    ButtonB { chosen: Option<String> },
    /// The text of the search box.
    Search { query: String },
    /// The names listed in the file list, in order.
    Start { source_files: Vec<String> },
    FileBrowserPush,
    SearchBrowserPush,
    /// The selected line (from 1) and the number of lines of the search list.
    SearchBrowserDoubleClick { line: i32, size: i32 },
    /// The selected line (from 1) and the number of lines of the search list.
    SearchBrowserRightClick { line: i32, size: i32 },
    SearchCompleted { query: String, result: Result<Vec<Subject>, String> },
    EpisodesCompleted { subject: Subject, result: Result<Episodes, String> },
    /// Opening a subject's web page failed with this error.
    UrlOpenFailed(String),
    /// The rename could not start; the message says why.
    OperationFailed(String),
    /// The rename run is over.
    OperationFinished(FileOperationReport),
}

/// What the window is to do.
pub enum UiAction {
    SetInfo(String),
    ClearSearchBrowser,
    AddSearchLine(String),
    ClearFileBrowser,
    /// List the video files of this folder in the file list.
    LoadFiles(String),
    SetSearchInput(String),
    /// Add the folder context menu entry for this library folder.
    RegisterMenu(String),
    /// Remove the folder context menu entry.
    UnregisterMenu,
    /// Open this URL in the browser; on failure send `UrlOpenFailed` when asked to.
    OpenUrl { url: String, report_failure: bool },
    HideWindow,
    /// Search subjects by these keywords and send `SearchCompleted`.
    SearchSubjects(String),
    /// Fetch the episodes of this subject and send `EpisodesCompleted`.
    FetchEpisodes(Subject),
    /// Show this text in a message box.
    ShowMessage(String),
    /// Create `target_dir`, choose how videos are transferred, and run the
    /// rename of `source_files` (in `base_path`) after `episode_names`;
    /// send `OperationFailed` or `OperationFinished`.
    BeginOperation {
        base_path: String,
        target_dir: String,
        source_files: Vec<String>,
        episode_names: Vec<String>,
    },
    Redraw,
}

/// The abstract value of a [`UiAction`].
pub enum UiActionView {
    SetInfo(Seq<char>),
    ClearSearchBrowser,
    AddSearchLine(Seq<char>),
    ClearFileBrowser,
    LoadFiles(Seq<char>),
    SetSearchInput(Seq<char>),
    RegisterMenu(Seq<char>),
    UnregisterMenu,
    OpenUrl(Seq<char>, bool),
    HideWindow,
    SearchSubjects(Seq<char>),
    FetchEpisodes(Subject),
    ShowMessage(Seq<char>),
    BeginOperation(Seq<char>, Seq<char>, Seq<Seq<char>>, Seq<Seq<char>>),
    Redraw,
}

impl View for UiAction {
    type V = UiActionView;

    open spec fn view(&self) -> UiActionView {
        match self {
            UiAction::SetInfo(s) => UiActionView::SetInfo(s@),
            UiAction::ClearSearchBrowser => UiActionView::ClearSearchBrowser,
            UiAction::AddSearchLine(s) => UiActionView::AddSearchLine(s@),
            UiAction::ClearFileBrowser => UiActionView::ClearFileBrowser,
            UiAction::LoadFiles(s) => UiActionView::LoadFiles(s@),
            UiAction::SetSearchInput(s) => UiActionView::SetSearchInput(s@),
            UiAction::RegisterMenu(s) => UiActionView::RegisterMenu(s@),
            UiAction::UnregisterMenu => UiActionView::UnregisterMenu,
            UiAction::OpenUrl { url, report_failure } => UiActionView::OpenUrl(url@, *report_failure),
            UiAction::HideWindow => UiActionView::HideWindow,
            UiAction::SearchSubjects(s) => UiActionView::SearchSubjects(s@),
            UiAction::FetchEpisodes(s) => UiActionView::FetchEpisodes(*s),
            UiAction::ShowMessage(s) => UiActionView::ShowMessage(s@),
            UiAction::BeginOperation { base_path, target_dir, source_files, episode_names } => UiActionView::BeginOperation(
                base_path@,
                target_dir@,
                string_views(source_files@),
                string_views(episode_names@),
            ),
            UiAction::Redraw => UiActionView::Redraw,
        }
    }
}

/// The abstract values of a list of actions.
pub open spec fn action_views(v: Seq<UiAction>) -> Seq<UiActionView> {
    v.map_values(|a: UiAction| a@)
}

/// The window's state.
pub struct Cuby {
    base_path: String,
    anime_path: String,
    ui_mode: UiMode,
    pending_search_query: Option<String>,
    pending_episode_subject_id: Option<u64>,
}

/// The abstract value of a [`Cuby`].
pub struct CubyView {
    pub base_path: Seq<char>,
    pub anime_path: Seq<char>,
    pub mode: UiMode,
    pub pending_search: Option<Seq<char>>,
    pub pending_episode: Option<u64>,
}

impl View for Cuby {
    type V = CubyView;

    closed spec fn view(&self) -> CubyView {
        CubyView {
            base_path: self.base_path@,
            anime_path: self.anime_path@,
            mode: self.ui_mode,
            pending_search: self.pending_search_query.deep_view(),
            pending_episode: self.pending_episode_subject_id,
        }
    }
}

/// The page of the project, opened by "about".
pub const ABOUT_URL: &'static str = "https://github.com/uuzp/bgm_rename_cuby";

/// Setting the info line.
pub open spec fn info(s: Seq<char>) -> UiActionView {
    UiActionView::SetInfo(s)
}

/// The line of a subject in the search list.
pub open spec fn subject_line(s: Subject) -> Seq<char> {
    if s.name_cn@.len() == 0 {
        s.name@
    } else {
        s.name_cn@ + " ("@ + s.name@ + ")"@
    }
}

/// The lines of the subjects found.
pub open spec fn subject_lines(subjects: Seq<Subject>) -> Seq<UiActionView> {
    Seq::new(subjects.len(), |i: int| UiActionView::AddSearchLine(subject_line(subjects[i])))
}

/// The line of an episode in the search list.
pub open spec fn episode_line(e: Episode) -> Seq<char> {
    "Ep."@ + zero_pad(dec_digits(e.sort as nat), 2) + " - "@ + preferred_name(e.name@, e.name_cn@)
}

/// The lines of the episodes of a subject.
pub open spec fn episode_lines(items: Seq<Episode>) -> Seq<UiActionView> {
    Seq::new(items.len(), |i: int| UiActionView::AddSearchLine(episode_line(items[i])))
}

/// The search box filled from a source folder's name, when a title can be read from it.
pub open spec fn name_fill(path: Seq<char>) -> Seq<UiActionView> {
    match file_name_of(path) {
        Some(n) => match anime_title(n) {
            Some(t) => seq![UiActionView::SetSearchInput(t)],
            None => Seq::empty(),
        },
        None => Seq::empty(),
    }
}

/// What a line of the search list selects.
pub enum Selection {
    /// The list does not show search results.
    NotResults,
    /// No line is selected.
    NoLine,
    /// The line has no subject.
    Invalid,
    Chosen(Subject),
}

/// The subject selected by `line` (from 1) of a list of `size` lines.
pub open spec fn selection(mode: UiMode, line: i32, size: i32) -> Selection {
    match mode {
        UiMode::SearchResults { subjects } => if line <= 0 || line > size {
            Selection::NoLine
        } else if line - 1 < subjects@.len() {
            Selection::Chosen(subjects@[line - 1])
        } else {
            Selection::Invalid
        },
        _ => Selection::NotResults,
    }
}

/// What the window shows when no subject is selected.
pub open spec fn selection_actions(sel: Selection) -> Seq<UiActionView> {
    match sel {
        Selection::NotResults => seq![info("当前不是番剧搜索结果列表"@)],
        Selection::NoLine => seq![info("请选择一个番剧"@)],
        Selection::Invalid => seq![
            UiActionView::ClearSearchBrowser,
            UiActionView::AddSearchLine("选择无效或数据不一致"@),
            info("选择无效"@),
        ],
        Selection::Chosen(_) => Seq::empty(),
    }
}

/// The episode file names of a list of episodes.
pub open spec fn formatted(items: Seq<Episode>) -> Seq<Seq<char>> {
    Seq::new(items.len(), |i: int| episode_label(items[i], episode_width(items)))
}

/// Starting a search for `q`: older replies are to be ignored from now on.
pub open spec fn start_search(st: CubyView, q: Seq<char>) -> (CubyView, Seq<UiActionView>) {
    (
        CubyView { pending_search: Some(q), pending_episode: None, mode: UiMode::Idle, ..st },
        seq![
            UiActionView::ClearSearchBrowser,
            UiActionView::AddSearchLine("搜索中..."@),
            info("正在搜索: "@ + q),
            UiActionView::SearchSubjects(q),
        ],
    )
}

/// The reply to the search for `q`; a reply to any search but the last is ignored.
pub open spec fn search_completed(st: CubyView, q: Seq<char>, result: Result<Vec<Subject>, String>) -> (
    CubyView,
    Seq<UiActionView>,
) {
    if st.pending_search != Some(q) {
        (st, Seq::empty())
    } else {
        let s1 = CubyView { pending_search: None, ..st };
        match result {
            Ok(subjects) => if subjects@.len() == 0 {
                (
                    CubyView { mode: UiMode::Idle, ..s1 },
                    seq![UiActionView::ClearSearchBrowser, info("未找到与\""@ + q + "\"相关的番剧"@)],
                )
            } else {
                (
                    CubyView { mode: UiMode::SearchResults { subjects }, ..s1 },
                    seq![UiActionView::ClearSearchBrowser] + subject_lines(subjects@) + seq![
                        info("找到 "@ + dec_digits(subjects@.len()) + " 个搜索结果"@),
                    ],
                )
            },
            Err(e) => (
                CubyView { mode: UiMode::Idle, ..s1 },
                seq![UiActionView::ClearSearchBrowser, info("搜索失败: "@ + e@)],
            ),
        }
    }
}

/// The reply to the episode request of `subject`; a reply for any subject
/// but the last one asked for is ignored.
pub open spec fn episodes_completed(st: CubyView, subject: Subject, result: Result<Episodes, String>) -> (
    CubyView,
    Seq<UiActionView>,
) {
    if st.pending_episode != Some(subject.id) {
        (st, Seq::empty())
    } else {
        let s1 = CubyView { pending_episode: None, ..st };
        match result {
            Ok(eps) => (
                CubyView { mode: UiMode::EpisodeList { subject, episodes: eps }, ..s1 },
                seq![UiActionView::ClearSearchBrowser] + if eps.items@.len() == 0 {
                    seq![UiActionView::AddSearchLine("未能获取到剧集信息或剧集列表为空"@), info("剧集列表为空"@)]
                } else {
                    episode_lines(eps.items@) + seq![info("已加载 "@ + dec_digits(eps.items@.len()) + " 集剧集信息"@)]
                },
            ),
            Err(e) => (s1, seq![info("获取剧集信息失败: "@ + e@)]),
        }
    }
}

/// The start button: both folders must be set and the episodes of a subject shown.
pub open spec fn start_actions(st: CubyView, sources: Seq<Seq<char>>) -> Seq<UiActionView> {
    if st.base_path.len() == 0 {
        seq![info("错误: 未设置源文件路径（B按钮）"@)]
    } else if st.anime_path.len() == 0 {
        seq![info("错误: 未设置目标位置路径（A按钮）"@)]
    } else {
        match st.mode {
            UiMode::EpisodeList { subject, episodes } => seq![
                UiActionView::BeginOperation(
                    st.base_path,
                    join_path(
                        st.anime_path,
                        anime_folder_name(preferred_name(subject.name@, subject.name_cn@), int_digits(episodes.year as int)),
                    ),
                    sources,
                    formatted(episodes.items@),
                ),
            ],
            _ => seq![info("错误: 请先搜索并选择番剧"@)],
        }
    }
}

/// The end of a rename run: a clean run clears the source folder, the file
/// list, the search box and the search list; a run with failures or skips
/// also shows its details.
pub open spec fn operation_finished(st: CubyView, report: FileOperationReport) -> (CubyView, Seq<UiActionView>) {
    let summary = summary_text(report@);
    if report.cancelled {
        (st, seq![info(summary)])
    } else if report.failed_links == 0 && report.skipped_files == 0 && report.subtitle_failed == 0
        && report.subtitle_skipped == 0 {
        (
            CubyView { base_path: Seq::empty(), mode: UiMode::Idle, ..st },
            seq![
                info(summary),
                UiActionView::ClearFileBrowser,
                UiActionView::SetSearchInput(Seq::empty()),
                UiActionView::ClearSearchBrowser,
            ],
        )
    } else {
        (
            st,
            seq![info(summary)] + match detail_text(report@) {
                Some(d) => seq![UiActionView::ShowMessage(d)],
                None => Seq::empty(),
            },
        )
    }
}

/// The new state and the actions for a message other than exiting.
pub open spec fn handle(st: CubyView, msg: Message) -> (CubyView, Seq<UiActionView>) {
    match msg {
        Message::Register => if st.anime_path.len() == 0 {
            (st, seq![info("错误: 未设置目标位置路径（A按钮）"@)])
        } else {
            (st, seq![UiActionView::RegisterMenu(st.anime_path)])
        },
        Message::Logout => (st, seq![UiActionView::UnregisterMenu]),
        Message::About => (st, seq![UiActionView::OpenUrl(ABOUT_URL@, false)]),
        Message::Exit => (st, Seq::empty()),
        Message::ButtonA { chosen } => match chosen {
            Some(p) => (CubyView { anime_path: p@, ..st }, seq![info("@ "@ + p@)]),
            None => (st, Seq::empty()),
        },
        Message::ButtonB { chosen } => match chosen {
            Some(p) => (
                CubyView { base_path: p@, ..st },
                seq![info("@ "@ + p@), UiActionView::LoadFiles(p@)] + name_fill(p@),
            ),
            None => (st, Seq::empty()),
        },
        Message::Search { query } => if query@.len() == 0 {
            (st, seq![info("无关键词"@)])
        } else {
            start_search(st, query@)
        },
        Message::Start { source_files } => (st, start_actions(st, string_views(source_files@))),
        Message::FileBrowserPush => (st, seq![info("@ "@ + st.base_path)]),
        Message::SearchBrowserPush => (st, seq![info("@ "@ + st.anime_path)]),
        Message::SearchBrowserDoubleClick { line, size } => match selection(st.mode, line, size) {
            Selection::Chosen(s) => (
                CubyView { pending_episode: Some(s.id), ..st },
                seq![
                    info("正在加载《"@ + preferred_name(s.name@, s.name_cn@) + "》的剧集信息..."@),
                    UiActionView::FetchEpisodes(s),
                ],
            ),
            sel => (st, selection_actions(sel)),
        },
        Message::SearchBrowserRightClick { line, size } => match selection(st.mode, line, size) {
            Selection::Chosen(s) => (st, seq![UiActionView::OpenUrl("https://bgm.tv/subject/"@ + dec_digits(s.id as nat), true)]),
            sel => (st, selection_actions(sel)),
        },
        Message::UrlOpenFailed(e) => (st, seq![info("打开 Bangumi 网页失败: "@ + e@)]),
        Message::SearchCompleted { query, result } => search_completed(st, query@, result),
        Message::EpisodesCompleted { subject, result } => episodes_completed(st, subject, result),
        Message::OperationFailed(m) => (st, seq![info(m@)]),
        Message::OperationFinished(report) => operation_finished(st, report),
    }
}

/// The new state, whether the window goes on, and the actions for a
/// message: exiting hides the window and stops; every other message ends
/// with a redraw.
pub open spec fn reaction(st: CubyView, msg: Message) -> (CubyView, bool, Seq<UiActionView>) {
    match msg {
        Message::Exit => (st, false, seq![UiActionView::HideWindow]),
        _ => (handle(st, msg).0, true, handle(st, msg).1.push(UiActionView::Redraw)),
    }
}

/// The state the window starts in.
pub open spec fn initial(cli: CliArgs) -> CubyView {
    CubyView {
        base_path: match cli.base_path {
            Some(p) => p@,
            None => Seq::empty(),
        },
        anime_path: match cli.anime_path {
            Some(p) => p@,
            None => Seq::empty(),
        },
        mode: UiMode::Idle,
        pending_search: None,
        pending_episode: None,
    }
}

/// What the window does first: list the source folder given on the command
/// line, and fill the search box from its name.
pub open spec fn initial_actions(cli: CliArgs) -> Seq<UiActionView> {
    match cli.base_path {
        Some(p) => if p@.len() > 0 {
            seq![UiActionView::LoadFiles(p@)] + name_fill(p@)
        } else {
            Seq::empty()
        },
        None => Seq::empty(),
    }
}

/// A field-by-field copy of a subject.
fn copy_subject(s: &Subject) -> (r: Subject)
    ensures
        r == *s,
{
    Subject {
        id: s.id,
        name: s.name.clone(),
        name_cn: s.name_cn.clone(),
        air_date: match &s.air_date {
            Some(d) => Some(d.clone()),
            None => None,
        },
    }
}

/// A copy of a string.
fn copy_string(s: &String) -> (r: String)
    ensures
        r == *s,
{
    s.clone()
}

/// The search box filled from a folder's name, when a title can be read from it.
fn push_name_fill(actions: &mut Vec<UiAction>, path: &str)
    ensures
        action_views(final(actions)@) == action_views(old(actions)@) + name_fill(path@),
{
    let ghost before = actions@;
    match path_file_name(path) {
        Some(n) => match extract_anime_name_regex(n.as_str()) {
            Some(t) => {
                actions.push(UiAction::SetSearchInput(t));
            },
            None => {},
        },
        None => {},
    }
    assert(action_views(actions@) =~= action_views(before) + name_fill(path@));
}

/// The decimal numeral of a count.
fn count_string(n: usize) -> (r: String)
    ensures
        r@ == dec_digits(n as nat),
{
    let mut digits: Vec<char> = Vec::new();
    push_dec(&mut digits, n as u64);
    let mut s = String::new();
    push_range(&mut s, &digits, 0, digits.len());
    assert(digits@.subrange(0, digits@.len() as int) =~= digits@);
    s
}

/// The line of a subject in the search list.
fn subject_line_text(s: &Subject) -> (r: String)
    ensures
        r@ == subject_line(*s),
{
    if s.name_cn.as_str().is_empty() {
        s.name.clone()
    } else {
        let mut out = s.name_cn.clone();
        push_str(&mut out, " (");
        push_str(&mut out, s.name.as_str());
        push_str(&mut out, ")");
        out
    }
}

/// The line of an episode in the search list.
fn episode_line_text(e: &Episode) -> (r: String)
    ensures
        r@ == episode_line(*e),
{
    let mut cs: Vec<char> = Vec::new();
    push_dec_padded(&mut cs, e.sort, 2);
    let mut out = "Ep.".to_owned();
    push_range(&mut out, &cs, 0, cs.len());
    assert(cs@.subrange(0, cs@.len() as int) =~= cs@);
    push_str(&mut out, " - ");
    push_str(&mut out, e.display_name());
    out
}

impl Cuby {
    /// The window's state when it opens, and what it does first.
    pub fn new(cli_args: &CliArgs) -> (r: (Cuby, Vec<UiAction>))
        ensures
            r.0@ == initial(*cli_args),
            action_views(r.1@) == initial_actions(*cli_args),
    {
        let base_path = match &cli_args.base_path {
            Some(p) => p.clone(),
            None => String::new(),
        };
        let anime_path = match &cli_args.anime_path {
            Some(p) => p.clone(),
            None => String::new(),
        };
        let mut actions: Vec<UiAction> = Vec::new();
        if !base_path.as_str().is_empty() {
            actions.push(UiAction::LoadFiles(base_path.clone()));
            push_name_fill(&mut actions, base_path.as_str());
        }
        proof {
            assert(action_views(actions@) =~= initial_actions(*cli_args));
        }
        let c = Cuby {
            base_path,
            anime_path,
            ui_mode: UiMode::Idle,
            pending_search_query: None,
            pending_episode_subject_id: None,
        };
        (c, actions)
    }
}

impl Cuby {
    /// The subject the selected line of the search list stands for, or what
    /// to show when there is none.
    fn selected(&self, line: i32, size: i32) -> (r: Result<Subject, Vec<UiAction>>)
        ensures
            match selection(self@.mode, line, size) {
                Selection::Chosen(s) => r == Ok::<Subject, Vec<UiAction>>(s),
                sel => r matches Err(a) && action_views(a@) == selection_actions(sel),
            },
    {
        let mut actions: Vec<UiAction> = Vec::new();
        match &self.ui_mode {
            UiMode::SearchResults { subjects } => {
                if line <= 0 || line > size {
                    actions.push(UiAction::SetInfo("请选择一个番剧".to_owned()));
                    assert(action_views(actions@) =~= selection_actions(Selection::NoLine));
                    return Err(actions);
                }
                let idx = (line - 1) as usize;
                if idx < subjects.len() {
                    Ok(copy_subject(&subjects[idx]))
                } else {
                    actions.push(UiAction::ClearSearchBrowser);
                    actions.push(UiAction::AddSearchLine("选择无效或数据不一致".to_owned()));
                    actions.push(UiAction::SetInfo("选择无效".to_owned()));
                    assert(action_views(actions@) =~= selection_actions(Selection::Invalid));
                    Err(actions)
                }
            },
            _ => {
                actions.push(UiAction::SetInfo("当前不是番剧搜索结果列表".to_owned()));
                assert(action_views(actions@) =~= selection_actions(Selection::NotResults));
                Err(actions)
            },
        }
    }

    fn on_register(&self) -> (r: Vec<UiAction>)
        ensures
            action_views(r@) == handle(self@, Message::Register).1,
    {
        let mut actions: Vec<UiAction> = Vec::new();
        if self.anime_path.as_str().is_empty() {
            actions.push(UiAction::SetInfo("错误: 未设置目标位置路径（A按钮）".to_owned()));
        } else {
            actions.push(UiAction::RegisterMenu(self.anime_path.clone()));
        }
        assert(action_views(actions@) =~= handle(self@, Message::Register).1);
        actions
    }

    fn on_button_a(&mut self, chosen: Option<String>) -> (r: Vec<UiAction>)
        ensures
            (final(self)@, action_views(r@)) == handle(old(self)@, Message::ButtonA { chosen }),
    {
        let ghost c = chosen;
        let mut actions: Vec<UiAction> = Vec::new();
        match chosen {
            Some(p) => {
                actions.push(UiAction::SetInfo(join2("@ ", p.as_str())));
                self.anime_path = p;
            },
            None => {},
        }
        assert(action_views(actions@) =~= handle(old(self)@, Message::ButtonA { chosen: c }).1);
        actions
    }

    fn on_button_b(&mut self, chosen: Option<String>) -> (r: Vec<UiAction>)
        ensures
            (final(self)@, action_views(r@)) == handle(old(self)@, Message::ButtonB { chosen }),
    {
        let ghost c = chosen;
        let mut actions: Vec<UiAction> = Vec::new();
        match chosen {
            Some(p) => {
                actions.push(UiAction::SetInfo(join2("@ ", p.as_str())));
                actions.push(UiAction::LoadFiles(p.clone()));
                push_name_fill(&mut actions, p.as_str());
                self.base_path = p;
            },
            None => {},
        }
        assert(action_views(actions@) =~= handle(old(self)@, Message::ButtonB { chosen: c }).1);
        actions
    }

    fn begin_search(&mut self, query: String) -> (r: Vec<UiAction>)
        ensures
            (final(self)@, action_views(r@)) == start_search(old(self)@, query@),
    {
        let mut actions: Vec<UiAction> = Vec::new();
        actions.push(UiAction::ClearSearchBrowser);
        actions.push(UiAction::AddSearchLine("搜索中...".to_owned()));
        actions.push(UiAction::SetInfo(join2("正在搜索: ", query.as_str())));
        self.pending_search_query = Some(query.clone());
        self.pending_episode_subject_id = None;
        self.ui_mode = UiMode::Idle;
        actions.push(UiAction::SearchSubjects(query));
        assert(action_views(actions@) =~= start_search(old(self)@, query@).1);
        actions
    }

    fn on_search(&mut self, query: String) -> (r: Vec<UiAction>)
        ensures
            (final(self)@, action_views(r@)) == handle(old(self)@, Message::Search { query }),
    {
        if query.as_str().is_empty() {
            let mut actions: Vec<UiAction> = Vec::new();
            actions.push(UiAction::SetInfo("无关键词".to_owned()));
            assert(action_views(actions@) =~= seq![info("无关键词"@)]);
            actions
        } else {
            self.begin_search(query)
        }
    }

    fn on_start(&self, source_files: Vec<String>) -> (r: Vec<UiAction>)
        ensures
            action_views(r@) == start_actions(self@, string_views(source_files@)),
    {
        let mut actions: Vec<UiAction> = Vec::new();
        if self.base_path.as_str().is_empty() {
            actions.push(UiAction::SetInfo("错误: 未设置源文件路径（B按钮）".to_owned()));
            assert(action_views(actions@) =~= start_actions(self@, string_views(source_files@)));
            return actions;
        }
        if self.anime_path.as_str().is_empty() {
            actions.push(UiAction::SetInfo("错误: 未设置目标位置路径（A按钮）".to_owned()));
            assert(action_views(actions@) =~= start_actions(self@, string_views(source_files@)));
            return actions;
        }
        match &self.ui_mode {
            UiMode::EpisodeList { subject, episodes } => {
                let mut ys: Vec<char> = Vec::new();
                push_int(&mut ys, episodes.year as i64);
                let mut year = String::new();
                push_range(&mut year, &ys, 0, ys.len());
                assert(ys@.subrange(0, ys@.len() as int) =~= ys@);
                let folder = new_anime_folder_name(subject.display_name(), year.as_str());
                let target_dir = path_join(self.anime_path.as_str(), folder.as_str());
                let names = episodes.formatted_names();
                assert(string_views(names@) =~= formatted(episodes.items@));
                actions.push(
                    UiAction::BeginOperation {
                        base_path: self.base_path.clone(),
                        target_dir,
                        source_files,
                        episode_names: names,
                    },
                );
            },
            _ => {
                actions.push(UiAction::SetInfo("错误: 请先搜索并选择番剧".to_owned()));
            },
        }
        assert(action_views(actions@) =~= start_actions(self@, string_views(source_files@)));
        actions
    }

    fn on_double_click(&mut self, line: i32, size: i32) -> (r: Vec<UiAction>)
        ensures
            (final(self)@, action_views(r@)) == handle(old(self)@, Message::SearchBrowserDoubleClick { line, size }),
    {
        match self.selected(line, size) {
            Err(actions) => actions,
            Ok(subject) => {
                let mut actions: Vec<UiAction> = Vec::new();
                self.pending_episode_subject_id = Some(subject.id);
                let mut text = join2("正在加载《", subject.display_name());
                push_str(&mut text, "》的剧集信息...");
                actions.push(UiAction::SetInfo(text));
                actions.push(UiAction::FetchEpisodes(subject));
                assert(action_views(actions@) =~= handle(old(self)@, Message::SearchBrowserDoubleClick { line, size }).1);
                actions
            },
        }
    }

    fn on_right_click(&self, line: i32, size: i32) -> (r: Vec<UiAction>)
        ensures
            action_views(r@) == handle(self@, Message::SearchBrowserRightClick { line, size }).1,
    {
        match self.selected(line, size) {
            Err(actions) => actions,
            Ok(subject) => {
                let mut actions: Vec<UiAction> = Vec::new();
                let mut digits: Vec<char> = Vec::new();
                push_dec(&mut digits, subject.id);
                let mut url = "https://bgm.tv/subject/".to_owned();
                push_range(&mut url, &digits, 0, digits.len());
                assert(digits@.subrange(0, digits@.len() as int) =~= digits@);
                actions.push(UiAction::OpenUrl { url, report_failure: true });
                assert(action_views(actions@) =~= handle(self@, Message::SearchBrowserRightClick { line, size }).1);
                actions
            },
        }
    }

    fn on_search_completed(&mut self, query: String, result: Result<Vec<Subject>, String>) -> (r: Vec<UiAction>)
        ensures
            (final(self)@, action_views(r@)) == search_completed(old(self)@, query@, result),
    {
        let ghost res = result;
        let mut actions: Vec<UiAction> = Vec::new();
        let current = match &self.pending_search_query {
            Some(p) => seq_chars_equal(&chars_of(p.as_str()), &chars_of(query.as_str())),
            None => false,
        };
        if !current {
            assert(action_views(actions@) =~= Seq::<UiActionView>::empty());
            return actions;
        }
        self.pending_search_query = None;
        match result {
            Ok(subjects) => {
                actions.push(UiAction::ClearSearchBrowser);
                if subjects.len() == 0 {
                    self.ui_mode = UiMode::Idle;
                    let mut text = join2("未找到与\"", query.as_str());
                    push_str(&mut text, "\"相关的番剧");
                    actions.push(UiAction::SetInfo(text));
                    assert(action_views(actions@) =~= search_completed(old(self)@, query@, res).1);
                } else {
                    let mut i: usize = 0;
                    while i < subjects.len()
                        invariant
                            i <= subjects@.len(),
                            action_views(actions@) == seq![UiActionView::ClearSearchBrowser] + subject_lines(
                                subjects@.take(i as int),
                            ),
                        decreases subjects@.len() - i,
                    {
                        let line = subject_line_text(&subjects[i]);
                        let ghost before = actions@;
                        actions.push(UiAction::AddSearchLine(line));
                        proof {
                            let x = UiActionView::AddSearchLine(subject_line(subjects@[i as int]));
                            assert(subjects@.take(i + 1) =~= subjects@.take(i as int).push(subjects@[i as int]));
                            assert(subject_lines(subjects@.take(i + 1)) =~= subject_lines(subjects@.take(i as int)).push(x));
                            assert(action_views(actions@) =~= action_views(before).push(x));
                        }
                        i = i + 1;
                    }
                    assert(subjects@.take(subjects@.len() as int) =~= subjects@);
                    let mut text = "找到 ".to_owned();
                    push_str(&mut text, count_string(subjects.len()).as_str());
                    push_str(&mut text, " 个搜索结果");
                    actions.push(UiAction::SetInfo(text));
                    self.ui_mode = UiMode::SearchResults { subjects };
                    assert(action_views(actions@) =~= search_completed(old(self)@, query@, res).1);
                }
            },
            Err(e) => {
                actions.push(UiAction::ClearSearchBrowser);
                self.ui_mode = UiMode::Idle;
                actions.push(UiAction::SetInfo(join2("搜索失败: ", e.as_str())));
                assert(action_views(actions@) =~= search_completed(old(self)@, query@, res).1);
            },
        }
        actions
    }

    fn on_episodes_completed(&mut self, subject: Subject, result: Result<Episodes, String>) -> (r: Vec<UiAction>)
        ensures
            (final(self)@, action_views(r@)) == episodes_completed(old(self)@, subject, result),
    {
        let ghost res = result;
        let ghost subj = subject;
        let mut actions: Vec<UiAction> = Vec::new();
        let current = match self.pending_episode_subject_id {
            Some(id) => id == subject.id,
            None => false,
        };
        if !current {
            assert(action_views(actions@) =~= Seq::<UiActionView>::empty());
            return actions;
        }
        self.pending_episode_subject_id = None;
        match result {
            Ok(episodes) => {
                actions.push(UiAction::ClearSearchBrowser);
                if episodes.items.len() == 0 {
                    actions.push(UiAction::AddSearchLine("未能获取到剧集信息或剧集列表为空".to_owned()));
                    actions.push(UiAction::SetInfo("剧集列表为空".to_owned()));
                    assert(action_views(actions@) =~= seq![
                        UiActionView::ClearSearchBrowser,
                        UiActionView::AddSearchLine("未能获取到剧集信息或剧集列表为空"@),
                        info("剧集列表为空"@),
                    ]);
                } else {
                    let mut i: usize = 0;
                    while i < episodes.items.len()
                        invariant
                            i <= episodes.items@.len(),
                            action_views(actions@) == seq![UiActionView::ClearSearchBrowser] + episode_lines(
                                episodes.items@.take(i as int),
                            ),
                        decreases episodes.items@.len() - i,
                    {
                        let line = episode_line_text(&episodes.items[i]);
                        let ghost before = actions@;
                        actions.push(UiAction::AddSearchLine(line));
                        proof {
                            let its = episodes.items@;
                            let x = UiActionView::AddSearchLine(episode_line(its[i as int]));
                            assert(its.take(i + 1) =~= its.take(i as int).push(its[i as int]));
                            assert(episode_lines(its.take(i + 1)) =~= episode_lines(its.take(i as int)).push(x));
                            assert(action_views(actions@) =~= action_views(before).push(x));
                        }
                        i = i + 1;
                    }
                    assert(episodes.items@.take(episodes.items@.len() as int) =~= episodes.items@);
                    let mut text = "已加载 ".to_owned();
                    push_str(&mut text, count_string(episodes.items.len()).as_str());
                    push_str(&mut text, " 集剧集信息");
                    let ghost before = actions@;
                    actions.push(UiAction::SetInfo(text));
                    assert(action_views(actions@) =~= seq![UiActionView::ClearSearchBrowser] + episode_lines(episodes.items@)
                        + seq![info("已加载 "@ + dec_digits(episodes.items@.len()) + " 集剧集信息"@)]);
                }
                assert(action_views(actions@) =~= episodes_completed(old(self)@, subj, res).1);
                self.ui_mode = UiMode::EpisodeList { subject, episodes };
            },
            Err(e) => {
                actions.push(UiAction::SetInfo(join2("获取剧集信息失败: ", e.as_str())));
                assert(action_views(actions@) =~= episodes_completed(old(self)@, subj, res).1);
            },
        }
        actions
    }

    fn on_operation_finished(&mut self, report: FileOperationReport) -> (r: Vec<UiAction>)
        ensures
            (final(self)@, action_views(r@)) == operation_finished(old(self)@, report),
    {
        let ghost rep = report;
        let mut actions: Vec<UiAction> = Vec::new();
        match outcome_of(report) {
            OperationOutcome::Cancelled(m) => {
                actions.push(UiAction::SetInfo(m));
            },
            OperationOutcome::Success(m) => {
                actions.push(UiAction::SetInfo(m));
                self.base_path = String::new();
                actions.push(UiAction::ClearFileBrowser);
                actions.push(UiAction::SetSearchInput(String::new()));
                actions.push(UiAction::ClearSearchBrowser);
                self.ui_mode = UiMode::Idle;
            },
            OperationOutcome::Partial(report) => {
                actions.push(UiAction::SetInfo(report.summary()));
                match report.detail_message() {
                    Some(d) => {
                        actions.push(UiAction::ShowMessage(d));
                    },
                    None => {},
                }
            },
        }
        assert(action_views(actions@) =~= operation_finished(old(self)@, rep).1);
        actions
    }

    /// Updates the state for a message and says what the window is to do.
    fn dispatch(&mut self, msg: Message) -> (r: Vec<UiAction>)
        ensures
            (final(self)@, action_views(r@)) == handle(old(self)@, msg),
    {
        match msg {
            Message::Register => self.on_register(),
            Message::Logout => {
                let mut actions: Vec<UiAction> = Vec::new();
                actions.push(UiAction::UnregisterMenu);
                assert(action_views(actions@) =~= seq![UiActionView::UnregisterMenu]);
                actions
            },
            Message::About => {
                let mut actions: Vec<UiAction> = Vec::new();
                actions.push(UiAction::OpenUrl { url: ABOUT_URL.to_owned(), report_failure: false });
                assert(action_views(actions@) =~= seq![UiActionView::OpenUrl(ABOUT_URL@, false)]);
                actions
            },
            Message::Exit => {
                let actions: Vec<UiAction> = Vec::new();
                assert(action_views(actions@) =~= Seq::<UiActionView>::empty());
                actions
            },
            Message::ButtonA { chosen } => self.on_button_a(chosen),
            Message::ButtonB { chosen } => self.on_button_b(chosen),
            Message::Search { query } => self.on_search(query),
            Message::Start { source_files } => self.on_start(source_files),
            Message::FileBrowserPush => {
                let mut actions: Vec<UiAction> = Vec::new();
                actions.push(UiAction::SetInfo(join2("@ ", self.base_path.as_str())));
                assert(action_views(actions@) =~= seq![info("@ "@ + self@.base_path)]);
                actions
            },
            Message::SearchBrowserPush => {
                let mut actions: Vec<UiAction> = Vec::new();
                actions.push(UiAction::SetInfo(join2("@ ", self.anime_path.as_str())));
                assert(action_views(actions@) =~= seq![info("@ "@ + self@.anime_path)]);
                actions
            },
            Message::SearchBrowserDoubleClick { line, size } => self.on_double_click(line, size),
            Message::SearchBrowserRightClick { line, size } => self.on_right_click(line, size),
            Message::UrlOpenFailed(e) => {
                let mut actions: Vec<UiAction> = Vec::new();
                actions.push(UiAction::SetInfo(join2("打开 Bangumi 网页失败: ", e.as_str())));
                assert(action_views(actions@) =~= seq![info("打开 Bangumi 网页失败: "@ + e@)]);
                actions
            },
            Message::SearchCompleted { query, result } => self.on_search_completed(query, result),
            Message::EpisodesCompleted { subject, result } => self.on_episodes_completed(subject, result),
            Message::OperationFailed(m) => {
                let mut actions: Vec<UiAction> = Vec::new();
                let ghost mv = m@;
                actions.push(UiAction::SetInfo(m));
                assert(action_views(actions@) =~= seq![info(mv)]);
                actions
            },
            Message::OperationFinished(report) => self.on_operation_finished(report),
        }
    }

    /// Handles one message: says whether the window goes on (not after
    /// "exit") and what it is to do, in order.
    pub fn handle_message(&mut self, msg: Message) -> (r: (bool, Vec<UiAction>))
        ensures
            (final(self)@, r.0, action_views(r.1@)) == reaction(old(self)@, msg),
    {
        let is_exit = match msg {
            Message::Exit => true,
            _ => false,
        };
        if is_exit {
            let mut actions: Vec<UiAction> = Vec::new();
            actions.push(UiAction::HideWindow);
            assert(action_views(actions@) =~= seq![UiActionView::HideWindow]);
            return (false, actions);
        }
        let ghost m = msg;
        let mut actions = self.dispatch(msg);
        let ghost before = actions@;
        actions.push(UiAction::Redraw);
        assert(action_views(actions@) =~= action_views(before).push(UiActionView::Redraw));
        (true, actions)
    }
}

/// How a rename run ended.
pub enum OperationOutcome {
    /// Everything was transferred; the summary.
    Success(String),
    /// Something failed or was skipped.
    Partial(FileOperationReport),
    /// The run was cancelled; the summary.
    Cancelled(String),
}

/// How a run with this report ended: cancelled, clean, or with failures or skips.
pub fn outcome_of(report: FileOperationReport) -> (r: OperationOutcome)
    ensures
        match r {
            OperationOutcome::Cancelled(m) => report.cancelled && m@ == summary_text(report@),
            OperationOutcome::Success(m) => !report.cancelled && report.failed_links == 0
                && report.skipped_files == 0 && report.subtitle_failed == 0 && report.subtitle_skipped == 0
                && m@ == summary_text(report@),
            OperationOutcome::Partial(p) => !report.cancelled && !(report.failed_links == 0
                && report.skipped_files == 0 && report.subtitle_failed == 0 && report.subtitle_skipped == 0)
                && p == report,
        },
{
    if report.cancelled {
        return OperationOutcome::Cancelled(report.summary());
    }
    if report.is_clean_success() {
        OperationOutcome::Success(report.summary())
    } else {
        OperationOutcome::Partial(report)
    }
}

/// How videos are transferred: hard links on one volume; across volumes,
/// copies if the user accepts (asked through `confirm`), else the run is
/// cancelled with a message.
pub fn choose_video_transfer_mode<F>(different_volumes: bool, confirm: F) -> (r: Result<VideoTransferMode, String>) where
    F: Fn() -> bool,

    requires
        confirm.requires(()),
    ensures
        !different_volumes ==> r == Ok::<VideoTransferMode, String>(VideoTransferMode::HardLink),
        different_volumes ==> exists|yes: bool|
            #[trigger] confirm.ensures((), yes) && if yes {
                r == Ok::<VideoTransferMode, String>(VideoTransferMode::Copy)
            } else {
                r matches Err(m) && m@ == "已取消：跨盘复制未确认"@
            },
{
    if !different_volumes {
        return Ok(VideoTransferMode::HardLink);
    }
    let yes = confirm();
    if yes {
        Ok(VideoTransferMode::Copy)
    } else {
        Err("已取消：跨盘复制未确认".to_owned())
    }
}

/// The message shown when the target folder cannot be created.
pub fn target_dir_error(error: &str) -> (r: String)
    ensures
        r@ == "错误: 创建目标文件夹失败: "@ + error@,
{
    join2("错误: 创建目标文件夹失败: ", error)
}

/// The question asked before copying videos across volumes.
pub open spec fn cross_volume_text(source_root: Seq<char>, target_root: Seq<char>) -> Seq<char> {
    "检测到源目录和目标目录不在同一磁盘。\n\n跨盘无法创建硬链接，只能改为复制视频文件。复制可能比较耗时，并且会额外占用硬盘空间。\n\n源目录: "@
        + source_root + "\n目标目录: "@ + target_root + "\n\n是否继续？"@
}

/// The question asked before copying videos across volumes.
pub fn cross_volume_message(source_root: &str, target_root: &str) -> (r: String)
    ensures
        r@ == cross_volume_text(source_root@, target_root@),
{
    let mut m = "检测到源目录和目标目录不在同一磁盘。\n\n跨盘无法创建硬链接，只能改为复制视频文件。复制可能比较耗时，并且会额外占用硬盘空间。\n\n源目录: ".to_owned();
    push_str(&mut m, source_root);
    push_str(&mut m, "\n目标目录: ");
    push_str(&mut m, target_root);
    push_str(&mut m, "\n\n是否继续？");
    m
}

/// A search reply for anything but the last search started changes nothing
/// and shows nothing: the window is only redrawn.
pub proof fn lemma_stale_search_reply_ignored(st: CubyView, query: String, result: Result<Vec<Subject>, String>)
    requires
        st.pending_search != Some(query@),
    ensures
        reaction(st, Message::SearchCompleted { query, result }) == (st, true, seq![UiActionView::Redraw]),
{
    assert(Seq::<UiActionView>::empty().push(UiActionView::Redraw) =~= seq![UiActionView::Redraw]);
}

/// An episode list for any subject but the last one asked for changes
/// nothing and shows nothing: the window is only redrawn.
pub proof fn lemma_stale_episodes_ignored(st: CubyView, subject: Subject, result: Result<Episodes, String>)
    requires
        st.pending_episode != Some(subject.id),
    ensures
        reaction(st, Message::EpisodesCompleted { subject, result }) == (st, true, seq![UiActionView::Redraw]),
{
    assert(Seq::<UiActionView>::empty().push(UiActionView::Redraw) =~= seq![UiActionView::Redraw]);
}

/// When a second search starts before the first one's reply comes, that
/// reply is ignored.
pub proof fn lemma_later_search_wins(
    st: CubyView,
    first: String,
    second: String,
    result: Result<Vec<Subject>, String>,
)
    requires
        first@.len() > 0,
        second@.len() > 0,
        first@ != second@,
    ensures
        ({
            let s2 = reaction(reaction(st, Message::Search { query: first }).0, Message::Search { query: second }).0;
            reaction(s2, Message::SearchCompleted { query: first, result }) == (s2, true, seq![UiActionView::Redraw])
        }),
{
    let s1 = reaction(st, Message::Search { query: first }).0;
    let s2 = reaction(s1, Message::Search { query: second }).0;
    assert(s2.pending_search == Some(second@));
    lemma_stale_search_reply_ignored(s2, first, result);
}

/// Exiting is the only message that stops the window.
pub proof fn lemma_only_exit_stops(st: CubyView, msg: Message)
    ensures
        !reaction(st, msg).1 <==> msg is Exit,
{
}

/// The two folders of a rename when both are chosen, else the error of the
/// first one missing.
pub fn validate_operation_paths(base_path: &Option<String>, anime_path: &Option<String>) -> (r: Result<
    (String, String),
    String,
>)
    ensures
        match (base_path, anime_path) {
            (Some(b), Some(a)) => r matches Ok((x, y)) && x@ == b@ && y@ == a@,
            (None, _) => r matches Err(m) && m@ == "错误: 未设置源文件路径（B按钮）"@,
            (Some(_), None) => r matches Err(m) && m@ == "错误: 未设置目标位置路径（A按钮）"@,
        },
{
    let b = match base_path {
        Some(p) => p.clone(),
        None => {
            return Err("错误: 未设置源文件路径（B按钮）".to_owned());
        },
    };
    let a = match anime_path {
        Some(p) => p.clone(),
        None => {
            return Err("错误: 未设置目标位置路径（A按钮）".to_owned());
        },
    };
    Ok((b, a))
}

} // verus!
