use bgm_rename_cuby::bangumi_api::{Episode, Episodes, Subject};
use bgm_rename_cuby::cli::{help_message, parse_cli_args, CliOutcome};
use bgm_rename_cuby::cuby::{
    choose_video_transfer_mode, cross_volume_message, outcome_of, target_dir_error, validate_operation_paths, CliArgs,
    Cuby, Message,
    OperationOutcome, UiAction,
};
use bgm_rename_cuby::report::{FileOperationReport, VideoTransferMode};
use bgm_rename_cuby::system::{
    is_cross_device_link_error, unregister_message, volumes_differ, wide_null, DragState, MenuRegistration, MenuStep,
};

fn args(v: &[&str]) -> Vec<String> {
    v.iter().map(|s| s.to_string()).collect()
}

fn subject(id: u64, name: &str, name_cn: &str) -> Subject {
    Subject { id, name: name.to_string(), name_cn: name_cn.to_string(), air_date: Some("2022-10-09".to_string()) }
}

fn describe(actions: &[UiAction]) -> Vec<String> {
    actions
        .iter()
        .map(|a| match a {
            UiAction::SetInfo(s) => format!("info:{}", s),
            UiAction::ClearSearchBrowser => "clear-search".to_string(),
            UiAction::AddSearchLine(s) => format!("line:{}", s),
            UiAction::ClearFileBrowser => "clear-files".to_string(),
            UiAction::LoadFiles(s) => format!("load:{}", s),
            UiAction::SetSearchInput(s) => format!("input:{}", s),
            UiAction::RegisterMenu(s) => format!("register:{}", s),
            UiAction::UnregisterMenu => "unregister".to_string(),
            UiAction::OpenUrl { url, report_failure } => format!("open:{}:{}", url, report_failure),
            UiAction::HideWindow => "hide".to_string(),
            UiAction::SearchSubjects(s) => format!("search:{}", s),
            UiAction::FetchEpisodes(s) => format!("episodes:{}", s.id),
            UiAction::ShowMessage(s) => format!("message:{}", s),
            UiAction::BeginOperation { base_path, target_dir, source_files, episode_names } => {
                format!("begin:{}:{}:{}:{}", base_path, target_dir, source_files.join("|"), episode_names.join("|"))
            },
            UiAction::Redraw => "redraw".to_string(),
        })
        .collect()
}

fn strings(v: &[&str]) -> Vec<String> {
    v.iter().map(|s| s.to_string()).collect()
}

#[test]
fn command_line_options_set_the_folders() {
    match parse_cli_args(args(&["-b", "/in", "--anime_path", "/lib", "--base-path", "/in2"])) {
        CliOutcome::Run(a) => {
            assert_eq!(a.base_path.as_deref(), Some("/in2"));
            assert_eq!(a.anime_path.as_deref(), Some("/lib"));
        },
        _ => panic!("expected folders"),
    }
    match parse_cli_args(args(&[])) {
        CliOutcome::Run(a) => assert!(a.base_path.is_none() && a.anime_path.is_none()),
        _ => panic!("expected no folders"),
    }
}

#[test]
fn command_line_help_version_and_errors() {
    assert!(matches!(parse_cli_args(args(&["-b", "/in", "--help", "--bogus"])), CliOutcome::Help));
    assert!(matches!(parse_cli_args(args(&["-V"])), CliOutcome::Version));
    match parse_cli_args(args(&["-a"])) {
        CliOutcome::Error(m) => assert_eq!(m, "缺少 -a/--anime-path 参数值\n"),
        _ => panic!("expected an error"),
    }
    match parse_cli_args(args(&["--base_path"])) {
        CliOutcome::Error(m) => assert_eq!(m, "缺少 -b/--base-path 参数值\n"),
        _ => panic!("expected an error"),
    }
    match parse_cli_args(args(&["-x", "-h"])) {
        CliOutcome::Error(m) => assert_eq!(m, "未知参数: -x\n"),
        _ => panic!("expected an error"),
    }
    let help = help_message("cuby", "1.2.3");
    assert!(help.starts_with("cuby 1.2.3\n\n用法:\n  cuby.exe -b <源文件夹> -a <目标文件夹>\n"));
    assert!(help.ends_with("  -V, --version                 显示版本\n"));
}

#[test]
fn wide_strings_end_with_a_zero() {
    assert_eq!(wide_null("Ab"), vec![65, 98, 0]);
    assert_eq!(wide_null("中"), vec![0x4E2D, 0]);
    assert_eq!(wide_null("😀"), vec![0xD83D, 0xDE00, 0]);
    assert_eq!(wide_null(""), vec![0]);
}

#[test]
fn cross_device_errors_and_volumes() {
    assert!(is_cross_device_link_error(Some(18), false));
    assert!(!is_cross_device_link_error(Some(17), false));
    assert!(is_cross_device_link_error(Some(17), true));
    assert!(!is_cross_device_link_error(None, true));
    assert!(volumes_differ(Some("c:"), Some("d:")));
    assert!(!volumes_differ(Some("c:"), Some("c:")));
    assert!(!volumes_differ(None, Some("d:")));
}

#[test]
fn registration_sets_the_entry_then_the_command() {
    let (mut reg, step) = MenuRegistration::start(Ok("C:\\cuby.exe".to_string()), "D:\\Anime");
    assert!(matches!(&step, MenuStep::CreateMenuKey(k) if k == "Directory\\shell\\Add To Cuby"));
    let step = reg.on_outcome(Ok(()));
    assert!(matches!(&step, MenuStep::SetMenuValue { name: None, value } if value == "Add To Cuby"));
    let step = reg.on_outcome(Ok(()));
    assert!(matches!(&step, MenuStep::SetMenuValue { name: Some(n), value } if n == "Icon" && value == "\"C:\\cuby.exe\",0"));
    let step = reg.on_outcome(Err("拒绝访问".to_string()));
    assert!(matches!(&step, MenuStep::CreateCommandKey(k) if k == "Directory\\shell\\Add To Cuby\\command"));
    let step = reg.on_outcome(Ok(()));
    assert!(matches!(&step, MenuStep::SetCommandValue(c) if c == "\"C:\\cuby.exe\" -b \"%1\" -a \"D:\\Anime\""));
    let step = reg.on_outcome(Ok(()));
    match step {
        MenuStep::Done(m) => assert_eq!(m, "注册表操作时发生错误:\n设置菜单图标失败: 拒绝访问\n\n请确保以管理员身份运行本程序"),
        _ => panic!("expected the end"),
    }
    assert!(reg.is_done());
}

#[test]
fn registration_stops_when_a_key_cannot_be_created() {
    let (mut reg, _) = MenuRegistration::start(Ok("cuby".to_string()), "lib");
    match reg.on_outcome(Err("e".to_string())) {
        MenuStep::Done(m) => assert_eq!(m, "注册表操作时发生错误:\n创建菜单主键失败: e\n\n请确保以管理员身份运行本程序"),
        _ => panic!("expected the end"),
    }
    let (_, step) = MenuRegistration::start(Err("no exe".to_string()), "lib");
    assert!(matches!(step, MenuStep::Done(m) if m == "获取程序路径失败: no exe"));
    let (mut reg, _) = MenuRegistration::start(Ok("cuby".to_string()), "lib");
    for _ in 0..4 {
        let _ = reg.on_outcome(Ok(()));
    }
    assert!(matches!(reg.on_outcome(Ok(())), MenuStep::Done(m) if m == "注册表项已成功添加"));
    assert_eq!(unregister_message(0, ""), "相关注册表项已成功删除");
    assert_eq!(unregister_message(2, ""), "未找到相关的注册表项，无需注销");
    assert_eq!(unregister_message(5, "拒绝访问"), "注销操作时发生错误: 拒绝访问\n\n请确保以管理员身份运行本程序");
}

#[test]
fn dragging_swaps_lines_under_the_pointer() {
    let mut d = DragState::new();
    assert_eq!(d.on_drag(2), None);
    assert_eq!(d.on_drag(2), None);
    assert_eq!(d.on_drag(3), Some((2, 3)));
    assert_eq!(d.on_drag(0), None);
    assert_eq!(d.on_drag(1), Some((3, 1)));
    d.on_released();
    assert_eq!(d.on_drag(4), None);
}

#[test]
fn the_window_starts_from_the_command_line() {
    let (_c, actions) = Cuby::new(&CliArgs { base_path: Some("/dl/[Grp][Bocchi][1080p]".to_string()), anime_path: None });
    assert_eq!(describe(&actions), strings(&["load:/dl/[Grp][Bocchi][1080p]", "input:Bocchi"]));
    let (_c, actions) = Cuby::new(&CliArgs { base_path: None, anime_path: Some("/lib".to_string()) });
    assert!(actions.is_empty());
}

#[test]
fn a_search_shows_its_results_and_ignores_older_replies() {
    let (mut c, _) = Cuby::new(&CliArgs { base_path: None, anime_path: None });
    let (go, actions) = c.handle_message(Message::Search { query: String::new() });
    assert!(go);
    assert_eq!(describe(&actions), strings(&["info:无关键词", "redraw"]));
    let (_, actions) = c.handle_message(Message::Search { query: "bocchi".to_string() });
    assert_eq!(describe(&actions), strings(&["clear-search", "line:搜索中...", "info:正在搜索: bocchi", "search:bocchi", "redraw"]));
    let (_, _) = c.handle_message(Message::Search { query: "bocchi2".to_string() });
    let (_, actions) = c.handle_message(Message::SearchCompleted {
        query: "bocchi".to_string(),
        result: Ok(vec![subject(1, "a", "")]),
    });
    assert_eq!(describe(&actions), strings(&["redraw"]));
    let (_, actions) = c.handle_message(Message::SearchCompleted {
        query: "bocchi2".to_string(),
        result: Ok(vec![subject(1, "Bocchi", "孤独摇滚"), subject(2, "Other", "")]),
    });
    assert_eq!(
        describe(&actions),
        strings(&["clear-search", "line:孤独摇滚 (Bocchi)", "line:Other", "info:找到 2 个搜索结果", "redraw"])
    );
    let (_, actions) = c.handle_message(Message::SearchBrowserRightClick { line: 2, size: 2 });
    assert_eq!(describe(&actions), strings(&["open:https://bgm.tv/subject/2:true", "redraw"]));
    let (_, actions) = c.handle_message(Message::SearchBrowserDoubleClick { line: 0, size: 2 });
    assert_eq!(describe(&actions), strings(&["info:请选择一个番剧", "redraw"]));
    let (_, actions) = c.handle_message(Message::SearchBrowserDoubleClick { line: 3, size: 3 });
    assert_eq!(describe(&actions), strings(&["clear-search", "line:选择无效或数据不一致", "info:选择无效", "redraw"]));
}

#[test]
fn failed_and_empty_searches_reset_the_list() {
    let (mut c, _) = Cuby::new(&CliArgs { base_path: None, anime_path: None });
    let _ = c.handle_message(Message::Search { query: "x".to_string() });
    let (_, actions) = c.handle_message(Message::SearchCompleted { query: "x".to_string(), result: Ok(vec![]) });
    assert_eq!(describe(&actions), strings(&["clear-search", "info:未找到与\"x\"相关的番剧", "redraw"]));
    let _ = c.handle_message(Message::Search { query: "y".to_string() });
    let (_, actions) = c.handle_message(Message::SearchCompleted { query: "y".to_string(), result: Err("超时".to_string()) });
    assert_eq!(describe(&actions), strings(&["clear-search", "info:搜索失败: 超时", "redraw"]));
    let (_, actions) = c.handle_message(Message::SearchBrowserDoubleClick { line: 1, size: 1 });
    assert_eq!(describe(&actions), strings(&["info:当前不是番剧搜索结果列表", "redraw"]));
}

fn window_with_episodes() -> Cuby {
    let (mut c, _) = Cuby::new(&CliArgs { base_path: Some("/in".to_string()), anime_path: Some("/lib".to_string()) });
    let _ = c.handle_message(Message::Search { query: "q".to_string() });
    let _ = c.handle_message(Message::SearchCompleted { query: "q".to_string(), result: Ok(vec![subject(7, "Fate/Zero", "")]) });
    let (_, actions) = c.handle_message(Message::SearchBrowserDoubleClick { line: 1, size: 1 });
    assert_eq!(describe(&actions), strings(&["info:正在加载《Fate/Zero》的剧集信息...", "episodes:7", "redraw"]));
    let eps = Episodes {
        items: vec![
            Episode { sort: 1, name: "One".to_string(), name_cn: String::new() },
            Episode { sort: 2, name: "Two".to_string(), name_cn: "二".to_string() },
        ],
        year: 2011,
    };
    let (_, actions) = c.handle_message(Message::EpisodesCompleted { subject: subject(7, "Fate/Zero", ""), result: Ok(eps) });
    assert_eq!(
        describe(&actions),
        strings(&["clear-search", "line:Ep.01 - One", "line:Ep.02 - 二", "info:已加载 2 集剧集信息", "redraw"])
    );
    c
}

#[test]
fn start_hands_over_the_rename_with_its_target_folder() {
    let mut c = window_with_episodes();
    let (_, actions) = c.handle_message(Message::Start { source_files: strings(&["a.mkv", "b.mkv"]) });
    assert_eq!(
        describe(&actions),
        strings(&["begin:/in:/lib/Fate／Zero （2011）:a.mkv|b.mkv:ep1 - One|ep2 - 二", "redraw"])
    );
}

#[test]
fn start_needs_both_folders_and_an_episode_list() {
    let (mut c, _) = Cuby::new(&CliArgs { base_path: None, anime_path: Some("/lib".to_string()) });
    let (_, actions) = c.handle_message(Message::Start { source_files: vec![] });
    assert_eq!(describe(&actions), strings(&["info:错误: 未设置源文件路径（B按钮）", "redraw"]));
    let (_, actions) = c.handle_message(Message::ButtonB { chosen: Some("/dl/孤独摇滚_S1".to_string()) });
    assert_eq!(describe(&actions), strings(&["info:@ /dl/孤独摇滚_S1", "load:/dl/孤独摇滚_S1", "input:孤独摇滚", "redraw"]));
    let (_, actions) = c.handle_message(Message::Start { source_files: vec![] });
    assert_eq!(describe(&actions), strings(&["info:错误: 请先搜索并选择番剧", "redraw"]));
    let (mut c, _) = Cuby::new(&CliArgs { base_path: Some("/in".to_string()), anime_path: None });
    let (_, actions) = c.handle_message(Message::Start { source_files: vec![] });
    assert_eq!(describe(&actions), strings(&["info:错误: 未设置目标位置路径（A按钮）", "redraw"]));
    let (_, actions) = c.handle_message(Message::Register);
    assert_eq!(describe(&actions), strings(&["info:错误: 未设置目标位置路径（A按钮）", "redraw"]));
    let (_, actions) = c.handle_message(Message::ButtonA { chosen: Some("/lib".to_string()) });
    assert_eq!(describe(&actions), strings(&["info:@ /lib", "redraw"]));
    let (_, actions) = c.handle_message(Message::Register);
    assert_eq!(describe(&actions), strings(&["register:/lib", "redraw"]));
    let (_, actions) = c.handle_message(Message::ButtonA { chosen: None });
    assert_eq!(describe(&actions), strings(&["redraw"]));
}

#[test]
fn a_clean_run_clears_the_window() {
    let mut c = window_with_episodes();
    let mut report = FileOperationReport::new();
    report.successful_links = 2;
    let (_, actions) = c.handle_message(Message::OperationFinished(report));
    assert_eq!(
        describe(&actions),
        strings(&["info:完成: 视频硬链接成功 2，视频硬链接失败 0", "clear-files", "input:", "clear-search", "redraw"])
    );
    let (_, actions) = c.handle_message(Message::FileBrowserPush);
    assert_eq!(describe(&actions), strings(&["info:@ ", "redraw"]));
}

#[test]
fn a_partial_run_shows_its_details() {
    let mut c = window_with_episodes();
    let mut report = FileOperationReport::new();
    report.successful_links = 1;
    report.skipped_files = 1;
    report.details.push("跳过文件 'b.mkv': 目标已存在".to_string());
    let (_, actions) = c.handle_message(Message::OperationFinished(report));
    assert_eq!(
        describe(&actions),
        strings(&[
            "info:完成: 视频硬链接成功 1，视频硬链接失败 0，跳过 1",
            "message:完成: 视频硬链接成功 1，视频硬链接失败 0，跳过 1\n\n跳过文件 'b.mkv': 目标已存在",
            "redraw",
        ])
    );
    let (_, actions) = c.handle_message(Message::SearchBrowserPush);
    assert_eq!(describe(&actions), strings(&["info:@ /lib", "redraw"]));
}

#[test]
fn exit_and_other_messages() {
    let (mut c, _) = Cuby::new(&CliArgs { base_path: None, anime_path: None });
    let (go, actions) = c.handle_message(Message::About);
    assert!(go);
    assert_eq!(describe(&actions), strings(&["open:https://github.com/uuzp/bgm_rename_cuby:false", "redraw"]));
    let (_, actions) = c.handle_message(Message::Logout);
    assert_eq!(describe(&actions), strings(&["unregister", "redraw"]));
    let (_, actions) = c.handle_message(Message::UrlOpenFailed("no browser".to_string()));
    assert_eq!(describe(&actions), strings(&["info:打开 Bangumi 网页失败: no browser", "redraw"]));
    let (_, actions) = c.handle_message(Message::OperationFailed("错误: x".to_string()));
    assert_eq!(describe(&actions), strings(&["info:错误: x", "redraw"]));
    let (_, actions) = c.handle_message(Message::EpisodesCompleted { subject: subject(9, "a", ""), result: Err("e".to_string()) });
    assert_eq!(describe(&actions), strings(&["redraw"]));
    let (go, actions) = c.handle_message(Message::Exit);
    assert!(!go);
    assert_eq!(describe(&actions), strings(&["hide"]));
}

#[test]
fn outcomes_transfer_modes_and_messages() {
    let mut cancelled = FileOperationReport::new();
    cancelled.cancelled = true;
    assert!(matches!(outcome_of(cancelled), OperationOutcome::Cancelled(m) if m == "已取消"));
    assert!(matches!(outcome_of(FileOperationReport::new()), OperationOutcome::Success(_)));
    let mut failed = FileOperationReport::new();
    failed.failed_links = 1;
    assert!(matches!(outcome_of(failed), OperationOutcome::Partial(_)));
    assert_eq!(choose_video_transfer_mode(false, || -> bool { panic!("not asked") }), Ok(VideoTransferMode::HardLink));
    assert_eq!(choose_video_transfer_mode(true, || -> bool { true }), Ok(VideoTransferMode::Copy));
    assert_eq!(choose_video_transfer_mode(true, || -> bool { false }), Err("已取消：跨盘复制未确认".to_string()));
    assert_eq!(target_dir_error("denied"), "错误: 创建目标文件夹失败: denied");
    assert!(cross_volume_message("C:\\in", "D:\\lib").contains("源目录: C:\\in\n目标目录: D:\\lib\n\n是否继续？"));
}

#[test]
fn operation_paths_need_both_folders() {
    assert_eq!(
        validate_operation_paths(&Some("/in".to_string()), &Some("/lib".to_string())),
        Ok(("/in".to_string(), "/lib".to_string()))
    );
    assert_eq!(validate_operation_paths(&None, &None), Err("错误: 未设置源文件路径（B按钮）".to_string()));
    assert_eq!(validate_operation_paths(&Some("/in".to_string()), &None), Err("错误: 未设置目标位置路径（A按钮）".to_string()));
}
