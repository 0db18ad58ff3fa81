use bgm_rename_cuby::bangumi_api::{Episode, Episodes, Subject};
use bgm_rename_cuby::list_window::{
    display_rename_summary, get_selected_anime_details, handle_search, handle_search_results_double_click,
    no_files_error, target_folder_error, validate_pre_rename_conditions, ListEdit, MarkState, MoveAction, MoveEvent,
    MoveRun,
};

fn strings(v: &[&str]) -> Vec<String> {
    v.iter().map(|s| s.to_string()).collect()
}

fn subject(id: u64, name: &str, name_cn: &str) -> Subject {
    Subject { id, name: name.to_string(), name_cn: name_cn.to_string(), air_date: None }
}

fn edits(v: &[ListEdit]) -> Vec<String> {
    v.iter()
        .map(|e| match e {
            ListEdit::Select(l) => format!("select {}", l),
            ListEdit::Deselect(l) => format!("deselect {}", l),
            ListEdit::Swap(a, b) => format!("swap {} {}", a, b),
        })
        .collect()
}

#[test]
fn the_space_bar_marks_and_swaps_lines() {
    let mut m = MarkState::new();
    assert!(edits(&m.on_space(0)).is_empty());
    assert_eq!(edits(&m.on_space(2)), strings(&["select 2"]));
    assert_eq!(edits(&m.on_space(2)), strings(&["deselect 2"]));
    assert_eq!(edits(&m.on_space(3)), strings(&["select 3"]));
    assert_eq!(edits(&m.on_space(1)), strings(&["swap 3 1", "select 1"]));
    let (handled, e) = m.on_escape();
    assert!(!handled && e.is_empty());
    m.on_double_click(4);
    let (handled, e) = m.on_escape();
    assert!(handled);
    assert_eq!(edits(&e), strings(&["deselect 4"]));
    m.on_double_click(2);
    assert_eq!(edits(&m.on_arrow(0, 5)), strings(&["select 1"]));
    assert_eq!(edits(&m.on_space(1)), strings(&["select 1"]));
    assert!(edits(&m.on_arrow(1, 5)).is_empty());
}

#[test]
fn the_list_window_search_lists_both_names() {
    let r = handle_search("", |_q: &str| -> Result<Vec<Subject>, String> { panic!("no request for an empty box") });
    assert!(r.lines.is_empty() && r.results.is_none() && r.message.is_none());
    let r = handle_search("bocchi", |q: &str| -> Result<Vec<Subject>, String> {
        assert_eq!(q, "bocchi");
        Ok(vec![subject(1, "Bocchi", "孤独摇滚"), subject(2, "Other", "")])
    });
    assert_eq!(r.lines, strings(&["孤独摇滚 (Bocchi)", " (Other)"]));
    assert_eq!(r.results.map(|v| v.len()), Some(2));
    let r = handle_search("x", |_q: &str| -> Result<Vec<Subject>, String> { Ok(vec![]) });
    assert_eq!(r.message.as_deref(), Some("未找到与\"x\"相关的番剧。"));
    let r = handle_search("x", |_q: &str| -> Result<Vec<Subject>, String> { Err("timeout".to_string()) });
    assert_eq!(r.message.as_deref(), Some("搜索\"x\"失败：请检查网络连接或稍后再试。\n详细错误: timeout"));
}

#[test]
fn the_list_window_double_click_loads_episodes() {
    let results = Some(vec![subject(7, "A", ""), subject(8, "B", "")]);
    let none = handle_search_results_double_click(0, 2, &results, |_id: u64| -> Result<Episodes, String> {
        panic!("no request without a line")
    });
    assert!(none.is_none());
    let o = handle_search_results_double_click(2, 2, &results, |id: u64| -> Result<Episodes, String> {
        assert_eq!(id, 8);
        Ok(Episodes { items: vec![Episode { sort: 3, name: "Three".to_string(), name_cn: String::new() }], year: 2020 })
    })
    .expect("outcome");
    assert_eq!(o.lines, strings(&["Ep.03 - Three"]));
    assert_eq!(o.selected_id.as_deref(), Some("8"));
    assert_eq!(o.episodes.map(|e| e.year), Some(2020));
    let o = handle_search_results_double_click(1, 2, &results, |_id: u64| -> Result<Episodes, String> {
        Ok(Episodes { items: vec![], year: 1970 })
    })
    .expect("outcome");
    assert_eq!(o.lines, strings(&["未能获取到剧集信息或剧集列表为空。"]));
    let o = handle_search_results_double_click(1, 2, &results, |_id: u64| -> Result<Episodes, String> {
        Err("404".to_string())
    })
    .expect("outcome");
    assert_eq!(o.lines, strings(&["获取剧集列表失败: 404"]));
    assert!(o.episodes.is_none() && o.selected_id.is_none());
    let o = handle_search_results_double_click(3, 3, &results, |_id: u64| -> Result<Episodes, String> {
        panic!("no request for a line without a subject")
    })
    .expect("outcome");
    assert_eq!(o.lines, strings(&["选择无效或数据不一致。"]));
}

#[test]
fn the_list_window_checks_before_renaming() {
    assert_eq!(
        validate_pre_rename_conditions(false, &None, &None),
        Err("错误: 剧集列表为空。\n请先在右侧搜索并双击选定一部番剧。".to_string())
    );
    assert_eq!(
        validate_pre_rename_conditions(true, &None, &Some("/lib".to_string())),
        Err("错误: 源路径未设置。\n请选择包含视频文件的源文件夹。".to_string())
    );
    assert_eq!(
        validate_pre_rename_conditions(true, &Some("/in".to_string()), &None),
        Err("错误: 目标路径未设置。\n请选择重命名后文件存放的目标文件夹。".to_string())
    );
    assert_eq!(validate_pre_rename_conditions(true, &Some("/in".to_string()), &Some("/lib".to_string())), Ok(()));
    let results = Some(vec![subject(7, "Fate/Zero", ""), subject(8, "B", "乙")]);
    assert_eq!(get_selected_anime_details(&results, 2, 2011), Ok(("乙".to_string(), "2011".to_string())));
    assert_eq!(get_selected_anime_details(&results, 1, -5), Ok(("Fate/Zero".to_string(), "-5".to_string())));
    assert_eq!(
        get_selected_anime_details(&results, 0, 2011),
        Err("错误: 请先搜索番剧并选择一个有效的番剧。".to_string())
    );
    assert_eq!(
        get_selected_anime_details(&None, 1, 2011),
        Err("错误: 选择的番剧无效。\n请在右侧搜索结果中选择一个有效的番剧。".to_string())
    );
    assert_eq!(target_folder_error("/lib/x", "denied"), "错误: 创建目标文件夹 '/lib/x' 失败。\n详细信息: denied");
    assert_eq!(no_files_error(), "错误: 未选择任何文件进行处理。\n请在左侧文件浏览器中选择文件。");
}

#[test]
fn a_move_run_counts_moves_and_failures() {
    let (mut run, first) = MoveRun::start(
        strings(&["a.mkv", "b.mkv", "c.mkv"]),
        "/in".to_string(),
        strings(&["ep1 - A", "ep2 - B"]),
        "/lib".to_string(),
    );
    match first {
        MoveAction::Confirm(m) => {
            assert_eq!(m, "警告: 选择的文件数量 (3) 多于剧集数量 (2).\n这可能导致部分文件无法被处理。\n是否继续?")
        },
        _ => panic!("expected a confirmation"),
    }
    assert!(matches!(run.on_event(MoveEvent::Answer(true)), MoveAction::CheckExists(p) if p == "/lib/ep1 - A.mkv"));
    assert!(matches!(
        run.on_event(MoveEvent::Exists(false)),
        MoveAction::Move { source, target } if source == "/in/a.mkv" && target == "/lib/ep1 - A.mkv"
    ));
    assert!(matches!(run.on_event(MoveEvent::Moved(Ok(()))), MoveAction::CheckExists(p) if p == "/lib/ep2 - B.mkv"));
    assert!(matches!(run.on_event(MoveEvent::Exists(true)), MoveAction::Finished));
    assert!(run.is_finished());
    let (ok, failed, notes) = run.outcome();
    assert_eq!((ok, failed), (1, 1));
    assert_eq!(
        notes.clone(),
        strings(&[
            "跳过文件 'b.mkv': 目标 '/lib/ep2 - B.mkv' 已存在.",
            "跳过文件 'c.mkv': 超出剧集范围 (源文件: 3, 剧集: 2).",
        ])
    );
    assert_eq!(
        display_rename_summary(ok, failed, notes),
        "重命名完成报告:\n成功: 1\n失败: 1\n\n详细信息:\n跳过文件 'b.mkv': 目标 '/lib/ep2 - B.mkv' 已存在.\n跳过文件 'c.mkv': 超出剧集范围 (源文件: 3, 剧集: 2)."
    );
}

#[test]
fn a_move_run_can_be_cancelled_and_reports_errors() {
    let (mut run, _) = MoveRun::start(strings(&["a.mkv", "b.mkv"]), "/in".to_string(), strings(&["ep1"]), "/lib".to_string());
    assert!(matches!(run.on_event(MoveEvent::Answer(false)), MoveAction::Finished));
    let (ok, failed, notes) = run.outcome();
    assert_eq!((ok, failed), (0, 0));
    assert_eq!(notes.clone(), strings(&["操作被用户取消：文件数量多于剧集数量。"]));
    let (mut run, first) = MoveRun::start(strings(&["x.mkv"]), "/in".to_string(), strings(&["ep1"]), "/lib".to_string());
    assert!(matches!(first, MoveAction::CheckExists(_)));
    let _ = run.on_event(MoveEvent::Exists(false));
    assert!(matches!(run.on_event(MoveEvent::Moved(Err("busy".to_string()))), MoveAction::Finished));
    let (ok, failed, notes) = run.outcome();
    assert_eq!((ok, failed), (0, 1));
    assert_eq!(display_rename_summary(ok, failed, notes), "重命名完成报告:\n成功: 0\n失败: 1\n\n详细信息:\n失败: 'x.mkv', 错误: busy");
    assert_eq!(display_rename_summary(2, 0, &[]), "重命名完成报告:\n成功: 2\n失败: 0");
    let (_, first) = MoveRun::start(strings(&["ep1.mkv"]), "/lib".to_string(), strings(&["ep1"]), "/lib".to_string());
    assert!(matches!(first, MoveAction::Finished));
}
