use bgm_rename_cuby::rename::{usize_text, RenameAction, RenameEvent, RenameRun, TransferFailure};
use bgm_rename_cuby::report::{FileOperationReport, VideoTransferMode};

fn strings(v: &[&str]) -> Vec<String> {
    v.iter().map(|s| s.to_string()).collect()
}

fn check(a: &RenameAction) -> String {
    match a {
        RenameAction::CheckExists(p) => p.clone(),
        _ => panic!("expected an existence check"),
    }
}

#[test]
fn a_run_links_each_file_and_copies_its_subtitles() {
    let (mut run, first) = RenameRun::start(
        strings(&["x.mkv", "y.mkv"]),
        "/in".to_string(),
        strings(&["ep01 - A", "ep02 - B/C"]),
        "/lib/S(2020)".to_string(),
        VideoTransferMode::HardLink,
    );
    assert_eq!(check(&first), "/lib/S(2020)/ep01 - A.mkv");
    match run.on_event(RenameEvent::Exists(false)) {
        RenameAction::TransferVideo { source, target, mode } => {
            assert_eq!(source, "/in/x.mkv");
            assert_eq!(target, "/lib/S(2020)/ep01 - A.mkv");
            assert_eq!(mode, VideoTransferMode::HardLink);
        },
        _ => panic!("expected a transfer"),
    }
    assert!(matches!(run.on_event(RenameEvent::Transferred(Ok(()))), RenameAction::ListDirectory(d) if d == "/in"));
    let next = run.on_event(RenameEvent::Listing(strings(&["x.mkv", "x.sc.ass", "y.mkv"])));
    assert_eq!(check(&next), "/lib/S(2020)/ep01 - A.sc.ass");
    match run.on_event(RenameEvent::Exists(false)) {
        RenameAction::CopySubtitle { source, target } => {
            assert_eq!(source, "/in/x.sc.ass");
            assert_eq!(target, "/lib/S(2020)/ep01 - A.sc.ass");
        },
        _ => panic!("expected a copy"),
    }
    let next = run.on_event(RenameEvent::Copied(Ok(())));
    assert_eq!(check(&next), "/lib/S(2020)/ep02 - B／C.mkv");
    let _ = run.on_event(RenameEvent::Exists(true));
    assert!(run.is_finished());
    let report = run.into_report();
    assert_eq!(report.successful_links, 1);
    assert_eq!(report.skipped_files, 1);
    assert_eq!(report.subtitle_copied, 1);
    assert_eq!(report.successful_links + report.failed_links + report.skipped_files, 2);
    assert_eq!(report.details, strings(&["跳过文件 'y.mkv': 目标已存在"]));
}

#[test]
fn a_run_with_more_files_than_episodes_asks_first() {
    let (mut run, first) = RenameRun::start(
        strings(&["a.mkv", "b.mkv"]),
        "/in".to_string(),
        strings(&["ep1 - A"]),
        "/lib".to_string(),
        VideoTransferMode::HardLink,
    );
    match first {
        RenameAction::Confirm(m) => assert_eq!(m, "警告: 选择的文件数量 (2) 多于剧集数量 (1). 是否继续?"),
        _ => panic!("expected a confirmation"),
    }
    assert!(matches!(run.on_event(RenameEvent::Answer(false)), RenameAction::Finished));
    let report = run.into_report();
    assert!(report.cancelled);
    assert_eq!(report.summary(), "已取消：文件数量多于剧集数量");
}

#[test]
fn a_run_skips_files_beyond_the_episodes_and_onto_themselves() {
    let (mut run, first) = RenameRun::start(
        strings(&["ep1 - A.mkv", "b.mkv"]),
        "/lib".to_string(),
        strings(&["ep1 - A"]),
        "/lib".to_string(),
        VideoTransferMode::HardLink,
    );
    match first {
        RenameAction::Confirm(_) => {},
        _ => panic!("expected a confirmation"),
    }
    assert!(matches!(run.on_event(RenameEvent::Answer(true)), RenameAction::Finished));
    let report = run.into_report();
    assert_eq!(report.skipped_files, 2);
    assert_eq!(report.details, strings(&["跳过文件 'ep1 - A.mkv': 源与目标相同", "跳过文件 'b.mkv': 超出剧集范围"]));
}

#[test]
fn a_hard_link_across_volumes_becomes_a_copy_when_accepted() {
    let (mut run, _) = RenameRun::start(
        strings(&["a.mkv"]),
        "/in".to_string(),
        strings(&["ep1 - A"]),
        "/lib".to_string(),
        VideoTransferMode::HardLink,
    );
    let _ = run.on_event(RenameEvent::Exists(false));
    let failure = TransferFailure { message: "cross-device link".to_string(), cross_device: true };
    assert!(matches!(
        run.on_event(RenameEvent::Transferred(Err(failure))),
        RenameAction::ConfirmCrossVolume { source_root, target_root } if source_root == "/in" && target_root == "/lib"
    ));
    match run.on_event(RenameEvent::Answer(true)) {
        RenameAction::TransferVideo { mode, .. } => assert_eq!(mode, VideoTransferMode::Copy),
        _ => panic!("expected a copy"),
    }
    let failure = TransferFailure { message: "disk full".to_string(), cross_device: false };
    assert!(matches!(run.on_event(RenameEvent::Transferred(Err(failure))), RenameAction::Finished));
    let report = run.into_report();
    assert_eq!(report.failed_links, 1);
    assert_eq!(report.transfer_mode, VideoTransferMode::Copy);
    assert_eq!(report.summary(), "完成: 视频复制成功 0，视频复制失败 1");
    assert_eq!(report.details, strings(&["失败: 'a.mkv', 错误: disk full"]));
}

#[test]
fn reports_summarise_and_list_at_most_twelve_details() {
    let mut r = FileOperationReport::new();
    assert!(r.is_clean_success());
    assert_eq!(r.detail_message(), None);
    r.subtitle_copied = 3;
    r.subtitle_failed = 1;
    r.subtitle_skipped = 2;
    for i in 0..14 {
        r.details.push(format!("d{}", i));
    }
    assert!(!r.is_clean_success());
    assert_eq!(r.summary(), "完成: 视频硬链接成功 0，视频硬链接失败 0，字幕复制 3，字幕失败 1，字幕跳过 2");
    let detail = r.detail_message().expect("details");
    assert!(detail.ends_with("d10\nd11\n... 其余 2 条省略"));
    assert!(!detail.contains("d12"));
    assert_eq!(usize_text(42), "42");
    assert_eq!(VideoTransferMode::Copy.success_label(), "视频复制成功");
    assert_eq!(VideoTransferMode::HardLink.failure_label(), "视频硬链接失败");
}
