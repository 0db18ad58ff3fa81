use bgm_rename_cuby::linker::{
    contains_str, file_sort, file_sort_checked, link_rename_plan_from_parses, sort_by_parsed, sort_by_parsed_checked, filenames2, get_out_file_paths, just_link_plan_checked, link_rename_plan,
    link_rename_plan_checked, mkouts, out_ep_path, out_file_names, panduan, panduan2, remove_st, set_out_path, Bgm,
    Ep, Episode, Files, LinkOp, Subject,
};

fn ep_entry(airdate: &str, sort: u64, name: &str, name_cn: &str) -> Episode {
    Episode { airdate: airdate.to_string(), sort, name: name.to_string(), name_cn: name_cn.to_string() }
}

fn strings(v: &[&str]) -> Vec<String> {
    v.iter().map(|s| s.to_string()).collect()
}

fn link(from: &str, to: &str) -> (bool, String, String) {
    (true, from.to_string(), to.to_string())
}

fn copy(from: &str, to: &str) -> (bool, String, String) {
    (false, from.to_string(), to.to_string())
}

fn ops_list(ops: &[LinkOp]) -> Vec<(bool, String, String)> {
    ops.iter()
        .map(|op| match op {
            LinkOp::HardLink { from, to } => (true, from.clone(), to.clone()),
            LinkOp::Copy { from, to } => (false, from.clone(), to.clone()),
        })
        .collect()
}

#[test]
fn it_works() {
    let result = 2 + 2;
    assert_eq!(result, 4);
}

#[test]
fn test_bgm() {
    let bgm = Bgm::new();
    let bgm = bgm.get("孤独摇滚", |url: String, agent: Option<String>| -> Vec<Subject> {
        assert_eq!(url, "https://api.bgm.tv/search/subject/孤独摇滚?type=2&responseGroup=small");
        assert_eq!(agent, None);
        vec![
            Subject { id: 328609, name: "ぼっち・ざ・ろっく！".to_string(), name_cn: "孤独摇滚！".to_string() },
            Subject { id: 404804, name: "ぼっち・ざ・ろっく！ 総集編".to_string(), name_cn: String::new() },
        ]
    });
    println!("{:?}", bgm);
    assert_eq!(bgm.id, vec!["328609".to_string(), "404804".to_string()]);
    assert_eq!(bgm.name, vec!["孤独摇滚！".to_string(), "ぼっち・ざ・ろっく！ 総集編".to_string()]);
}

#[test]
fn test_ep() {
    let ep = Ep::get("388190", |url: String, agent: Option<String>| -> Vec<Episode> {
        assert_eq!(url, "https://api.bgm.tv/v0/episodes?subject_id=388190&type=0&limit=100&offset=0");
        assert_eq!(agent.as_deref(), Some("uuzp/bgm_rename_cuby"));
        vec![
            ep_entry("2023-04-09", 1, "First", "<第一话>"),
            ep_entry("2023-04-16", 2, "Second", ""),
            ep_entry("2023-06-25", 12, "Twelfth", "第十二话"),
        ]
    });
    println!("{:?}", ep);
    assert_eq!(ep.year, 2023);
    assert_eq!(
        ep.name,
        vec!["ep01 - ＜第一话＞".to_string(), "ep02 - Second".to_string(), "ep12 - 第十二话".to_string()]
    );
}

#[test]
fn test_file_sort() {
    let mut v: Vec<String> = vec![
        "[SweetSub&LoliHouse] Bocchi the Rock! - 11 [WebRip 1080p HEVC-10bit AAC ASSx2].mkv".to_string(),
        "[SweetSub&LoliHouse] Bocchi the Rock! - 01 [WebRip 1080p HEVC-10bit AAC ASSx2].mkv".to_string(),
        "[SweetSub&LoliHouse] Bocchi the Rock! - 02 [WebRip 1080p HEVC-10bit AAC ASSx2].mkv".to_string(),
        "[SweetSub&LoliHouse] Bocchi the Rock! - 03 [WebRip 1080p HEVC-10bit AAC ASSx2].mkv".to_string(),
        "[SweetSub&LoliHouse] Bocchi the Rock! - 04 [WebRip 1080p HEVC-10bit AAC ASSx2].mkv".to_string(),
        "[SweetSub&LoliHouse] Bocchi the Rock! - 05 [WebRip 1080p HEVC-10bit AAC ASSx2].mkv".to_string(),
        "[SweetSub&LoliHouse] Bocchi the Rock! - 06 [WebRip 1080p HEVC-10bit AAC ASSx2].mkv".to_string(),
        "[SweetSub&LoliHouse] Bocchi the Rock! - 07 [WebRip 1080p HEVC-10bit AAC ASSx2].mkv".to_string(),
        "[SweetSub&LoliHouse] Bocchi the Rock! - 08 [WebRip 1080p HEVC-10bit AAC ASSx2].mkv".to_string(),
        "[SweetSub&LoliHouse] Bocchi the Rock! - 09 [WebRip 1080p HEVC-10bit AAC ASSx2].mkv".to_string(),
        "[SweetSub&LoliHouse] Bocchi the Rock! - 10 [WebRip 1080p HEVC-10bit AAC ASSx2].mkv".to_string(),
        "[SweetSub&LoliHouse] Bocchi the Rock! - 12 [WebRip 1080p HEVC-10bit AAC ASSx2].mkv".to_string(),
    ];
    let v = file_sort(&mut v).expect("every name parses");
    println!("{:?}", v);
    let expected: Vec<String> = (1..=12)
        .map(|n| format!("[SweetSub&LoliHouse] Bocchi the Rock! - {:02} [WebRip 1080p HEVC-10bit AAC ASSx2].mkv", n))
        .collect();
    assert_eq!(v, expected);
}

#[test]
fn file_sort_keeps_the_order_of_equal_numbers_and_updates_the_list() {
    let mut v = strings(&[
        "/in/[Grp] Show - 02 [1080p].mkv",
        "/in/[Grp] Show - 01 [1080p].mkv",
        "/in/[Grp] Show - 02 [720p].mkv",
    ]);
    let sorted = file_sort(&mut v).expect("every name parses");
    assert_eq!(sorted, strings(&["/in/[Grp] Show - 01 [1080p].mkv", "/in/[Grp] Show - 02 [1080p].mkv", "/in/[Grp] Show - 02 [720p].mkv"]));
    assert_eq!(v, sorted);
}

#[test]
fn file_sort_checked_refuses_names_anitomy_cannot_read() {
    let mut v = strings(&["/in/[Grp] Show - 01.mkv", "/in/.."]);
    assert!(file_sort_checked(&mut v).is_none());
    assert_eq!(v, strings(&["/in/[Grp] Show - 01.mkv", "/in/.."]));
    let mut ok = strings(&["/in/[Grp] Show - 03 [1080p].mkv", "/in/[Grp] Show - 01 [1080p].mkv"]);
    assert_eq!(
        file_sort_checked(&mut ok),
        Some(strings(&["/in/[Grp] Show - 01 [1080p].mkv", "/in/[Grp] Show - 03 [1080p].mkv"]))
    );
}

#[test]
fn output_paths_join_safe_names() {
    assert_eq!(set_out_path("/media/anime"), "/media/anime");
    assert_eq!(
        get_out_file_paths("/out".to_string(), strings(&["a/b", "c<d>"])),
        strings(&["/out/a／b", "/out/c＜d＞"])
    );
    assert_eq!(mkouts(&"/out/".to_string(), strings(&["x.mkv"])), strings(&["/out/x.mkv"]));
    assert_eq!(filenames2(&strings(&["/in/a.mkv", "/in/dir/"])), strings(&["a.mkv", "dir"]));
    let ep = Ep { name: strings(&["ep01 - A", "ep02 - B"]), year: 2020 };
    assert_eq!(out_file_names(&"/lib/Show (2020)".to_string(), &ep), strings(&["/lib/Show (2020)/ep01 - A", "/lib/Show (2020)/ep02 - B"]));
}

#[test]
fn anime_folders_take_the_year_of_the_first_subject() {
    let (eps, dirs) = out_ep_path(
        "/lib".to_string(),
        vec![("1".to_string(), "A/B".to_string()), ("2".to_string(), "C".to_string())],
        "unused",
        |url: String, _agent: Option<String>| -> Vec<Episode> {
            if url.contains("subject_id=1&") {
                vec![ep_entry("2019-01-01", 1, "x", "")]
            } else {
                vec![ep_entry("2021-01-01", 1, "y", "")]
            }
        },
    );
    assert_eq!(eps.len(), 2);
    assert_eq!(eps[1].year, 2021);
    assert_eq!(dirs, strings(&["/lib/A／B （2019）", "/lib/C （2019）"]));
}

#[test]
fn ep_of_an_empty_list_is_1970_and_empty() {
    let ep = Ep::get("1", |_url: String, _agent: Option<String>| -> Vec<Episode> { vec![] });
    assert_eq!(ep.year, 1970);
    assert!(ep.name.is_empty());
    let fresh = Ep::new();
    assert_eq!(fresh.year, 1970);
    assert!(Bgm::new().name.is_empty());
}

#[test]
fn panduan_picks_by_lowercase_extension() {
    let picked = panduan(strings(&["/d/a.MKV", "/d/b.ass", "/d/c.mp4", "/d/d.txt"]), "mp4 mkv avi flv");
    assert_eq!(picked, strings(&["/d/a.MKV", "/d/c.mp4"]));
}

#[test]
fn panduan2_retags_with_the_first_extension() {
    let subs = strings(&["/d/a.sc.ass", "/d/a.tc.srt", "/d/b.chs.srt", "/d/c.ass"]);
    assert_eq!(panduan2(subs.clone(), "sc chs gb"), strings(&["/d/a.sc.ass", "/d/b.chs.ass"]));
    assert_eq!(panduan2(subs, "tc cht big5"), strings(&["/d/a.tc.ass"]));
    assert!(panduan2(Vec::new(), "sc").is_empty());
}

#[test]
fn remove_st_drops_language_tagged_subtitles() {
    let subs = strings(&["/d/a.sc.ass", "/d/a.tc.ass", "/d/b.ass", "/d/c.en.ass"]);
    assert_eq!(remove_st(subs, "sc chs gb tc cht big5".to_string()), strings(&["/d/b.ass", "/d/c.en.ass"]));
}

#[test]
fn files_start_and_sort_empty() {
    let f = Files { video: strings(&["a"]), sub: vec![], sub_sc: vec![], sub_tc: vec![] };
    let sorted = f.sort();
    assert!(sorted.video.is_empty() && sorted.sub.is_empty() && sorted.sub_sc.is_empty() && sorted.sub_tc.is_empty());
    let n = Files::new();
    assert!(n.video.is_empty());
}

#[test]
fn link_rename_links_videos_and_copies_subtitles_by_episode() {
    let listing = strings(&[
        "/in/[Grp] Show - 02 [1080p].mkv",
        "/in/[Grp] Show - 01 [1080p].mkv",
        "/in/[Grp] Show - 02 [1080p].sc.ass",
        "/in/[Grp] Show - 01 [1080p].sc.ass",
        "/in/[Grp] Show - 01 [1080p].ass",
        "/in/[Grp] Show - 02 [1080p].ass",
        "/in/notes.txt",
    ]);
    let ep = Ep { name: strings(&["ep01 - A", "ep02 - B"]), year: 2020 };
    let ops = link_rename_plan(listing.clone(), &"/lib/Show (2020)".to_string(), &ep).expect("plan");
    assert_eq!(
        ops_list(&ops),
        vec![
            link("/in/[Grp] Show - 01 [1080p].mkv", "/lib/Show (2020)/ep01 - A.mkv"),
            copy("/in/[Grp] Show - 01 [1080p].ass", "/lib/Show (2020)/ep01 - A.ass"),
            copy("/in/[Grp] Show - 01 [1080p].sc.ass", "/lib/Show (2020)/ep01 - A.sc.ass"),
            link("/in/[Grp] Show - 02 [1080p].mkv", "/lib/Show (2020)/ep02 - B.mkv"),
            copy("/in/[Grp] Show - 02 [1080p].ass", "/lib/Show (2020)/ep02 - B.ass"),
            copy("/in/[Grp] Show - 02 [1080p].sc.ass", "/lib/Show (2020)/ep02 - B.sc.ass"),
        ]
    );
    let checked = link_rename_plan_checked(listing, &"/lib/Show (2020)".to_string(), &ep).expect("plan");
    assert_eq!(ops_list(&checked), ops_list(&ops));
}

#[test]
fn link_rename_refuses_folders_it_cannot_link() {
    let ep = Ep { name: strings(&["ep01 - A"]), year: 2020 };
    let too_many = strings(&["/in/[G] S - 01.mkv", "/in/[G] S - 02.mkv"]);
    assert!(link_rename_plan_checked(too_many, &"/out".to_string(), &ep).is_none());
    let no_video = strings(&["/in/[G] S - 01.ass"]);
    assert!(link_rename_plan_checked(no_video, &"/out".to_string(), &ep).is_none());
    let no_extension = strings(&["/in/[G] S - 01.mkv", "/in/README"]);
    assert!(link_rename_plan_checked(no_extension, &"/out".to_string(), &ep).is_none());
}

#[test]
fn just_link_keeps_the_names() {
    let listing = strings(&["/in/a.mkv", "/in/a.ass", "/in/a.sc.ass", "/in/a.tc.ass"]);
    let ops = just_link_plan_checked(listing, &"/out".to_string()).expect("plan");
    assert_eq!(
        ops_list(&ops),
        vec![
            link("/in/a.mkv", "/out/a.mkv"),
            copy("/in/a.ass", "/out/a.ass"),
            copy("/in/a.sc.ass", "/out/a.sc.ass"),
            copy("/in/a.tc.ass", "/out/a.tc.ass"),
        ]
    );
    let missing_tc = strings(&["/in/a.mkv", "/in/a.ass", "/in/a.sc.ass"]);
    assert!(just_link_plan_checked(missing_tc, &"/out".to_string()).is_none());
}

#[test]
fn sort_by_parsed_orders_by_the_given_numbers() {
    let mut v = strings(&["/in/c.mkv", "/in/a.mkv", "/in/b.mkv", "/in/d.mkv"]);
    let parsed = vec![
        (true, Some("3".to_string())),
        (true, Some("1".to_string())),
        (true, None),
        (true, Some("1".to_string())),
    ];
    let sorted = sort_by_parsed(&mut v, &parsed);
    assert_eq!(sorted, strings(&["/in/b.mkv", "/in/a.mkv", "/in/d.mkv", "/in/c.mkv"]));
    assert_eq!(v, sorted);
}

#[test]
fn link_rename_keeps_dotted_titles_whole() {
    let listing = strings(&["/in/[Grp] Show - 01 [1080p].mkv"]);
    let ep = Ep { name: strings(&["ep01 - Vol.2"]), year: 2020 };
    let ops = link_rename_plan(listing, &"/lib".to_string(), &ep).expect("plan");
    assert_eq!(ops_list(&ops), vec![link("/in/[Grp] Show - 01 [1080p].mkv", "/lib/ep01 - Vol.2.mkv")]);
}

fn parse(ok: bool, n: Option<&str>) -> (bool, Option<String>) {
    (ok, n.map(|s| s.to_string()))
}

#[test]
fn sort_by_parsed_checked_refuses_unusable_parses() {
    let mut v = strings(&["/in/b.mkv", "/in/a.mkv"]);
    assert_eq!(sort_by_parsed_checked(&mut v, &vec![parse(true, Some("2")), parse(false, Some("1"))]), None);
    assert_eq!(sort_by_parsed_checked(&mut v, &vec![parse(true, Some("x")), parse(true, Some("1"))]), None);
    assert_eq!(v, strings(&["/in/b.mkv", "/in/a.mkv"]));
    let sorted = sort_by_parsed_checked(&mut v, &vec![parse(true, Some("2")), parse(true, Some("01"))]);
    assert_eq!(sorted, Some(strings(&["/in/a.mkv", "/in/b.mkv"])));
    assert_eq!(v, strings(&["/in/a.mkv", "/in/b.mkv"]));
}

#[test]
fn file_sort_of_an_empty_list_succeeds() {
    let mut v: Vec<String> = Vec::new();
    assert_eq!(file_sort(&mut v), Some(Vec::new()));
    assert_eq!(file_sort_checked(&mut v), Some(Vec::new()));
}

#[test]
fn the_plan_follows_the_parsed_episode_numbers() {
    let listing = strings(&["/in/x.mkv", "/in/y.mkv", "/in/x.ass", "/in/y.ass"]);
    let ep = Ep { name: strings(&["ep01 - A", "ep02 - B"]), year: 2020 };
    let pv = vec![parse(true, Some("2")), parse(true, Some("1"))];
    let ps = vec![parse(true, Some("2")), parse(true, Some("1"))];
    let ops = link_rename_plan_from_parses(listing.clone(), &"/lib".to_string(), &ep, &pv, &ps, &vec![], &vec![])
        .expect("plan");
    assert_eq!(
        ops_list(&ops),
        vec![
            link("/in/y.mkv", "/lib/ep01 - A.mkv"),
            copy("/in/y.ass", "/lib/ep01 - A.ass"),
            link("/in/x.mkv", "/lib/ep02 - B.mkv"),
            copy("/in/x.ass", "/lib/ep02 - B.ass"),
        ]
    );
    let bad = vec![parse(true, Some("2")), parse(false, None)];
    assert!(link_rename_plan_from_parses(listing, &"/lib".to_string(), &ep, &pv, &bad, &vec![], &vec![]).is_none());
}

#[test]
fn lowercased_tags_are_looked_up_in_their_list() {
    assert!(contains_str("sc chs gb", "chs"));
    assert!(contains_str("mp4 mkv avi flv", "mkv"));
    assert!(!contains_str("mp4 mkv avi flv", "ass"));
    assert!(contains_str("mp4 mkv", ""));
}
