use bgm_rename_cuby::names::{
    clean_filename, ext_in_list_ignore_ascii_case, extract_anime_name_from_path, extract_anime_name_regex,
    extract_from_simple_format, extract_from_tagged_format, find_matching_subtitle_files, is_subtitle_extension,
    is_video_extension, new_anime_folder_name, new_episode_file_name, new_subtitle_file_name, replace2,
    replace_invalid_chars, select_video_files, shorten_path_for_display, subtitle_extension_for,
};
use bgm_rename_cuby::paths::{file_name_extension, path_extension_of, path_file_name, path_join, paths_equal};

fn strings(v: &[&str]) -> Vec<String> {
    v.iter().map(|s| s.to_string()).collect()
}

#[test]
fn cleaning_replaces_every_reserved_character_once() {
    let cleaned = clean_filename("a/b\\c<d>e:f*g?h\"i|j");
    assert_eq!(cleaned, "a／b＼c＜d＞e：f＊g？h＂i｜j");
    assert_eq!(clean_filename(&cleaned), cleaned);
    assert_eq!(replace_invalid_chars("x:y"), "x：y");
    assert_eq!(replace2("a/b\\c<d>:"), "a／b＼c＜d＞:");
    assert_eq!(replace2(&replace2("a/b")), replace2("a/b"));
}

#[test]
fn anime_names_come_from_tags_or_underscores() {
    assert_eq!(extract_anime_name_regex("[Nekomoe kissaten][Bocchi the Rock!][01-12][1080p]").as_deref(), Some("Bocchi the Rock!"));
    assert_eq!(extract_anime_name_regex("[Rev][Grp][ Name ][x]").as_deref(), Some("Name"));
    assert_eq!(extract_anime_name_regex("[Grp] Bocchi the Rock! [1080p]").as_deref(), Some("Bocchi the Rock!"));
    assert_eq!(extract_anime_name_regex("孤独摇滚_S01").as_deref(), Some("孤独摇滚"));
    assert_eq!(extract_anime_name_regex("plain"), None);
    assert_eq!(extract_anime_name_regex("[Grp]"), None);
}

#[test]
fn folder_names_are_read_by_tag_count() {
    assert_eq!(extract_from_tagged_format("[rev][Grp]Name").as_deref(), Some("Name"));
    assert_eq!(extract_from_tagged_format("[Grp][Status]Name").as_deref(), Some("Name"));
    assert_eq!(extract_from_tagged_format("[Grp]Name").as_deref(), Some("Name"));
    assert_eq!(extract_from_tagged_format("[Grp]"), None);
    assert_eq!(extract_from_tagged_format("Name"), None);
    assert_eq!(extract_from_simple_format("Name_S1").as_deref(), Some("Name"));
    assert_eq!(extract_anime_name_from_path("/x/[raw][Grp] Name ").as_deref(), Some("Name"));
    assert_eq!(extract_anime_name_from_path("/x/Name_S1").as_deref(), Some("Name"));
    assert_eq!(extract_anime_name_from_path("/"), None);
}

#[test]
fn long_paths_are_shortened_for_display() {
    assert_eq!(shorten_path_for_display("/very/long/path/file.mkv", 15), "/ver...file.mkv");
    assert_eq!(shorten_path_for_display("/a/verylongfilename.mkv", 10), "...ame.mkv");
    assert_eq!(shorten_path_for_display("abc", 10), "abc");
    assert_eq!(shorten_path_for_display("abcdef", 2), "ab");
    assert_eq!(shorten_path_for_display("", 5), "");
}

#[test]
fn extension_lists_ignore_ascii_case() {
    assert!(ext_in_list_ignore_ascii_case("MKV", &["mp4", "mkv"]));
    assert!(!ext_in_list_ignore_ascii_case("mkv2", &["mp4", "mkv"]));
    assert!(is_video_extension("WebM"));
    assert!(!is_video_extension("ass"));
    assert!(is_subtitle_extension("SUP"));
    assert_eq!(
        select_video_files(&strings(&["a.mkv", "b.ASS", "c.Mp4", "noext", ".mkv"])),
        strings(&["a.mkv", "c.Mp4"])
    );
}

#[test]
fn subtitles_match_by_stem_and_language_tag() {
    let names = strings(&[
        "ep.ass",
        "ep.sc.ass",
        "ep.x!y.srt",
        "other.srt",
        "ep.mkv",
        "ep.verylonglang.ass",
        "ep.en-US.vtt",
        "ep.简体.ass",
        "ep.简体中文字.ass",
    ]);
    let found = find_matching_subtitle_files("ep.mkv", &names);
    let expected: Vec<(String, String)> = vec![
        ("ep.ass".to_string(), "ass".to_string()),
        ("ep.sc.ass".to_string(), "ass".to_string()),
        ("ep.en-US.vtt".to_string(), "vtt".to_string()),
        ("ep.简体.ass".to_string(), "ass".to_string()),
    ];
    assert_eq!(found, expected);
    assert_eq!(subtitle_extension_for("ep.mkv", "ep.SRT").as_deref(), Some("SRT"));
    assert_eq!(subtitle_extension_for("ep.mkv", "ep.sc.txt"), None);
}

#[test]
fn new_names_keep_extensions_and_language_tags() {
    assert_eq!(new_episode_file_name("/in", "x.mkv", "ep01 - A/B"), "ep01 - A／B.mkv");
    assert_eq!(new_episode_file_name("/in", "noext", "ep01 - A"), "ep01 - A");
    assert_eq!(new_subtitle_file_name("x.mkv", "x.sc.ass", "ass", "ep01 - A"), "ep01 - A.sc.ass");
    assert_eq!(new_subtitle_file_name("x.mkv", "x.ass", "ass", "ep01 - A"), "ep01 - A.ass");
    assert_eq!(new_anime_folder_name("Fate/Zero", "2011"), "Fate／Zero （2011）");
}

#[test]
fn paths_join_and_split_as_std_does_on_unix() {
    assert_eq!(path_join("/a", "b"), "/a/b");
    assert_eq!(path_join("/a/", "b"), "/a/b");
    assert_eq!(path_join("", "b"), "b");
    assert_eq!(path_join("/a", "/b"), "/b");
    assert_eq!(path_file_name("/a/b.mkv/").as_deref(), Some("b.mkv"));
    assert_eq!(path_file_name("/a/b/."), Some("b".to_string()));
    assert_eq!(path_file_name("/a/.."), None);
    assert_eq!(path_file_name("/"), None);
    assert_eq!(file_name_extension(".bashrc"), None);
    assert_eq!(file_name_extension("a.tar.gz").as_deref(), Some("gz"));
    assert_eq!(file_name_extension("a.").as_deref(), Some(""));
    assert_eq!(path_extension_of("/x.y/z"), None);
    assert!(paths_equal("/a//b/./c", "/a/b/c"));
    assert!(!paths_equal("/a/b", "/a/c"));
}

