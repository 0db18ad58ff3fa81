use bgm_rename_cuby::bangumi_api::{
    get_episodes, search_subjects, subject_episodes_url, subject_search_url, BangumiError, Episode, Episodes,
    Subject,
};
use bgm_rename_cuby::http::{decode_chunked, parse_http_response};

fn episode(sort: u64, name: &str, name_cn: &str) -> Episode {
    Episode { sort, name: name.to_string(), name_cn: name_cn.to_string() }
}

fn subject(id: u64, name: &str, name_cn: &str, air_date: Option<&str>) -> Subject {
    Subject { id, name: name.to_string(), name_cn: name_cn.to_string(), air_date: air_date.map(|d| d.to_string()) }
}

#[test]
fn test_episodes_formatting() {
    let episodes = vec![episode(1, "Episode 1", "第一集"), episode(12, "Episode 12", "第十二集")];
    let subject = subject(123, "Test Anime", "测试动画", Some("2023-01-01"));
    let eps = Episodes::new(episodes, &subject);
    let formatted = eps.formatted_names();
    assert_eq!(formatted[0], "ep01 - 第一集");
    assert_eq!(formatted[1], "ep12 - 第十二集");
}

#[test]
fn test_empty_search() {
    let result = search_subjects("", |_url: String| -> Result<Vec<Subject>, BangumiError> {
        panic!("no request is made for empty keywords")
    });
    assert!(result.is_err());
    match result {
        Err(BangumiError::InvalidInput(_)) => {},
        _ => panic!("Expected InvalidInput error"),
    }
}

#[test]
fn test_decode_chunked() {
    let chunked = b"4\r\nWiki\r\n5\r\npedia\r\n0\r\n\r\n";
    let decoded = decode_chunked(chunked).expect("decode chunked");
    assert_eq!(decoded, b"Wikipedia");
}

#[test]
fn test_parse_http_response_content_length() {
    let raw = b"HTTP/1.1 200 OK\r\nContent-Length: 5\r\n\r\nhelloEXTRA";
    let resp = parse_http_response(raw).expect("parse http");
    assert_eq!(resp.status_code, 200);
    assert_eq!(resp.body, b"hello");
}

#[test]
fn display_names_prefer_the_chinese_name() {
    assert_eq!(subject(1, "Bocchi the Rock!", "孤独摇滚！", None).display_name(), "孤独摇滚！");
    assert_eq!(subject(1, "Bocchi the Rock!", "", None).display_name(), "Bocchi the Rock!");
    assert_eq!(episode(1, "Episode 1", "").display_name(), "Episode 1");
    assert_eq!(episode(1, "Episode 1", "第一集").display_name(), "第一集");
}

#[test]
fn year_comes_from_the_first_four_characters_of_the_air_date() {
    assert_eq!(subject(1, "a", "", Some("2022-10-09")).year(), Some(2022));
    assert_eq!(subject(1, "a", "", Some("+202")).year(), Some(202));
    assert_eq!(subject(1, "a", "", Some("20x3-01-01")).year(), None);
    assert_eq!(subject(1, "a", "", Some("202")).year(), None);
    assert_eq!(subject(1, "a", "", None).year(), None);
}

#[test]
fn episodes_without_an_air_date_default_to_1970() {
    let eps = Episodes::new(vec![episode(1, "a", "")], &subject(1, "a", "", None));
    assert_eq!(eps.year, 1970);
    let eps = Episodes::new(vec![], &subject(1, "a", "", Some("2019-04-05")));
    assert_eq!(eps.year, 2019);
}

#[test]
fn episode_numbers_are_padded_to_the_largest() {
    let eps = Episodes::new(
        vec![episode(1, "one", ""), episode(100, "hundred", "百")],
        &subject(1, "a", "", None),
    );
    assert_eq!(eps.formatted_names(), vec!["ep001 - one".to_string(), "ep100 - 百".to_string()]);
    let eps = Episodes::new(vec![episode(0, "zero", "")], &subject(1, "a", "", None));
    assert_eq!(eps.formatted_names(), vec!["ep0 - zero".to_string()]);
    let eps = Episodes::new(vec![], &subject(1, "a", "", None));
    assert!(eps.formatted_names().is_empty());
}

#[test]
fn search_url_trims_and_percent_encodes() {
    let url = subject_search_url("  孤独 摇滚 ").expect("url");
    assert_eq!(
        url,
        "https://api.bgm.tv/search/subject/%E5%AD%A4%E7%8B%AC%20%E6%91%87%E6%BB%9A?type=2&responseGroup=large&limit=25"
    );
}

#[test]
fn search_keywords_longer_than_100_bytes_are_refused() {
    match subject_search_url(&"a".repeat(101)) {
        Err(BangumiError::InvalidInput(m)) => assert_eq!(m, "搜索关键词过长"),
        _ => panic!("expected InvalidInput"),
    }
    assert!(subject_search_url(&"a".repeat(100)).is_ok());
    match subject_search_url(&"孤".repeat(34)) {
        Err(BangumiError::InvalidInput(m)) => assert_eq!(m, "搜索关键词过长"),
        _ => panic!("expected InvalidInput"),
    }
    match subject_search_url(" \t ") {
        Err(BangumiError::InvalidInput(m)) => assert_eq!(m, "搜索关键词不能为空"),
        _ => panic!("expected InvalidInput"),
    }
}

#[test]
fn search_hands_the_url_to_fetch_and_returns_its_reply() {
    let result = search_subjects("bocchi", |url: String| -> Result<Vec<Subject>, BangumiError> {
        assert_eq!(url, "https://api.bgm.tv/search/subject/bocchi?type=2&responseGroup=large&limit=25");
        Ok(vec![subject(328609, "ぼっち・ざ・ろっく！", "孤独摇滚！", Some("2022-10-09"))])
    })
    .expect("subjects");
    assert_eq!(result.len(), 1);
    assert_eq!(result[0].id, 328609);
    let failed = search_subjects("bocchi", |_url: String| -> Result<Vec<Subject>, BangumiError> {
        Err(BangumiError::RateLimit)
    });
    assert!(matches!(failed, Err(BangumiError::RateLimit)));
}

#[test]
fn episodes_are_fetched_for_the_subject_and_take_its_year() {
    let s = subject(328609, "a", "", Some("2022-10-09"));
    assert_eq!(subject_episodes_url(328609), "https://api.bgm.tv/v0/episodes?subject_id=328609&type=0&limit=100&offset=0");
    let eps = get_episodes(&s, |url: String| -> Result<Vec<Episode>, BangumiError> {
        assert_eq!(url, "https://api.bgm.tv/v0/episodes?subject_id=328609&type=0&limit=100&offset=0");
        Ok(vec![episode(1, "a", ""), episode(2, "b", "")])
    })
    .expect("episodes");
    assert_eq!(eps.year, 2022);
    assert_eq!(eps.items.len(), 2);
    let missing = get_episodes(&s, |_url: String| -> Result<Vec<Episode>, BangumiError> { Err(BangumiError::NotFound) });
    assert!(matches!(missing, Err(BangumiError::NotFound)));
}

#[test]
fn every_error_has_its_message() {
    assert_eq!(BangumiError::Network("超时".to_string()).message(), "网络错误: 超时");
    assert_eq!(BangumiError::NotFound.message(), "未找到请求的资源");
    assert_eq!(BangumiError::RateLimit.message(), "请求频率限制，请稍后重试");
    assert_eq!(BangumiError::Parse("坏".to_string()).message(), "数据解析错误: 坏");
    assert_eq!(BangumiError::InvalidInput("空".to_string()).message(), "输入错误: 空");
}
