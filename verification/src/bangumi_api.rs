//! The Bangumi (bgm.tv) data model: subjects, episodes, the episode file
//! names derived from them, and the two API queries the renamer makes.
use vstd::prelude::*;
use vstd::utf8::encode_utf8;
use crate::http::join2;
use crate::num::{dec_digits, parse_i32, parse_i32_range, push_dec, push_dec_padded, zero_pad};
use crate::text::{chars_of, push_range, push_str, trim, trim_string};
use crate::url::{percent_encode, percent_encode_path_segment};

verus! {

/// What went wrong while talking to the Bangumi API.
#[derive(Debug)]
pub enum BangumiError {
    Network(String),
    NotFound,
    RateLimit,
    Parse(String),
    InvalidInput(String),
}

/// The abstract value of a [`BangumiError`]: its variant and message.
pub enum ErrorView {
    Network(Seq<char>),
    NotFound,
    RateLimit,
    Parse(Seq<char>),
    InvalidInput(Seq<char>),
}

impl View for BangumiError {
    type V = ErrorView;

    open spec fn view(&self) -> ErrorView {
        match self {
            BangumiError::Network(m) => ErrorView::Network(m@),
            BangumiError::NotFound => ErrorView::NotFound,
            BangumiError::RateLimit => ErrorView::RateLimit,
            BangumiError::Parse(m) => ErrorView::Parse(m@),
            BangumiError::InvalidInput(m) => ErrorView::InvalidInput(m@),
        }
    }
}


impl BangumiError {
    /// The text shown to the user for this error.
    pub fn message(&self) -> (r: String)
        ensures
            r@ == error_text(self@),
    {
        match self {
            BangumiError::Network(m) => join2("网络错误: ", m.as_str()),
            BangumiError::NotFound => "未找到请求的资源".to_owned(),
            BangumiError::RateLimit => "请求频率限制，请稍后重试".to_owned(),
            BangumiError::Parse(m) => join2("数据解析错误: ", m.as_str()),
            BangumiError::InvalidInput(m) => join2("输入错误: ", m.as_str()),
        }
    }
}

/// The text shown to the user for an error.
pub open spec fn error_text(e: ErrorView) -> Seq<char> {
    match e {
        ErrorView::Network(m) => "网络错误: "@ + m,
        ErrorView::NotFound => "未找到请求的资源"@,
        ErrorView::RateLimit => "请求频率限制，请稍后重试"@,
        ErrorView::Parse(m) => "数据解析错误: "@ + m,
        ErrorView::InvalidInput(m) => "输入错误: "@ + m,
    }
}

/// The root of the Bangumi API.
pub const BGM_API_BASE: &'static str = "https://api.bgm.tv";

/// The user agent sent with every request.
pub const DEFAULT_USER_AGENT: &'static str = "uuzp/bgm_rename_cuby";

/// A Bangumi subject (an anime) as the search returns it.
#[derive(Debug, Clone)]
pub struct Subject {
    pub id: u64,
    pub name: String,
    pub name_cn: String,
    pub air_date: Option<String>,
}

/// An episode of a subject.
#[derive(Debug, Clone)]
pub struct Episode {
    pub sort: u64,
    pub name: String,
    pub name_cn: String,
}

/// The episodes of a subject with the subject's year.
#[derive(Debug, Clone)]
pub struct Episodes {
    pub items: Vec<Episode>,
    pub year: i32,
}

/// The Chinese name when there is one, else the original name.
pub open spec fn preferred_name(name: Seq<char>, name_cn: Seq<char>) -> Seq<char> {
    if name_cn.len() > 0 {
        name_cn
    } else {
        name
    }
}

/// The year of an air date: its first four characters read as an `i32`.
pub open spec fn year_of(air_date: Option<Seq<char>>) -> Option<i32> {
    match air_date {
        Some(d) => if d.len() >= 4 {
            parse_i32(d.take(4))
        } else {
            None
        },
        None => None,
    }
}

impl Subject {
    /// The name to show: the Chinese name when there is one.
    pub fn display_name(&self) -> (r: &str)
        ensures
            r@ == preferred_name(self.name@, self.name_cn@),
    {
        if !self.name_cn.as_str().is_empty() {
            self.name_cn.as_str()
        } else {
            self.name.as_str()
        }
    }

    /// The year the subject first aired, from the start of its air date.
    pub fn year(&self) -> (r: Option<i32>)
        ensures
            r == year_of(self.air_date.deep_view()),
    {
        match &self.air_date {
            Some(d) => {
                let cs = chars_of(d.as_str());
                if cs.len() >= 4 {
                    assert(cs@.subrange(0, 4) =~= cs@.take(4));
                    parse_i32_range(&cs, 0, 4)
                } else {
                    None
                }
            },
            None => None,
        }
    }
}

impl Episode {
    /// The name to show: the Chinese name when there is one.
    pub fn display_name(&self) -> (r: &str)
        ensures
            r@ == preferred_name(self.name@, self.name_cn@),
    {
        if !self.name_cn.as_str().is_empty() {
            self.name_cn.as_str()
        } else {
            self.name.as_str()
        }
    }
}

/// The largest episode number among `sorts`, 0 for none.
pub open spec fn max_sort(sorts: Seq<u64>) -> u64
    decreases sorts.len(),
{
    if sorts.len() == 0 {
        0
    } else {
        let m = max_sort(sorts.drop_last());
        if sorts.last() > m {
            sorts.last()
        } else {
            m
        }
    }
}

/// The episode numbers of a list of episodes.
pub open spec fn sorts_of(items: Seq<Episode>) -> Seq<u64> {
    items.map_values(|e: Episode| e.sort)
}

/// The width episode numbers are padded to: the number of digits of the largest one.
pub open spec fn episode_width(items: Seq<Episode>) -> nat {
    dec_digits(max_sort(sorts_of(items)) as nat).len()
}

/// The file name stem of one episode: "ep", the zero-padded number, " - " and its name.
pub open spec fn episode_label(ep: Episode, width: nat) -> Seq<char> {
    "ep"@ + zero_pad(dec_digits(ep.sort as nat), width) + " - "@ + preferred_name(ep.name@, ep.name_cn@)
}

impl Episodes {
    /// The episodes of `subject`, with the subject's year (1970 when it has none).
    pub fn new(items: Vec<Episode>, subject: &Subject) -> (r: Self)
        ensures
            r.items == items,
            r.year == (match year_of(subject.air_date.deep_view()) {
                Some(y) => y,
                None => 1970,
            }),
    {
        let year = match subject.year() {
            Some(y) => y,
            None => 1970,
        };
        Episodes { items, year }
    }

    /// One file name stem per episode, in order, numbers padded to the same width.
    pub fn formatted_names(&self) -> (r: Vec<String>)
        ensures
            r@.len() == self.items@.len(),
            forall|i: int|
                0 <= i < r@.len() ==> #[trigger] r@[i]@ == episode_label(
                    self.items@[i],
                    episode_width(self.items@),
                ),
    {
        let mut out: Vec<String> = Vec::new();
        if self.items.len() == 0 {
            return out;
        }
        let mut max: u64 = 0;
        let mut i: usize = 0;
        while i < self.items.len()
            invariant
                i <= self.items@.len(),
                max == max_sort(sorts_of(self.items@.take(i as int))),
            decreases self.items@.len() - i,
        {
            assert(sorts_of(self.items@.take(i + 1)).drop_last() =~= sorts_of(self.items@.take(i as int)));
            if self.items[i].sort > max {
                max = self.items[i].sort;
            }
            i = i + 1;
        }
        assert(self.items@.take(self.items@.len() as int) =~= self.items@);
        let mut width_digits: Vec<char> = Vec::new();
        push_dec(&mut width_digits, max);
        let width = width_digits.len();
        let mut k: usize = 0;
        while k < self.items.len()
            invariant
                k <= self.items@.len(),
                width == episode_width(self.items@),
                out@.len() == k,
                forall|j: int|
                    0 <= j < k ==> #[trigger] out@[j]@ == episode_label(
                        self.items@[j],
                        episode_width(self.items@),
                    ),
            decreases self.items@.len() - k,
        {
            let ep = &self.items[k];
            let mut cs: Vec<char> = Vec::new();
            cs.push('e');
            cs.push('p');
            push_dec_padded(&mut cs, ep.sort, width);
            let mut line = String::new();
            push_range(&mut line, &cs, 0, cs.len());
            push_str(&mut line, " - ");
            push_str(&mut line, ep.display_name());
            proof {
                reveal_strlit("ep");
                assert(cs@.subrange(0, cs@.len() as int) =~= cs@);
                assert(line@ =~= episode_label(*ep, width as nat));
            }
            out.push(line);
            k = k + 1;
        }
        out
    }
}


/// The search URL for keywords, or why there is none: the keywords are
/// trimmed, must not be empty, and must take at most 100 bytes of UTF-8.
pub open spec fn search_url(keywords: Seq<char>) -> Result<Seq<char>, ErrorView> {
    let t = trim(keywords);
    if t.len() == 0 {
        Err(ErrorView::InvalidInput("搜索关键词不能为空"@))
    } else if encode_utf8(t).len() > 100 {
        Err(ErrorView::InvalidInput("搜索关键词过长"@))
    } else {
        Ok(BGM_API_BASE@ + "/search/subject/"@ + percent_encode(encode_utf8(t))
            + "?type=2&responseGroup=large&limit=25"@)
    }
}

/// The URL listing the main episodes of a subject.
pub open spec fn episodes_url(id: u64) -> Seq<char> {
    BGM_API_BASE@ + "/v0/episodes?subject_id="@ + dec_digits(id as nat) + "&type=0&limit=100&offset=0"@
}

/// The search URL for keywords.
pub fn subject_search_url(keywords: &str) -> (r: Result<String, BangumiError>)
    ensures
        match search_url(keywords@) {
            Ok(u) => r matches Ok(x) && x@ == u,
            Err(e) => r matches Err(x) && x@ == e,
        },
{
    let trimmed = trim_string(keywords);
    if trimmed.as_str().is_empty() {
        return Err(BangumiError::InvalidInput("搜索关键词不能为空".to_owned()));
    }
    if trimmed.as_str().as_bytes().len() > 100 {
        return Err(BangumiError::InvalidInput("搜索关键词过长".to_owned()));
    }
    let encoded = percent_encode_path_segment(trimmed.as_str());
    let mut url = BGM_API_BASE.to_owned();
    push_str(&mut url, "/search/subject/");
    push_str(&mut url, encoded.as_str());
    push_str(&mut url, "?type=2&responseGroup=large&limit=25");
    Ok(url)
}

/// The URL listing the main episodes of subject `id`.
pub fn subject_episodes_url(id: u64) -> (r: String)
    ensures
        r@ == episodes_url(id),
{
    let mut url = BGM_API_BASE.to_owned();
    push_str(&mut url, "/v0/episodes?subject_id=");
    let mut digits: Vec<char> = Vec::new();
    push_dec(&mut digits, id);
    push_range(&mut url, &digits, 0, digits.len());
    assert(digits@.subrange(0, digits@.len() as int) =~= digits@);
    push_str(&mut url, "&type=0&limit=100&offset=0");
    url
}

/// Searches anime subjects by keywords. `fetch` performs the request: it is
/// given the search URL and returns the subjects listed in the reply.
pub fn search_subjects<F>(keywords: &str, fetch: F) -> (r: Result<Vec<Subject>, BangumiError>) where
    F: Fn(String) -> Result<Vec<Subject>, BangumiError>,

    requires
        forall|u: String| #[trigger] fetch.requires((u,)),
    ensures
        match search_url(keywords@) {
            Ok(url) => exists|u: String| u@ == url && #[trigger] fetch.ensures((u,), r),
            Err(e) => r matches Err(x) && x@ == e,
        },
{
    let url = match subject_search_url(keywords) {
        Ok(u) => u,
        Err(e) => {
            return Err(e);
        },
    };
    let ghost u = url;
    let r = fetch(url);
    assert(fetch.ensures((u,), r));
    r
}

/// The episodes of a subject, with its year. `fetch` performs the request:
/// it is given the episode list URL and returns the episodes in the reply.
pub fn get_episodes<F>(subject: &Subject, fetch: F) -> (r: Result<Episodes, BangumiError>) where
    F: Fn(String) -> Result<Vec<Episode>, BangumiError>,

    requires
        forall|u: String| #[trigger] fetch.requires((u,)),
    ensures
        exists|u: String, reply: Result<Vec<Episode>, BangumiError>|
            u@ == episodes_url(subject.id) && #[trigger] fetch.ensures((u,), reply) && match reply {
                Ok(items) => r matches Ok(eps) && eps.items == items && eps.year == (match year_of(
                    subject.air_date.deep_view(),
                ) {
                    Some(y) => y,
                    None => 1970,
                }),
                Err(e) => r matches Err(x) && x == e,
            },
{
    let url = subject_episodes_url(subject.id);
    let ghost u = url;
    let reply = fetch(url);
    let ghost rp = reply;
    let r = match reply {
        Ok(items) => Ok(Episodes::new(items, subject)),
        Err(e) => Err(e),
    };
    assert(u@ == episodes_url(subject.id) && fetch.ensures((u,), rp));
    r
}

/// A number with no more than another's value has no more digits.
pub proof fn lemma_dec_digits_len_mono(a: nat, b: nat)
    requires
        a <= b,
    ensures
        dec_digits(a).len() <= dec_digits(b).len(),
    decreases b,
{
    if a >= 10 {
        lemma_dec_digits_len_mono(a / 10, b / 10);
    }
}

/// No episode number exceeds the largest.
pub proof fn lemma_max_sort_bound(sorts: Seq<u64>, i: int)
    requires
        0 <= i < sorts.len(),
    ensures
        sorts[i] <= max_sort(sorts),
    decreases sorts.len(),
{
    if i < sorts.len() - 1 {
        lemma_max_sort_bound(sorts.drop_last(), i);
    }
}

/// The largest of a non-empty list of episode numbers is one of them, and
/// no number of the list exceeds it.
pub proof fn lemma_max_sort_is_largest(sorts: Seq<u64>)
    requires
        sorts.len() > 0,
    ensures
        exists|i: int| 0 <= i < sorts.len() && sorts[i] == max_sort(sorts),
        forall|i: int| 0 <= i < sorts.len() ==> sorts[i] <= max_sort(sorts),
    decreases sorts.len(),
{
    let n = sorts.len() - 1;
    assert forall|i: int| 0 <= i < sorts.len() implies sorts[i] <= max_sort(sorts) by {
        lemma_max_sort_bound(sorts, i);
    }
    if n == 0 {
        assert(sorts.drop_last() =~= Seq::<u64>::empty());
        assert(max_sort(sorts.drop_last()) == 0);
        assert(sorts.last() == sorts[0]);
        assert(sorts[0] == max_sort(sorts));
    } else {
        let init = sorts.drop_last();
        lemma_max_sort_is_largest(init);
        if sorts.last() > max_sort(init) {
            assert(sorts[n] == max_sort(sorts));
        } else {
            let k = choose|k: int| 0 <= k < init.len() && init[k] == max_sort(init);
            assert(sorts[k] == max_sort(sorts));
        }
    }
}

/// The width of the episode numbers is the number of digits of the largest
/// number: some episode's number has exactly that many digits, and none
/// has more.
pub proof fn lemma_width_of_largest_number(items: Seq<Episode>)
    requires
        items.len() > 0,
    ensures
        exists|i: int|
            0 <= i < items.len() && (forall|j: int| 0 <= j < items.len() ==> items[j].sort <= items[i].sort)
                && dec_digits(items[i].sort as nat).len() == episode_width(items),
        forall|j: int| 0 <= j < items.len() ==> dec_digits(#[trigger] items[j].sort as nat).len() <= episode_width(items),
{
    let s = sorts_of(items);
    lemma_max_sort_is_largest(s);
    let i = choose|i: int| 0 <= i < s.len() && s[i] == max_sort(s);
    assert(items[i].sort == s[i]);
    assert forall|j: int| 0 <= j < items.len() implies items[j].sort <= items[i].sort by {
        assert(s[j] == items[j].sort);
    }
    assert forall|j: int| 0 <= j < items.len() implies dec_digits(#[trigger] items[j].sort as nat).len() <= episode_width(items) by {
        assert(s[j] == items[j].sort);
        lemma_dec_digits_len_mono(items[j].sort as nat, max_sort(s) as nat);
    }
}

/// In the episode file names every number is padded to one width, that of
/// the largest number, so the names line up and sort by number.
pub proof fn lemma_labels_share_width(items: Seq<Episode>)
    ensures
        forall|i: int|
            0 <= i < items.len() ==> #[trigger] zero_pad(dec_digits(items[i].sort as nat), episode_width(items)).len()
                == episode_width(items),
{
    assert forall|i: int| 0 <= i < items.len() implies #[trigger] zero_pad(
        dec_digits(items[i].sort as nat),
        episode_width(items),
    ).len() == episode_width(items) by {
        assert(sorts_of(items)[i] == items[i].sort);
        lemma_max_sort_bound(sorts_of(items), i);
        lemma_dec_digits_len_mono(items[i].sort as nat, max_sort(sorts_of(items)) as nat);
    }
}

} // verus!
