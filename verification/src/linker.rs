//! The linking renamer: subject search and episode lists from the Bangumi API,
//! the output folder and file names derived from them, and the hard links and
//! subtitle copies planned from the files found in each source folder.
use vstd::prelude::*;
use anitomy::{Anitomy, ElementCategory};
use crate::bangumi_api::{lemma_dec_digits_len_mono, lemma_max_sort_bound, lemma_max_sort_is_largest, max_sort, preferred_name, year_of};
use crate::names::{replace2, replaced2, string_views};
use crate::num::{dec_digits, int_digits, parse_i32, parse_i32_range, push_dec, push_dec_padded, push_int, zero_pad};
use crate::paths::{
    file_name_of, file_name_span, join_path, lemma_last_segment_bounds, path_extension, path_extension_of,
    path_file_name, path_join,
};
use crate::text::{
    chars_of, find_char, find_from, lemma_find_from_bounds, lemma_rfind_before_bounds, push_range, push_str,
    rfind, rfind_char, string_of_range,
};

verus! {

/// The messages of the linking renamer's window.
#[derive(Debug, Clone, Copy)]
pub enum Msg {
    AddIn,
    AddOut,
    RemoveOut,
    Search,
    SetPath,
    Link,
    Start,
}

/// A subject listed in a search reply.
#[derive(Debug, Clone)]
pub struct Subject {
    pub id: u64,
    pub name: String,
    pub name_cn: String,
}

/// An episode listed in an episode list reply.
#[derive(Debug, Clone)]
pub struct Episode {
    pub airdate: String,
    pub sort: u64,
    pub name: String,
    pub name_cn: String,
}

/// Search results: the ids and names of the subjects found, in order.
#[derive(Debug, Clone)]
pub struct Bgm {
    pub name: Vec<String>,
    pub id: Vec<String>,
}

/// The episode file names of a subject and the year it first aired.
#[derive(Debug)]
pub struct Ep {
    pub name: Vec<String>,
    pub year: i32,
}

/// The user agent sent with the episode list request.
pub const USER_AGENT: &'static str = "uuzp/bgm_rename_cuby";

/// The search request for keywords; the keywords go into the path as they are.
pub open spec fn bgm_search_url(keywords: Seq<char>) -> Seq<char> {
    "https://api.bgm.tv/search/subject/"@ + keywords + "?type=2&responseGroup=small"@
}

/// The request listing the main episodes of the subject with id `id`.
pub open spec fn ep_list_url(id: Seq<char>) -> Seq<char> {
    "https://api.bgm.tv/v0/episodes?subject_id="@ + id + "&type=0&limit=100&offset=0"@
}

/// The decimal ids of the subjects.
pub open spec fn subject_ids(subjects: Seq<Subject>) -> Seq<Seq<char>> {
    subjects.map_values(|s: Subject| dec_digits(s.id as nat))
}

/// The names shown for the subjects: the Chinese name when there is one.
pub open spec fn subject_names(subjects: Seq<Subject>) -> Seq<Seq<char>> {
    subjects.map_values(|s: Subject| preferred_name(s.name@, s.name_cn@))
}

/// `c` with the angle brackets turned into their full-width forms.
pub open spec fn angle_char(c: char) -> char {
    if c == '<' {
        '＜'
    } else if c == '>' {
        '＞'
    } else {
        c
    }
}

/// `s` with both angle brackets turned into their full-width forms.
pub open spec fn angle_safe(s: Seq<char>) -> Seq<char> {
    s.map_values(|c: char| angle_char(c))
}

/// The episode numbers of a list of episodes.
pub open spec fn ep_sorts(eps: Seq<Episode>) -> Seq<u64> {
    eps.map_values(|e: Episode| e.sort)
}

/// The width episode numbers are padded to: the digits of the largest one.
pub open spec fn ep_width(eps: Seq<Episode>) -> nat {
    dec_digits(max_sort(ep_sorts(eps)) as nat).len()
}

/// The file name of one episode: "ep", its padded number, " - " and its name.
pub open spec fn ep_file_label(e: Episode, width: nat) -> Seq<char> {
    "ep"@ + zero_pad(dec_digits(e.sort as nat), width) + " - "@ + angle_safe(
        preferred_name(e.name@, e.name_cn@),
    )
}

/// The file names of a list of episodes, in order.
pub open spec fn ep_names(eps: Seq<Episode>) -> Seq<Seq<char>> {
    Seq::new(eps.len(), |i: int| ep_file_label(eps[i], ep_width(eps)))
}

/// The year of a list of episodes: that of the first one's air date, else 1970.
pub open spec fn ep_year(eps: Seq<Episode>) -> i32 {
    if eps.len() > 0 {
        match year_of(Some(eps[0].airdate@)) {
            Some(y) => y,
            None => 1970,
        }
    } else {
        1970
    }
}

/// `ep` holds the names and the year of the episodes `eps`.
pub open spec fn ep_of(ep: Ep, eps: Seq<Episode>) -> bool {
    string_views(ep.name@) == ep_names(eps) && ep.year == ep_year(eps)
}

/// `ep` was made from the reply `fetch` gave to the episode list request
/// of subject `id`, sent with the user agent.
pub open spec fn fetched_ep<F: Fn(String, Option<String>) -> Vec<Episode>>(
    fetch: F,
    id: Seq<char>,
    ep: Ep,
) -> bool {
    exists|u: String, h: Option<String>, eps: Vec<Episode>|
        u@ == ep_list_url(id) && h.deep_view() == Some(USER_AGENT@) && #[trigger] fetch.ensures(
            (u, h),
            eps,
        ) && ep_of(ep, eps@)
}

/// `s` with both angle brackets turned into their full-width forms.
fn angle_safe_string(s: &str) -> (r: String)
    ensures
        r@ == angle_safe(s@),
{
    let cs = chars_of(s);
    let mut out = String::new();
    let mut i: usize = 0;
    while i < cs.len()
        invariant
            i <= cs@.len(),
            out@ == angle_safe(cs@.take(i as int)),
        decreases cs@.len() - i,
    {
        let c = cs[i];
        let d = if c == '<' {
            '＜'
        } else if c == '>' {
            '＞'
        } else {
            c
        };
        out.push(d);
        i = i + 1;
        assert(out@ =~= angle_safe(cs@.take(i as int)));
    }
    assert(cs@.take(cs@.len() as int) =~= s@);
    out
}

impl Bgm {
    /// No results yet.
    pub fn new() -> (r: Self)
        ensures
            r.name@.len() == 0,
            r.id@.len() == 0,
    {
        Bgm { name: Vec::new(), id: Vec::new() }
    }

    /// Searches subjects by keywords and appends the ids and names found.
    /// `fetch` performs the request: it is given the URL and the user agent
    /// to send (none here) and returns the subjects of the reply.
    pub fn get<F>(self, keywords: &str, fetch: F) -> (r: Self) where
        F: Fn(String, Option<String>) -> Vec<Subject>,

        requires
            forall|u: String, h: Option<String>| #[trigger] fetch.requires((u, h)),
        ensures
            exists|u: String, subjects: Vec<Subject>|
                u@ == bgm_search_url(keywords@) && #[trigger] fetch.ensures(
                    (u, None::<String>),
                    subjects,
                ) && string_views(r.id@) == string_views(self.id@) + subject_ids(subjects@)
                    && string_views(r.name@) == string_views(self.name@) + subject_names(
                    subjects@,
                ),
    {
        let mut url = "https://api.bgm.tv/search/subject/".to_owned();
        push_str(&mut url, keywords);
        push_str(&mut url, "?type=2&responseGroup=small");
        let ghost u = url;
        let subjects = fetch(url, None);
        let Bgm { name: mut names, id: mut ids } = self;
        let ghost ids0 = string_views(ids@);
        let ghost names0 = string_views(names@);
        let mut i: usize = 0;
        while i < subjects.len()
            invariant
                i <= subjects@.len(),
                string_views(ids@) == ids0 + subject_ids(subjects@.take(i as int)),
                string_views(names@) == names0 + subject_names(subjects@.take(i as int)),
            decreases subjects@.len() - i,
        {
            let s = &subjects[i];
            let mut digits: Vec<char> = Vec::new();
            push_dec(&mut digits, s.id);
            let mut id = String::new();
            push_range(&mut id, &digits, 0, digits.len());
            assert(digits@.subrange(0, digits@.len() as int) =~= digits@);
            let name = if !s.name_cn.as_str().is_empty() {
                s.name_cn.as_str().to_owned()
            } else {
                s.name.as_str().to_owned()
            };
            proof {
                assert(subjects@.take(i + 1) =~= subjects@.take(i as int).push(subjects@[i as int]));
                assert(subject_ids(subjects@.take(i + 1)) =~= subject_ids(subjects@.take(i as int)).push(id@));
                assert(subject_names(subjects@.take(i + 1)) =~= subject_names(subjects@.take(i as int)).push(name@));
            }
            let ghost ids_before = ids@;
            let ghost names_before = names@;
            ids.push(id);
            names.push(name);
            assert(string_views(ids@) =~= string_views(ids_before).push(ids@.last()@));
            assert(string_views(names@) =~= string_views(names_before).push(names@.last()@));
            i = i + 1;
        }
        assert(subjects@.take(subjects@.len() as int) =~= subjects@);
        assert(fetch.ensures((u, None::<String>), subjects));
        Bgm { name: names, id: ids }
    }
}

/// The names and the year of the episodes `eps`.
fn ep_from_episodes(eps: &Vec<Episode>) -> (r: Ep)
    ensures
        ep_of(r, eps@),
{
    let mut year: i32 = 1970;
    if eps.len() > 0 {
        let cs = chars_of(eps[0].airdate.as_str());
        if cs.len() >= 4 {
            assert(cs@.subrange(0, 4) =~= cs@.take(4));
            match parse_i32_range(&cs, 0, 4) {
                Some(y) => {
                    year = y;
                },
                None => {},
            }
        }
    }
    let mut max: u64 = 0;
    let mut i: usize = 0;
    while i < eps.len()
        invariant
            i <= eps@.len(),
            max == max_sort(ep_sorts(eps@.take(i as int))),
        decreases eps@.len() - i,
    {
        assert(ep_sorts(eps@.take(i + 1)).drop_last() =~= ep_sorts(eps@.take(i as int)));
        if eps[i].sort > max {
            max = eps[i].sort;
        }
        i = i + 1;
    }
    assert(eps@.take(eps@.len() as int) =~= eps@);
    let mut width_digits: Vec<char> = Vec::new();
    push_dec(&mut width_digits, max);
    let width = width_digits.len();
    let mut names: Vec<String> = Vec::new();
    let mut k: usize = 0;
    while k < eps.len()
        invariant
            k <= eps@.len(),
            width == ep_width(eps@),
            names@.len() == k,
            forall|j: int| 0 <= j < k ==> #[trigger] names@[j]@ == ep_file_label(eps@[j], ep_width(eps@)),
        decreases eps@.len() - k,
    {
        let e = &eps[k];
        let mut cs: Vec<char> = Vec::new();
        cs.push('e');
        cs.push('p');
        push_dec_padded(&mut cs, e.sort, width);
        let mut line = String::new();
        push_range(&mut line, &cs, 0, cs.len());
        push_str(&mut line, " - ");
        let shown = if !e.name_cn.as_str().is_empty() {
            e.name_cn.as_str()
        } else {
            e.name.as_str()
        };
        let safe = angle_safe_string(shown);
        push_str(&mut line, safe.as_str());
        proof {
            reveal_strlit("ep");
            assert(cs@.subrange(0, cs@.len() as int) =~= cs@);
            assert(line@ =~= ep_file_label(*e, width as nat));
        }
        names.push(line);
        k = k + 1;
    }
    let r = Ep { name: names, year };
    assert(string_views(r.name@) =~= ep_names(eps@));
    r
}

impl Ep {
    /// No episodes, and the year 1970.
    pub fn new() -> (r: Self)
        ensures
            r.name@.len() == 0,
            r.year == 1970,
    {
        Ep { name: Vec::new(), year: 1970 }
    }

    /// The episode file names and the year of the subject with id `id`.
    /// `fetch` performs the request: it is given the URL and the user agent
    /// to send and returns the episodes of the reply.
    pub fn get<F>(id: &str, fetch: F) -> (r: Self) where
        F: Fn(String, Option<String>) -> Vec<Episode>,

        requires
            forall|u: String, h: Option<String>| #[trigger] fetch.requires((u, h)),
        ensures
            fetched_ep(fetch, id@, r),
    {
        let mut url = "https://api.bgm.tv/v0/episodes?subject_id=".to_owned();
        push_str(&mut url, id);
        push_str(&mut url, "&type=0&limit=100&offset=0");
        let h = Some(USER_AGENT.to_owned());
        let ghost u = url;
        let ghost gh = h;
        let eps = fetch(url, h);
        let r = ep_from_episodes(&eps);
        assert(fetch.ensures((u, gh), eps));
        r
    }
}

/// The output root chosen by the user, as a path.
pub fn set_out_path(s: &str) -> (r: String)
    ensures
        r@ == s@,
{
    s.to_owned()
}

/// One path under `path` per name, each name made safe with [`replace2`].
pub fn get_out_file_paths(path: String, v_names: Vec<String>) -> (r: Vec<String>)
    ensures
        string_views(r@) == Seq::new(
            v_names@.len(),
            |i: int| join_path(path@, replaced2(v_names@[i]@)),
        ),
{
    let mut out: Vec<String> = Vec::new();
    let mut i: usize = 0;
    while i < v_names.len()
        invariant
            i <= v_names@.len(),
            out@.len() == i,
            forall|j: int| 0 <= j < i ==> #[trigger] out@[j]@ == join_path(path@, replaced2(v_names@[j]@)),
        decreases v_names@.len() - i,
    {
        let safe = replace2(v_names[i].as_str());
        out.push(path_join(path.as_str(), safe.as_str()));
        i = i + 1;
    }
    assert(string_views(out@) =~= Seq::new(
        v_names@.len(),
        |i: int| join_path(path@, replaced2(v_names@[i]@)),
    ));
    out
}

/// The folder of an anime: its safe name, a space and the year in
/// full-width brackets, `name （year）`.
pub open spec fn anime_dir_name(name: Seq<char>, year: i32) -> Seq<char> {
    replaced2(name) + seq![' ', '（'] + int_digits(year as int) + seq!['）']
}

/// Fetches the episodes of each chosen subject (given as id and name) and
/// names its folder under `p`; every folder takes the year of the first
/// subject. `_a` is not used.
pub fn out_ep_path<F>(p: String, v: Vec<(String, String)>, _a: &str, fetch: F) -> (r: (Vec<Ep>, Vec<String>)) where
    F: Fn(String, Option<String>) -> Vec<Episode>,

    requires
        v@.len() > 0,
        forall|u: String, h: Option<String>| #[trigger] fetch.requires((u, h)),
    ensures
        r.0@.len() == v@.len(),
        forall|i: int| 0 <= i < v@.len() ==> fetched_ep(fetch, v@[i].0@, #[trigger] r.0@[i]),
        string_views(r.1@) == Seq::new(
            v@.len(),
            |i: int| join_path(p@, anime_dir_name(v@[i].1@, r.0@[0].year)),
        ),
{
    let mut eps: Vec<Ep> = Vec::new();
    let mut i: usize = 0;
    while i < v.len()
        invariant
            i <= v@.len(),
            eps@.len() == i,
            forall|u: String, h: Option<String>| #[trigger] fetch.requires((u, h)),
            forall|j: int| 0 <= j < i ==> fetched_ep(fetch, v@[j].0@, #[trigger] eps@[j]),
        decreases v@.len() - i,
    {
        let e = Ep::get(v[i].0.as_str(), &fetch);
        eps.push(e);
        i = i + 1;
    }
    let year = eps[0].year;
    let mut ys: Vec<char> = Vec::new();
    push_int(&mut ys, year as i64);
    let mut dirs: Vec<String> = Vec::new();
    let mut k: usize = 0;
    while k < v.len()
        invariant
            k <= v@.len(),
            eps@.len() == v@.len(),
            year == eps@[0].year,
            ys@ == int_digits(year as int),
            dirs@.len() == k,
            forall|j: int|
                0 <= j < k ==> #[trigger] dirs@[j]@ == join_path(p@, anime_dir_name(v@[j].1@, year)),
        decreases v@.len() - k,
    {
        let mut name = replace2(v[k].1.as_str());
        name.push(' ');
        name.push('（');
        push_range(&mut name, &ys, 0, ys.len());
        name.push('）');
        assert(ys@.subrange(0, ys@.len() as int) =~= ys@);
        assert(name@ =~= anime_dir_name(v@[k as int].1@, year));
        dirs.push(path_join(p.as_str(), name.as_str()));
        k = k + 1;
    }
    assert(string_views(dirs@) =~= Seq::new(
        v@.len(),
        |i: int| join_path(p@, anime_dir_name(v@[i].1@, eps@[0].year)),
    ));
    (eps, dirs)
}

/// One path under `p` per episode file name of `e`.
pub fn out_file_names(p: &String, e: &Ep) -> (r: Vec<String>)
    ensures
        string_views(r@) == Seq::new(e.name@.len(), |i: int| join_path(p@, e.name@[i]@)),
{
    mkouts_ref(p, &e.name)
}

/// One path under `p` per name.
fn mkouts_ref(p: &String, v: &Vec<String>) -> (r: Vec<String>)
    ensures
        string_views(r@) == Seq::new(v@.len(), |i: int| join_path(p@, v@[i]@)),
{
    let mut out: Vec<String> = Vec::new();
    let mut i: usize = 0;
    while i < v.len()
        invariant
            i <= v@.len(),
            out@.len() == i,
            forall|j: int| 0 <= j < i ==> #[trigger] out@[j]@ == join_path(p@, v@[j]@),
        decreases v@.len() - i,
    {
        out.push(path_join(p.as_str(), v[i].as_str()));
        i = i + 1;
    }
    assert(string_views(out@) =~= Seq::new(v@.len(), |i: int| join_path(p@, v@[i]@)));
    out
}

/// One path under `p` per name.
pub fn mkouts(p: &String, v: Vec<String>) -> (r: Vec<String>)
    ensures
        string_views(r@) == Seq::new(v@.len(), |i: int| join_path(p@, v@[i]@)),
{
    mkouts_ref(p, &v)
}

/// The final components of paths that all have one.
pub fn filenames2(s: &Vec<String>) -> (r: Vec<String>)
    requires
        forall|i: int| 0 <= i < s@.len() ==> (#[trigger] file_name_of(s@[i]@)) is Some,
    ensures
        string_views(r@) == Seq::new(s@.len(), |i: int| file_name_of(s@[i]@).unwrap()),
{
    let mut out: Vec<String> = Vec::new();
    let mut i: usize = 0;
    while i < s.len()
        invariant
            i <= s@.len(),
            forall|j: int| 0 <= j < s@.len() ==> (#[trigger] file_name_of(s@[j]@)) is Some,
            out@.len() == i,
            forall|j: int| 0 <= j < i ==> #[trigger] out@[j]@ == file_name_of(s@[j]@).unwrap(),
        decreases s@.len() - i,
    {
        let n = match path_file_name(s[i].as_str()) {
            Some(n) => n,
            None => {
                assert(file_name_of(s@[i as int]@) is Some);
                String::new()
            },
        };
        out.push(n);
        i = i + 1;
    }
    assert(string_views(out@) =~= Seq::new(s@.len(), |i: int| file_name_of(s@[i]@).unwrap()));
    out
}

/// The source files and their targets, by kind: videos, plain subtitles,
/// and simplified and traditional Chinese subtitles.
#[derive(Debug, Clone)]
pub struct Files {
    pub video: Vec<String>,
    pub sub: Vec<String>,
    pub sub_sc: Vec<String>,
    pub sub_tc: Vec<String>,
}

impl Files {
    /// Four empty lists.
    pub fn new() -> (r: Self)
        ensures
            r.video@.len() == 0,
            r.sub@.len() == 0,
            r.sub_sc@.len() == 0,
            r.sub_tc@.len() == 0,
    {
        Files { video: Vec::new(), sub: Vec::new(), sub_sc: Vec::new(), sub_tc: Vec::new() }
    }

    /// Four empty lists, whatever `self` held.
    pub fn sort(self) -> (r: Self)
        ensures
            r.video@.len() == 0,
            r.sub@.len() == 0,
            r.sub_sc@.len() == 0,
            r.sub_tc@.len() == 0,
    {
        Files::new()
    }
}

// ---------------------------------------------------------------- picking files by extension

/// The lowercase of a string by Unicode's rules.
pub uninterp spec fn unicode_lowercase(s: Seq<char>) -> Seq<char>;

/// `str::to_lowercase`: the lowercase of `s` by Unicode's rules.
#[verifier::external_body]
fn to_lowercase(s: &str) -> (r: String)
    ensures
        r@ == unicode_lowercase(s@),
{
    s.to_lowercase()
}

/// `needle` occurs in `hay` as a run of characters (the empty string occurs everywhere).
pub open spec fn has_sub(hay: Seq<char>, needle: Seq<char>) -> bool {
    exists|i: int|
        0 <= i && i + needle.len() <= hay.len() && #[trigger] hay.subrange(i, i + needle.len()) == needle
}

/// Whether `hay[i..]` starts with `needle`.
fn matches_at(hay: &[char], i: usize, needle: &[char]) -> (r: bool)
    requires
        i + needle@.len() <= hay@.len(),
    ensures
        r == (hay@.subrange(i as int, i + needle@.len()) == needle@),
{
    let hl = hay.len();
    let mut k: usize = 0;
    while k < needle.len()
        invariant
            k <= needle@.len(),
            hl == hay@.len(),
            i + needle@.len() <= hay@.len(),
            forall|j: int| 0 <= j < k ==> hay@[i + j] == needle@[j],
        decreases needle@.len() - k,
    {
        if hay[i + k] != needle[k] {
            assert(hay@.subrange(i as int, i + needle@.len())[k as int] != needle@[k as int]);
            return false;
        }
        k = k + 1;
    }
    assert(hay@.subrange(i as int, i + needle@.len()) =~= needle@);
    true
}

/// Whether `needle` occurs in `hay`, as `str::contains` tests it: how an
/// extension or language tag, once lowercased, is looked up in a list such
/// as "mp4 mkv avi flv" or "sc chs gb".
pub fn contains_str(hay: &str, needle: &str) -> (r: bool)
    ensures
        r == has_sub(hay@, needle@),
{
    let h = chars_of(hay);
    let n = chars_of(needle);
    if n.len() > h.len() {
        return false;
    }
    let last = h.len() - n.len();
    let mut i: usize = 0;
    loop
        invariant
            h@ == hay@,
            n@ == needle@,
            last == h@.len() - n@.len(),
            i <= last,
            forall|j: int| 0 <= j < i ==> #[trigger] h@.subrange(j, j + n@.len()) != n@,
        decreases last - i,
    {
        if matches_at(&h, i, &n) {
            assert(h@.subrange(i as int, i + n@.len()) == n@);
            return true;
        }
        if i == last {
            return false;
        }
        i = i + 1;
    }
}

/// The lowercase extension of path `p` occurs in `sufs`.
pub open spec fn listed_ext(p: Seq<char>, sufs: Seq<char>) -> bool {
    match path_extension(p) {
        Some(e) => has_sub(sufs, unicode_lowercase(e)),
        None => false,
    }
}

/// The paths of `ps` whose extension is listed in `sufs`, in order.
pub open spec fn keep_listed(ps: Seq<Seq<char>>, sufs: Seq<char>) -> Seq<Seq<char>>
    decreases ps.len(),
{
    if ps.len() == 0 {
        Seq::empty()
    } else {
        keep_listed(ps.drop_last(), sufs) + if listed_ext(ps.last(), sufs) {
            seq![ps.last()]
        } else {
            Seq::empty()
        }
    }
}

/// The paths whose lowercase extension occurs in `sufs` (a list such as
/// "mp4 mkv"); every path must have an extension.
fn pick_listed(names: &Vec<String>, sufs: &str) -> (r: Vec<String>)
    requires
        forall|i: int| 0 <= i < names@.len() ==> (#[trigger] path_extension(names@[i]@)) is Some,
    ensures
        string_views(r@) == keep_listed(string_views(names@), sufs@),
{
    let mut out: Vec<String> = Vec::new();
    let mut i: usize = 0;
    while i < names.len()
        invariant
            i <= names@.len(),
            string_views(out@) == keep_listed(string_views(names@.take(i as int)), sufs@),
        decreases names@.len() - i,
    {
        assert(string_views(names@.take(i + 1)).drop_last() =~= string_views(names@.take(i as int)));
        assert(string_views(names@.take(i + 1)).last() == names@[i as int]@);
        let keep = match path_extension_of(names[i].as_str()) {
            Some(e) => {
                let lower = to_lowercase(e.as_str());
                contains_str(sufs, lower.as_str())
            },
            None => false,
        };
        if keep {
            out.push(names[i].clone());
        }
        i = i + 1;
        assert(string_views(out@) =~= keep_listed(string_views(names@.take(i as int)), sufs@));
    }
    assert(names@.take(names@.len() as int) =~= names@);
    out
}

/// The text before the last '.', or "None" when there is no '.'.
pub open spec fn before_last_dot(x: Seq<char>) -> Seq<char> {
    let d = rfind(x, '.');
    if d >= 0 {
        x.take(d)
    } else {
        "None"@
    }
}

/// The text after the last '.', or "None" when there is no '.'.
pub open spec fn after_last_dot(x: Seq<char>) -> Seq<char> {
    let d = rfind(x, '.');
    if d >= 0 {
        x.skip(d + 1)
    } else {
        "None"@
    }
}

/// A subtitle path carries a language tag listed in `sufs` just before its
/// extension ("name.sc.ass").
pub open spec fn lang_tagged(p: Seq<char>, sufs: Seq<char>) -> bool {
    has_sub(sufs, unicode_lowercase(after_last_dot(before_last_dot(p))))
}

/// The subtitle paths of `ps` tagged with a language of `sufs`, each with
/// its extension replaced by `suf`.
pub open spec fn retag(ps: Seq<Seq<char>>, sufs: Seq<char>, suf: Seq<char>) -> Seq<Seq<char>>
    decreases ps.len(),
{
    if ps.len() == 0 {
        Seq::empty()
    } else {
        retag(ps.drop_last(), sufs, suf) + if lang_tagged(ps.last(), sufs) {
            seq![before_last_dot(ps.last()) + "."@ + suf]
        } else {
            Seq::empty()
        }
    }
}

/// The extension of the first path, or "None" when there is none.
pub open spec fn first_ext(ps: Seq<Seq<char>>) -> Seq<char> {
    if ps.len() == 0 {
        "None"@
    } else {
        path_extension(ps[0]).unwrap()
    }
}

/// `x` up to its last '.', or "None".
fn before_last_dot_string(x: &str) -> (r: String)
    ensures
        r@ == before_last_dot(x@),
{
    let cs = chars_of(x);
    let k = rfind_char(&cs, '.', cs.len());
    if k > 0 {
        let r = string_of_range(&cs, 0, k - 1);
        assert(cs@.subrange(0, k - 1) =~= cs@.take(k - 1));
        r
    } else {
        "None".to_owned()
    }
}

/// `x` after its last '.', or "None".
fn after_last_dot_string(x: &str) -> (r: String)
    ensures
        r@ == after_last_dot(x@),
{
    let cs = chars_of(x);
    let k = rfind_char(&cs, '.', cs.len());
    if k > 0 {
        let r = string_of_range(&cs, k, cs.len());
        assert(cs@.subrange(k as int, cs@.len() as int) =~= cs@.skip(k as int));
        r
    } else {
        "None".to_owned()
    }
}

/// The subtitles tagged with a language of `sufs` ("sc chs gb"), each
/// given the extension of the first subtitle of `subs`.
fn pick_tagged(subs: &Vec<String>, sufs: &str) -> (r: Vec<String>)
    requires
        subs@.len() > 0 ==> path_extension(subs@[0]@) is Some,
    ensures
        string_views(r@) == retag(string_views(subs@), sufs@, first_ext(string_views(subs@))),
{
    let suf = if subs.len() == 0 {
        "None".to_owned()
    } else {
        match path_extension_of(subs[0].as_str()) {
            Some(e) => e,
            None => String::new(),
        }
    };
    assert(suf@ == first_ext(string_views(subs@)));
    let mut out: Vec<String> = Vec::new();
    let mut i: usize = 0;
    while i < subs.len()
        invariant
            i <= subs@.len(),
            suf@ == first_ext(string_views(subs@)),
            string_views(out@) == retag(string_views(subs@.take(i as int)), sufs@, suf@),
        decreases subs@.len() - i,
    {
        assert(string_views(subs@.take(i + 1)).drop_last() =~= string_views(subs@.take(i as int)));
        assert(string_views(subs@.take(i + 1)).last() == subs@[i as int]@);
        let m = before_last_dot_string(subs[i].as_str());
        let tail = after_last_dot_string(m.as_str());
        let lower = to_lowercase(tail.as_str());
        if contains_str(sufs, lower.as_str()) {
            let mut p = m;
            p.push('.');
            push_str(&mut p, suf.as_str());
            assert(p@ =~= before_last_dot(subs@[i as int]@) + "."@ + suf@) by {
                reveal_strlit(".");
            }
            out.push(p);
        }
        i = i + 1;
        assert(string_views(out@) =~= retag(string_views(subs@.take(i as int)), sufs@, suf@));
    }
    assert(subs@.take(subs@.len() as int) =~= subs@);
    out
}

/// The part between the first '.' of `x` and the next one, or "None" when
/// there is no second '.'.
pub open spec fn first_dot_part(x: Seq<char>) -> Seq<char> {
    let a = x.skip(find_from(x, '.', 0) + 1);
    let e = find_from(a, '.', 0);
    if e < a.len() {
        a.take(e)
    } else {
        "None"@
    }
}

/// The paths of `ps` whose part after the first '.' is not listed in `s`.
pub open spec fn drop_tagged(ps: Seq<Seq<char>>, s: Seq<char>) -> Seq<Seq<char>>
    decreases ps.len(),
{
    if ps.len() == 0 {
        Seq::empty()
    } else {
        drop_tagged(ps.drop_last(), s) + if !has_sub(s, unicode_lowercase(first_dot_part(ps.last()))) {
            seq![ps.last()]
        } else {
            Seq::empty()
        }
    }
}

/// The part of `x` between its first '.' and the next one, or "None".
fn first_dot_part_string(x: &str) -> (r: String)
    requires
        find_from(x@, '.', 0) < x@.len(),
    ensures
        r@ == first_dot_part(x@),
{
    let cs = chars_of(x);
    let cl = cs.len();
    let d = find_char(&cs, '.', 0);
    assert(d < cl);
    let a = string_of_range(&cs, d + 1, cs.len());
    assert(a@ =~= x@.skip(find_from(x@, '.', 0) + 1));
    let acs = chars_of(a.as_str());
    let e = find_char(&acs, '.', 0);
    if e < acs.len() {
        let r = string_of_range(&acs, 0, e);
        assert(acs@.subrange(0, e as int) =~= acs@.take(e as int));
        r
    } else {
        "None".to_owned()
    }
}

/// The subtitles that carry no language tag listed in `s`: the part after
/// the first '.' of the path is looked up. Every path must hold a '.'.
fn drop_tagged_paths(v: &Vec<String>, s: &str) -> (r: Vec<String>)
    requires
        forall|i: int| 0 <= i < v@.len() ==> #[trigger] find_from(v@[i]@, '.', 0) < v@[i]@.len(),
    ensures
        string_views(r@) == drop_tagged(string_views(v@), s@),
{
    let mut out: Vec<String> = Vec::new();
    let mut i: usize = 0;
    while i < v.len()
        invariant
            i <= v@.len(),
            forall|j: int| 0 <= j < v@.len() ==> #[trigger] find_from(v@[j]@, '.', 0) < v@[j]@.len(),
            string_views(out@) == drop_tagged(string_views(v@.take(i as int)), s@),
        decreases v@.len() - i,
    {
        assert(string_views(v@.take(i + 1)).drop_last() =~= string_views(v@.take(i as int)));
        assert(string_views(v@.take(i + 1)).last() == v@[i as int]@);
        assert(find_from(v@[i as int]@, '.', 0) < v@[i as int]@.len());
        let part = first_dot_part_string(v[i].as_str());
        let lower = to_lowercase(part.as_str());
        if !contains_str(s, lower.as_str()) {
            out.push(v[i].clone());
        }
        i = i + 1;
        assert(string_views(out@) =~= drop_tagged(string_views(v@.take(i as int)), s@));
    }
    assert(v@.take(v@.len() as int) =~= v@);
    out
}

/// The paths whose lowercase extension occurs in `sufs` (a list such as
/// "mp4 mkv"); every path must have an extension.
pub fn panduan(names: Vec<String>, sufs: &str) -> (r: Vec<String>)
    requires
        forall|i: int| 0 <= i < names@.len() ==> (#[trigger] path_extension(names@[i]@)) is Some,
    ensures
        string_views(r@) == keep_listed(string_views(names@), sufs@),
{
    pick_listed(&names, sufs)
}

/// The subtitles tagged with a language of `sufs` ("sc chs gb"), each
/// given the extension of the first subtitle of `subs`.
pub fn panduan2(subs: Vec<String>, sufs: &str) -> (r: Vec<String>)
    requires
        subs@.len() > 0 ==> path_extension(subs@[0]@) is Some,
    ensures
        string_views(r@) == retag(string_views(subs@), sufs@, first_ext(string_views(subs@))),
{
    pick_tagged(&subs, sufs)
}

/// The subtitles that carry no language tag listed in `s`: the part after
/// the first '.' of the path is looked up. Every path must hold a '.'.
pub fn remove_st(v: Vec<String>, s: String) -> (r: Vec<String>)
    requires
        forall|i: int| 0 <= i < v@.len() ==> #[trigger] find_from(v@[i]@, '.', 0) < v@[i]@.len(),
    ensures
        string_views(r@) == drop_tagged(string_views(v@), s@),
{
    drop_tagged_paths(&v, s.as_str())
}

// ---------------------------------------------------------------- ordering by episode number

/// A file name that can be handed to Anitomy: no NUL character (the name
/// goes through a C string) and no character beyond U+FFFF (on Windows the
/// parser's wide characters hold 16 bits, and a wider one aborts it).
pub open spec fn parsable_name(name: Seq<char>) -> bool {
    &&& !name.contains('\0')
    &&& forall|i: int| 0 <= i < name.len() ==> #[trigger] name[i] <= '\u{FFFF}'
}

/// A path with a final component that is a parsable file name.
pub open spec fn parsable_path(p: Seq<char>) -> bool {
    match file_name_of(p) {
        Some(n) => parsable_name(n),
        None => false,
    }
}

/// `Anitomy::parse` of a file name with a new parser (default options):
/// whether it classed the parse as a success, and the first `EpisodeNumber`
/// element of the elements it returns. Nothing is stated of the result: the
/// parser changes the case of non-ASCII letters by the C library's locale,
/// so one name can parse differently in two processes.
#[verifier::external_body]
fn parse_episode_number(file_name: &str) -> (r: (bool, Option<String>))
    requires
        parsable_name(file_name@),
{
    match Anitomy::new().parse(file_name) {
        Ok(found) => (true, found.get(ElementCategory::EpisodeNumber).map(String::from)),
        Err(found) => (false, found.get(ElementCategory::EpisodeNumber).map(String::from)),
    }
}

/// A parse the sort accepts: Anitomy classed it a success, and its episode
/// number, if it has one, is an `i32`.
pub open spec fn parse_usable(p: (bool, Option<Seq<char>>)) -> bool {
    &&& p.0
    &&& match p.1 {
        Some(n) => parse_i32(n) is Some,
        None => true,
    }
}

/// The sort key of a parse: its episode number, 0 when it has none.
pub open spec fn parse_key(p: (bool, Option<Seq<char>>)) -> i32 {
    match p.1 {
        Some(n) => match parse_i32(n) {
            Some(k) => k,
            None => 0,
        },
        None => 0,
    }
}

/// The sort keys of the parses, in order.
pub open spec fn parse_keys(ps: Seq<(bool, Option<Seq<char>>)>) -> Seq<i32> {
    Seq::new(ps.len(), |i: int| parse_key(ps[i]))
}

/// `r` holds the elements of `s` as `perm` picks them (each once), ordered
/// by `keys` (one for each element of `s`), equal keys in their order in `s`.
pub open spec fn stable_perm(s: Seq<Seq<char>>, r: Seq<Seq<char>>, perm: Seq<int>, keys: Seq<i32>) -> bool {
    &&& perm.len() == s.len()
    &&& keys.len() == s.len()
    &&& r.len() == s.len()
    &&& forall|k: int| 0 <= k < r.len() ==> 0 <= #[trigger] perm[k] < s.len() && r[k] == s[perm[k]]
    &&& forall|a: int, b: int| 0 <= a < b < r.len() ==> #[trigger] perm[a] != #[trigger] perm[b]
    &&& forall|a: int, b: int| 0 <= a < b < r.len() ==> keys[#[trigger] perm[a]] <= keys[#[trigger] perm[b]]
    &&& forall|a: int, b: int|
        0 <= a < b < r.len() && keys[#[trigger] perm[a]] == keys[#[trigger] perm[b]] ==> perm[a] < perm[b]
}

/// `r` is `s` sorted by `keys`, keeping the order of equal keys.
pub open spec fn sorted_by_keys(s: Seq<Seq<char>>, r: Seq<Seq<char>>, keys: Seq<i32>) -> bool {
    exists|perm: Seq<int>| stable_perm(s, r, perm, keys)
}

/// `r` is `s` sorted, keeping the order of equal numbers, by some episode
/// numbers, one for each element: what sorting by Anitomy's parses gives,
/// whatever the parser made of the names.
pub open spec fn sorted_by_episode(s: Seq<Seq<char>>, r: Seq<Seq<char>>) -> bool {
    exists|keys: Seq<i32>| sorted_by_keys(s, r, keys)
}

proof fn lemma_insert_at<A>(s: Seq<A>, p: int, e: A)
    requires
        0 <= p <= s.len(),
    ensures
        s.insert(p, e).len() == s.len() + 1,
        forall|x: int|
            0 <= x <= s.len() ==> #[trigger] s.insert(p, e)[x] == if x < p {
                s[x]
            } else if x == p {
                e
            } else {
                s[x - 1]
            },
{
    s.insert_ensures(p, e);
    assert forall|x: int| 0 <= x <= s.len() implies #[trigger] s.insert(p, e)[x] == if x < p {
        s[x]
    } else if x == p {
        e
    } else {
        s[x - 1]
    } by {
        if x > p {
            assert(s.insert(p, e)[(x - 1) + 1] == s[x - 1]);
        }
    }
}

/// The positions of `keys` in stable ascending order of key.
fn stable_order(keys: &Vec<i32>) -> (order: Vec<usize>)
    ensures
        order@.len() == keys@.len(),
        forall|k: int| 0 <= k < order@.len() ==> #[trigger] order@[k] < keys@.len(),
        forall|a: int, b: int| 0 <= a < b < order@.len() ==> #[trigger] order@[a] != #[trigger] order@[b],
        forall|a: int, b: int|
            0 <= a < b < order@.len() ==> keys@[#[trigger] order@[a] as int] <= keys@[#[trigger] order@[b] as int],
        forall|a: int, b: int|
            0 <= a < b < order@.len() && keys@[#[trigger] order@[a] as int] == keys@[#[trigger] order@[b] as int]
                ==> order@[a] < order@[b],
{
    let mut out: Vec<usize> = Vec::new();
    let mut i: usize = 0;
    while i < keys.len()
        invariant
            i <= keys@.len(),
            out@.len() == i,
            forall|k: int| 0 <= k < out@.len() ==> #[trigger] out@[k] < i,
            forall|a: int, b: int| 0 <= a < b < out@.len() ==> #[trigger] out@[a] != #[trigger] out@[b],
            forall|a: int, b: int|
                0 <= a < b < out@.len() ==> keys@[#[trigger] out@[a] as int] <= keys@[#[trigger] out@[b] as int],
            forall|a: int, b: int|
                0 <= a < b < out@.len() && keys@[#[trigger] out@[a] as int] == keys@[#[trigger] out@[b] as int]
                    ==> out@[a] < out@[b],
        decreases keys@.len() - i,
    {
        let k = keys[i];
        let mut p: usize = 0;
        while p < out.len() && keys[out[p]] <= k
            invariant
                p <= out@.len(),
                out@.len() == i,
                i < keys@.len(),
                k == keys@[i as int],
                forall|j: int| 0 <= j < out@.len() ==> #[trigger] out@[j] < i,
                forall|a: int| 0 <= a < p ==> keys@[#[trigger] out@[a] as int] <= k,
            decreases out@.len() - p,
        {
            p = p + 1;
        }
        let ghost old_out = out@;
        proof {
            // every element from p on has a larger key than the new one
            assert forall|a: int| p <= a < old_out.len() implies keys@[#[trigger] old_out[a] as int] > k by {
                if a > p {
                    assert(keys@[old_out[p as int] as int] <= keys@[old_out[a] as int]);
                }
            }
            lemma_insert_at(old_out, p as int, i);
        }
        out.insert(p, i);
        proof {
            let n = out@;
            assert(n == old_out.insert(p as int, i));
            assert forall|x: int| 0 <= x < n.len() implies #[trigger] n[x] < i + 1 by {
                assert(n[x] == old_out.insert(p as int, i)[x]);
            }
            assert forall|a: int, b: int| 0 <= a < b < n.len() implies #[trigger] n[a] != #[trigger] n[b] by {
                assert(n[a] == old_out.insert(p as int, i)[a]);
                assert(n[b] == old_out.insert(p as int, i)[b]);
                if a < p && b > p {
                    assert(old_out[a] != old_out[b - 1]);
                } else if a > p {
                    assert(old_out[a - 1] != old_out[b - 1]);
                }
            }
            assert forall|a: int, b: int| 0 <= a < b < n.len() implies keys@[#[trigger] n[a] as int]
                <= keys@[#[trigger] n[b] as int] by {
                assert(n[a] == old_out.insert(p as int, i)[a]);
                assert(n[b] == old_out.insert(p as int, i)[b]);
                if b < p {
                } else if b == p {
                } else if a < p {
                    assert(keys@[old_out[a] as int] <= keys@[old_out[b - 1] as int]);
                } else if a == p {
                } else {
                    assert(keys@[old_out[a - 1] as int] <= keys@[old_out[b - 1] as int]);
                }
            }
            assert forall|a: int, b: int|
                0 <= a < b < n.len() && keys@[#[trigger] n[a] as int] == keys@[#[trigger] n[b] as int]
                implies n[a] < n[b] by {
                assert(n[a] == old_out.insert(p as int, i)[a]);
                assert(n[b] == old_out.insert(p as int, i)[b]);
                if b < p {
                } else if b == p {
                } else if a < p {
                    assert(keys@[old_out[a] as int] == keys@[old_out[b - 1] as int] ==> old_out[a] < old_out[b - 1]);
                } else if a == p {
                } else {
                    assert(keys@[old_out[a - 1] as int] == keys@[old_out[b - 1] as int] ==> old_out[a - 1] < old_out[b - 1]);
                }
            }
        }
        i = i + 1;
    }
    out
}

/// The parse of each path's file name.
fn parse_names(v: &Vec<String>) -> (r: Vec<(bool, Option<String>)>)
    requires
        forall|i: int| 0 <= i < v@.len() ==> #[trigger] parsable_path(v@[i]@),
    ensures
        r@.len() == v@.len(),
{
    let mut out: Vec<(bool, Option<String>)> = Vec::new();
    let mut i: usize = 0;
    while i < v.len()
        invariant
            i <= v@.len(),
            out@.len() == i,
            forall|j: int| 0 <= j < v@.len() ==> #[trigger] parsable_path(v@[j]@),
        decreases v@.len() - i,
    {
        assert(parsable_path(v@[i as int]@));
        let name = match path_file_name(v[i].as_str()) {
            Some(n) => n,
            None => String::new(),
        };
        out.push(parse_episode_number(name.as_str()));
        i = i + 1;
    }
    out
}

/// The episode number of a parse as an `i32`, `None` where the parse is not
/// one the sort accepts.
fn usable_key(p: &(bool, Option<String>)) -> (r: Option<i32>)
    ensures
        match r {
            Some(k) => parse_usable(p.deep_view()) && k == parse_key(p.deep_view()),
            None => !parse_usable(p.deep_view()),
        },
{
    if !p.0 {
        return None;
    }
    match &p.1 {
        Some(n) => {
            let cs = chars_of(n.as_str());
            assert(cs@.subrange(0, cs@.len() as int) =~= cs@);
            parse_i32_range(&cs, 0, cs.len())
        },
        None => Some(0),
    }
}

/// The sort keys of the parses, `None` where one of them is not accepted.
fn usable_keys(parsed: &Vec<(bool, Option<String>)>) -> (r: Option<Vec<i32>>)
    ensures
        match r {
            Some(keys) => (forall|i: int| 0 <= i < parsed@.len() ==> parse_usable(#[trigger] parsed.deep_view()[i]))
                && keys@ == parse_keys(parsed.deep_view()),
            None => !(forall|i: int| 0 <= i < parsed@.len() ==> parse_usable(#[trigger] parsed.deep_view()[i])),
        },
{
    let ghost dv = parsed.deep_view();
    let mut keys: Vec<i32> = Vec::new();
    let mut i: usize = 0;
    while i < parsed.len()
        invariant
            i <= parsed@.len(),
            dv == parsed.deep_view(),
            dv.len() == parsed@.len(),
            keys@.len() == i,
            forall|j: int| 0 <= j < i ==> parse_usable(#[trigger] dv[j]),
            forall|j: int| 0 <= j < i ==> #[trigger] keys@[j] == parse_key(dv[j]),
        decreases parsed@.len() - i,
    {
        assert(dv[i as int] == parsed@[i as int].deep_view());
        match usable_key(&parsed[i]) {
            Some(k) => keys.push(k),
            None => {
                return None;
            },
        }
        i = i + 1;
    }
    assert(keys@ =~= parse_keys(dv));
    Some(keys)
}

/// Sorts the paths by the episode numbers of their parses (`parsed[i]` is
/// the parse of `v[i]`'s file name; 0 where a parse has no number), keeping
/// the order of equal numbers; the list is updated and a copy returned.
/// Every parse must be a success, with an `i32` episode number if it has one.
pub fn sort_by_parsed(v: &mut Vec<String>, parsed: &Vec<(bool, Option<String>)>) -> (r: Vec<String>)
    requires
        parsed@.len() == old(v)@.len(),
        forall|i: int| 0 <= i < parsed@.len() ==> parse_usable(#[trigger] parsed.deep_view()[i]),
    ensures
        string_views(final(v)@) == string_views(r@),
        sorted_by_keys(string_views(old(v)@), string_views(r@), parse_keys(parsed.deep_view())),
{
    let keys = match usable_keys(parsed) {
        Some(k) => k,
        None => Vec::new(),
    };
    let ghost kv = parse_keys(parsed.deep_view());
    assert(keys@ == kv);
    let order = stable_order(&keys);
    let mut sorted: Vec<String> = Vec::new();
    let mut copy: Vec<String> = Vec::new();
    let mut k: usize = 0;
    while k < order.len()
        invariant
            k <= order@.len(),
            order@.len() == v@.len(),
            keys@.len() == v@.len(),
            forall|j: int| 0 <= j < order@.len() ==> #[trigger] order@[j] < keys@.len(),
            sorted@.len() == k,
            copy@.len() == k,
            forall|j: int| 0 <= j < k ==> #[trigger] sorted@[j]@ == v@[order@[j] as int]@,
            forall|j: int| 0 <= j < k ==> #[trigger] copy@[j]@ == v@[order@[j] as int]@,
        decreases order@.len() - k,
    {
        let j = order[k];
        assert(j < v@.len());
        sorted.push(v[j].clone());
        copy.push(v[j].clone());
        k = k + 1;
    }
    let ghost s = string_views(v@);
    let ghost rv = string_views(sorted@);
    let ghost perm = order@.map_values(|x: usize| x as int);
    proof {
        assert forall|a: int| 0 <= a < rv.len() implies 0 <= #[trigger] perm[a] < s.len() && rv[a] == s[perm[a]] by {
            assert(sorted@[a]@ == v@[order@[a] as int]@);
        }
        assert forall|a: int, b: int| 0 <= a < b < rv.len() implies kv[#[trigger] perm[a]] <= kv[#[trigger] perm[b]] by {
            assert(keys@[order@[a] as int] <= keys@[order@[b] as int]);
        }
        assert forall|a: int, b: int|
            0 <= a < b < rv.len() && kv[#[trigger] perm[a]] == kv[#[trigger] perm[b]] implies perm[a] < perm[b] by {
            assert(keys@[order@[a] as int] == keys@[order@[b] as int] ==> order@[a] < order@[b]);
        }
        assert forall|a: int, b: int| 0 <= a < b < rv.len() implies #[trigger] perm[a] != #[trigger] perm[b] by {
            assert(order@[a] != order@[b]);
        }
        assert(stable_perm(s, rv, perm, kv));
    }
    *v = copy;
    assert(string_views(v@) =~= string_views(sorted@));
    sorted
}

/// Every parse is one the sort accepts.
pub open spec fn all_usable(ps: Seq<(bool, Option<Seq<char>>)>) -> bool {
    forall|i: int| 0 <= i < ps.len() ==> parse_usable(#[trigger] ps[i])
}

/// The views of the paths of an optional list.
pub open spec fn opt_views(r: Option<Vec<String>>) -> Option<Seq<Seq<char>>> {
    match r {
        Some(v) => Some(string_views(v@)),
        None => None,
    }
}

/// What sorting `s` by the parses `parsed` gives: nothing when a parse is
/// not accepted, else `s` sorted stably by the parses' episode numbers.
pub open spec fn sort_outcome(
    s: Seq<Seq<char>>,
    parsed: Seq<(bool, Option<Seq<char>>)>,
    r: Option<Seq<Seq<char>>>,
) -> bool {
    &&& parsed.len() == s.len()
    &&& (r is None <==> !all_usable(parsed))
    &&& (r matches Some(x) ==> sorted_by_keys(s, x, parse_keys(parsed)))
}

/// [`sort_by_parsed`] on any parses: `None`, with the list untouched, where
/// a parse is not a success or its episode number is no `i32`.
pub fn sort_by_parsed_checked(v: &mut Vec<String>, parsed: &Vec<(bool, Option<String>)>) -> (r: Option<Vec<String>>)
    requires
        parsed@.len() == old(v)@.len(),
    ensures
        sort_outcome(string_views(old(v)@), parsed.deep_view(), opt_views(r)),
        match r {
            Some(sorted) => string_views(final(v)@) == string_views(sorted@),
            None => final(v)@ == old(v)@,
        },
{
    match usable_keys(parsed) {
        Some(_) => {},
        None => {
            return None;
        },
    }
    Some(sort_by_parsed(v, parsed))
}

/// Sorts the paths by the episode number Anitomy finds in their file names
/// (0 when it finds none), keeping the order of equal numbers; the list is
/// updated and a copy returned. `None`, with the list untouched, where
/// Anitomy fails on a name or finds an episode number that is no `i32`:
/// the result is what [`sort_by_parsed_checked`] gives for the parses made.
pub fn file_sort(v: &mut Vec<String>) -> (r: Option<Vec<String>>)
    requires
        forall|i: int| 0 <= i < old(v)@.len() ==> #[trigger] parsable_path(old(v)@[i]@),
    ensures
        old(v)@.len() == 0 ==> r is Some,
        exists|parsed: Seq<(bool, Option<Seq<char>>)>| #[trigger]
            sort_outcome(string_views(old(v)@), parsed, opt_views(r)),
        match r {
            Some(sorted) => string_views(final(v)@) == string_views(sorted@)
                && sorted_by_episode(string_views(old(v)@), string_views(sorted@)),
            None => final(v)@ == old(v)@,
        },
{
    let parsed = parse_names(v);
    let ghost old_v = string_views(v@);
    let r = sort_by_parsed_checked(v, &parsed);
    proof {
        assert(sort_outcome(old_v, parsed.deep_view(), opt_views(r)));
        if r is Some {
            assert(sorted_by_keys(old_v, opt_views(r).unwrap(), parse_keys(parsed.deep_view())));
        }
        if old_v.len() == 0 {
            assert(all_usable(parsed.deep_view()));
        }
    }
    r
}

/// Whether every path has a final component that is a parsable file name.
fn all_parsable(v: &Vec<String>) -> (r: bool)
    ensures
        r == forall|i: int| 0 <= i < v@.len() ==> #[trigger] parsable_path(v@[i]@),
{
    let mut i: usize = 0;
    while i < v.len()
        invariant
            i <= v@.len(),
            forall|j: int| 0 <= j < i ==> #[trigger] parsable_path(v@[j]@),
        decreases v@.len() - i,
    {
        let name = match path_file_name(v[i].as_str()) {
            Some(n) => n,
            None => {
                assert(!parsable_path(v@[i as int]@));
                return false;
            },
        };
        let cs = chars_of(name.as_str());
        let mut j: usize = 0;
        while j < cs.len()
            invariant
                j <= cs@.len(),
                cs@ == name@,
                i < v@.len(),
                file_name_of(v@[i as int]@) == Some(name@),
                forall|t: int| 0 <= t < j ==> cs@[t] != '\0' && cs@[t] <= '\u{FFFF}',
            decreases cs@.len() - j,
        {
            if cs[j] == '\0' || cs[j] > '\u{FFFF}' {
                if cs[j] == '\0' {
                    assert(name@.contains('\0')) by {
                        assert(name@[j as int] == '\0');
                    }
                }
                assert(!parsable_path(v@[i as int]@));
                return false;
            }
            j = j + 1;
        }
        assert(!name@.contains('\0'));
        i = i + 1;
    }
    true
}

/// [`file_sort`] on any list: `None`, with the list untouched, where a path
/// has no file name or one that cannot be handed to Anitomy.
pub fn file_sort_checked(v: &mut Vec<String>) -> (r: Option<Vec<String>>)
    ensures
        !(forall|i: int| 0 <= i < old(v)@.len() ==> #[trigger] parsable_path(old(v)@[i]@)) ==> r is None,
        old(v)@.len() == 0 ==> r is Some,
        (forall|i: int| 0 <= i < old(v)@.len() ==> #[trigger] parsable_path(old(v)@[i]@)) ==> exists|
            parsed: Seq<(bool, Option<Seq<char>>)>,
        | #[trigger] sort_outcome(string_views(old(v)@), parsed, opt_views(r)),
        match r {
            Some(sorted) => string_views(final(v)@) == string_views(sorted@)
                && sorted_by_episode(string_views(old(v)@), string_views(sorted@)),
            None => final(v)@ == old(v)@,
        },
{
    if all_parsable(v) {
        file_sort(v)
    } else {
        None
    }
}

// ---------------------------------------------------------------- planning the links

/// One file operation.
#[derive(Debug)]
pub enum LinkOp {
    /// Make `to` a hard link to the file at `from`.
    HardLink { from: String, to: String },
    /// Copy the file at `from` to `to`.
    Copy { from: String, to: String },
}

/// The abstract value of a [`LinkOp`].
pub enum LinkOpView {
    HardLink(Seq<char>, Seq<char>),
    Copy(Seq<char>, Seq<char>),
}

impl View for LinkOp {
    type V = LinkOpView;

    open spec fn view(&self) -> LinkOpView {
        match self {
            LinkOp::HardLink { from, to } => LinkOpView::HardLink(from@, to@),
            LinkOp::Copy { from, to } => LinkOpView::Copy(from@, to@),
        }
    }
}

/// The abstract values of a list of operations.
pub open spec fn op_views(ops: Seq<LinkOp>) -> Seq<LinkOpView> {
    ops.map_values(|o: LinkOp| o@)
}

/// The four groups of paths of a [`Files`].
pub struct FilesView {
    pub video: Seq<Seq<char>>,
    pub sub: Seq<Seq<char>>,
    pub sub_sc: Seq<Seq<char>>,
    pub sub_tc: Seq<Seq<char>>,
}

impl View for Files {
    type V = FilesView;

    open spec fn view(&self) -> FilesView {
        FilesView {
            video: string_views(self.video@),
            sub: string_views(self.sub@),
            sub_sc: string_views(self.sub_sc@),
            sub_tc: string_views(self.sub_tc@),
        }
    }
}

/// The subtitles of a listing ("ass" and "srt" files).
pub open spec fn all_subs(listing: Seq<Seq<char>>) -> Seq<Seq<char>> {
    keep_listed(listing, "ass srt"@)
}

/// The source files of a listing by kind: the videos whose extension occurs
/// in `video_sufs`, the subtitles without a language tag, and those tagged
/// as simplified and as traditional Chinese.
pub open spec fn source_groups(listing: Seq<Seq<char>>, video_sufs: Seq<char>) -> FilesView {
    let subs = all_subs(listing);
    FilesView {
        video: keep_listed(listing, video_sufs),
        sub: drop_tagged(subs, "sc chs gb tc cht big5"@),
        sub_sc: retag(subs, "sc chs gb"@, first_ext(subs)),
        sub_tc: retag(subs, "tc cht big5"@, first_ext(subs)),
    }
}

/// The paths with `.` and `ext` appended.
pub open spec fn retarget(outs: Seq<Seq<char>>, ext: Seq<char>) -> Seq<Seq<char>> {
    outs.map_values(|o: Seq<char>| o + seq!['.'] + ext)
}

/// The targets of a group: the episode paths with the extension of the
/// group's first file after `prefix`; none for an empty group.
pub open spec fn group_targets(outs: Seq<Seq<char>>, group: Seq<Seq<char>>, prefix: Seq<char>) -> Seq<Seq<char>> {
    if group.len() > 0 {
        retarget(outs, prefix + path_extension(group[0]).unwrap())
    } else {
        Seq::empty()
    }
}

/// The target of every source group, from the episode paths `outs`.
pub open spec fn rename_targets(outs: Seq<Seq<char>>, src: FilesView) -> FilesView {
    FilesView {
        video: group_targets(outs, src.video, Seq::empty()),
        sub: group_targets(outs, src.sub, Seq::empty()),
        sub_sc: group_targets(outs, src.sub_sc, "sc."@),
        sub_tc: group_targets(outs, src.sub_tc, "tc."@),
    }
}

/// The copy of the `i`-th file of a group, when the group has files.
pub open spec fn copy_step(src: Seq<Seq<char>>, dst: Seq<Seq<char>>, i: int) -> Seq<LinkOpView> {
    if src.len() > 0 {
        seq![LinkOpView::Copy(src[i], dst[i])]
    } else {
        Seq::empty()
    }
}

/// The operations for the first `n` videos: each is hard-linked, and the
/// subtitle of the same rank of each non-empty subtitle group is copied.
pub open spec fn rename_ops(n: nat, src: FilesView, dst: FilesView) -> Seq<LinkOpView>
    decreases n,
{
    if n == 0 {
        Seq::empty()
    } else {
        let i = n - 1;
        rename_ops((n - 1) as nat, src, dst) + seq![LinkOpView::HardLink(src.video[i], dst.video[i])]
            + copy_step(src.sub, dst.sub, i) + copy_step(src.sub_sc, dst.sub_sc, i) + copy_step(
            src.sub_tc,
            dst.sub_tc,
            i,
        )
    }
}

/// Every path of the list has a file name that can be handed to Anitomy.
pub open spec fn all_parsable_paths(ps: Seq<Seq<char>>) -> bool {
    forall|i: int| 0 <= i < ps.len() ==> #[trigger] parsable_path(ps[i])
}

/// A non-empty group of subtitles has a file for every video, and its
/// first file has an extension.
pub open spec fn group_covers(group: Seq<Seq<char>>, videos: nat) -> bool {
    group.len() > 0 ==> group.len() >= videos && path_extension(group[0]) is Some
}

/// The listing of a source folder can be linked to `names` episode files:
/// every file has an extension, there is at least one video and no more
/// videos than episodes, every non-empty subtitle group covers the videos,
/// and every file of the groups has a name that can be handed to Anitomy.
pub open spec fn link_rename_ok(listing: Seq<Seq<char>>, names: nat) -> bool {
    let g = source_groups(listing, "mp4 mkv avi flv"@);
    &&& forall|i: int| 0 <= i < listing.len() ==> (#[trigger] path_extension(listing[i])) is Some
    &&& 0 < g.video.len() <= names
    &&& group_covers(g.sub, g.video.len())
    &&& group_covers(g.sub_sc, g.video.len())
    &&& group_covers(g.sub_tc, g.video.len())
    &&& all_parsable_paths(g.video)
    &&& all_parsable_paths(g.sub)
    &&& all_parsable_paths(g.sub_sc)
    &&& all_parsable_paths(g.sub_tc)
}

/// `sorted` holds each group of `g` sorted by episode number.
pub open spec fn groups_sorted(g: FilesView, sorted: FilesView) -> bool {
    &&& sorted_by_episode(g.video, sorted.video)
    &&& sorted_by_episode(g.sub, sorted.sub)
    &&& sorted_by_episode(g.sub_sc, sorted.sub_sc)
    &&& sorted_by_episode(g.sub_tc, sorted.sub_tc)
}

/// The paths of the episode files under `dir`.
pub open spec fn out_paths(dir: Seq<char>, names: Seq<Seq<char>>) -> Seq<Seq<char>> {
    Seq::new(names.len(), |i: int| join_path(dir, names[i]))
}

/// `ops` is what linking the folder with `listing` to the episode files
/// `names` under `dir` does: the groups, each sorted by episode number,
/// linked and copied rank by rank to their targets.
pub open spec fn renamed_as(listing: Seq<Seq<char>>, dir: Seq<char>, names: Seq<Seq<char>>, ops: Seq<LinkOpView>) -> bool {
    let g = source_groups(listing, "mp4 mkv avi flv"@);
    exists|sorted: FilesView|
        groups_sorted(g, sorted) && ops == rename_ops(sorted.video.len(), sorted, rename_targets(out_paths(dir, names), g))
}

/// `sorted` holds each group of `g` sorted by the episode numbers of its
/// parses (`pv` for the videos, `ps`, `psc`, `ptc` for the subtitles).
pub open spec fn groups_sorted_by(
    g: FilesView,
    sorted: FilesView,
    pv: Seq<(bool, Option<Seq<char>>)>,
    ps: Seq<(bool, Option<Seq<char>>)>,
    psc: Seq<(bool, Option<Seq<char>>)>,
    ptc: Seq<(bool, Option<Seq<char>>)>,
) -> bool {
    &&& sorted_by_keys(g.video, sorted.video, parse_keys(pv))
    &&& sorted_by_keys(g.sub, sorted.sub, parse_keys(ps))
    &&& sorted_by_keys(g.sub_sc, sorted.sub_sc, parse_keys(psc))
    &&& sorted_by_keys(g.sub_tc, sorted.sub_tc, parse_keys(ptc))
}

/// `ops` is what linking the folder with `listing` to the episode files
/// `names` under `dir` does when its groups parse as given: each group
/// sorted by its parses' episode numbers, linked and copied rank by rank.
pub open spec fn renamed_by(
    listing: Seq<Seq<char>>,
    dir: Seq<char>,
    names: Seq<Seq<char>>,
    pv: Seq<(bool, Option<Seq<char>>)>,
    ps: Seq<(bool, Option<Seq<char>>)>,
    psc: Seq<(bool, Option<Seq<char>>)>,
    ptc: Seq<(bool, Option<Seq<char>>)>,
    ops: Seq<LinkOpView>,
) -> bool {
    let g = source_groups(listing, "mp4 mkv avi flv"@);
    exists|sorted: FilesView|
        groups_sorted_by(g, sorted, pv, ps, psc, ptc) && ops == rename_ops(
            sorted.video.len(),
            sorted,
            rename_targets(out_paths(dir, names), g),
        )
}

/// The views of the operations of an optional plan.
pub open spec fn plan_view(r: Option<Vec<LinkOp>>) -> Option<Seq<LinkOpView>> {
    match r {
        Some(ops) => Some(op_views(ops@)),
        None => None,
    }
}

/// The plan for a listing whose groups parse as given, one parse for each
/// file of each group: none where a parse is not accepted, else the
/// operations of [`renamed_by`].
pub open spec fn planned_with(
    listing: Seq<Seq<char>>,
    dir: Seq<char>,
    names: Seq<Seq<char>>,
    pv: Seq<(bool, Option<Seq<char>>)>,
    ps: Seq<(bool, Option<Seq<char>>)>,
    psc: Seq<(bool, Option<Seq<char>>)>,
    ptc: Seq<(bool, Option<Seq<char>>)>,
    r: Option<Seq<LinkOpView>>,
) -> bool {
    let g = source_groups(listing, "mp4 mkv avi flv"@);
    &&& pv.len() == g.video.len()
    &&& ps.len() == g.sub.len()
    &&& psc.len() == g.sub_sc.len()
    &&& ptc.len() == g.sub_tc.len()
    &&& (r is None <==> !(all_usable(pv) && all_usable(ps) && all_usable(psc) && all_usable(ptc)))
    &&& (r matches Some(ops) ==> renamed_by(listing, dir, names, pv, ps, psc, ptc, ops))
}

proof fn lemma_renamed_by_as(
    listing: Seq<Seq<char>>,
    dir: Seq<char>,
    names: Seq<Seq<char>>,
    pv: Seq<(bool, Option<Seq<char>>)>,
    ps: Seq<(bool, Option<Seq<char>>)>,
    psc: Seq<(bool, Option<Seq<char>>)>,
    ptc: Seq<(bool, Option<Seq<char>>)>,
    ops: Seq<LinkOpView>,
)
    requires
        renamed_by(listing, dir, names, pv, ps, psc, ptc, ops),
    ensures
        renamed_as(listing, dir, names, ops),
{
    let g = source_groups(listing, "mp4 mkv avi flv"@);
    let sorted = choose|sorted: FilesView|
        groups_sorted_by(g, sorted, pv, ps, psc, ptc) && ops == rename_ops(
            sorted.video.len(),
            sorted,
            rename_targets(out_paths(dir, names), g),
        );
    assert(sorted_by_keys(g.video, sorted.video, parse_keys(pv)));
    assert(sorted_by_keys(g.sub, sorted.sub, parse_keys(ps)));
    assert(sorted_by_keys(g.sub_sc, sorted.sub_sc, parse_keys(psc)));
    assert(sorted_by_keys(g.sub_tc, sorted.sub_tc, parse_keys(ptc)));
    assert(groups_sorted(g, sorted));
}

proof fn lemma_keep_listed_ext(ps: Seq<Seq<char>>, sufs: Seq<char>)
    ensures
        keep_listed(ps, sufs).len() <= ps.len(),
        forall|k: int| 0 <= k < keep_listed(ps, sufs).len() ==> listed_ext(#[trigger] keep_listed(ps, sufs)[k], sufs),
    decreases ps.len(),
{
    if ps.len() > 0 {
        lemma_keep_listed_ext(ps.drop_last(), sufs);
    }
}

proof fn lemma_drop_tagged_ext(ps: Seq<Seq<char>>, s: Seq<char>)
    requires
        forall|k: int| 0 <= k < ps.len() ==> (#[trigger] path_extension(ps[k])) is Some,
    ensures
        forall|k: int| 0 <= k < drop_tagged(ps, s).len() ==> (#[trigger] path_extension(drop_tagged(ps, s)[k])) is Some,
    decreases ps.len(),
{
    if ps.len() > 0 {
        assert forall|k: int| 0 <= k < ps.drop_last().len() implies (#[trigger] path_extension(ps.drop_last()[k])) is Some by {
            assert(ps.drop_last()[k] == ps[k]);
        }
        lemma_drop_tagged_ext(ps.drop_last(), s);
        assert(path_extension(ps.last()) is Some);
    }
}

proof fn lemma_ext_has_dot(p: Seq<char>)
    requires
        path_extension(p) is Some,
    ensures
        find_from(p, '.', 0) < p.len(),
{
    lemma_last_segment_bounds(p, 0, None);
    let (a, b) = file_name_span(p).unwrap();
    let name = p.subrange(a, b);
    let d = rfind(name, '.');
    lemma_rfind_before_bounds(name, '.', name.len() as int);
    assert(d > 0);
    assert(name[d] == '.');
    assert(p[a + d] == '.');
    lemma_find_from_bounds(p, '.', 0);
}

/// The episode paths with `.` and `ext` appended.
fn retarget_paths(outs: &Vec<String>, ext: &str) -> (r: Vec<String>)
    ensures
        string_views(r@) == retarget(string_views(outs@), ext@),
{
    let mut out: Vec<String> = Vec::new();
    let mut i: usize = 0;
    while i < outs.len()
        invariant
            i <= outs@.len(),
            out@.len() == i,
            forall|j: int| 0 <= j < i ==> #[trigger] out@[j]@ == outs@[j]@ + seq!['.'] + ext@,
        decreases outs@.len() - i,
    {
        let mut o = outs[i].clone();
        o.push('.');
        push_str(&mut o, ext);
        out.push(o);
        i = i + 1;
    }
    assert(string_views(out@) =~= retarget(string_views(outs@), ext@));
    out
}

/// The targets of a group with extensions after `prefix`.
fn group_target_paths(outs: &Vec<String>, group: &Vec<String>, prefix: &str) -> (r: Vec<String>)
    requires
        group@.len() > 0 ==> path_extension(group@[0]@) is Some,
    ensures
        string_views(r@) == group_targets(string_views(outs@), string_views(group@), prefix@),
{
    if group.len() == 0 {
        let r: Vec<String> = Vec::new();
        assert(string_views(r@) =~= Seq::<Seq<char>>::empty());
        return r;
    }
    let e = match path_extension_of(group[0].as_str()) {
        Some(e) => e,
        None => String::new(),
    };
    let mut ext = prefix.to_owned();
    push_str(&mut ext, e.as_str());
    retarget_paths(outs, ext.as_str())
}

/// The groups of source files of a listing, unsorted.
fn listing_groups(listing: &Vec<String>, video_sufs: &str) -> (r: Files)
    requires
        forall|i: int| 0 <= i < listing@.len() ==> (#[trigger] path_extension(listing@[i]@)) is Some,
    ensures
        r@ == source_groups(string_views(listing@), video_sufs@),
{
    let ghost ls = string_views(listing@);
    assert forall|i: int| 0 <= i < listing@.len() implies (#[trigger] path_extension(listing@[i]@)) is Some by {}
    let video = pick_listed(listing, video_sufs);
    let subs = pick_listed(listing, "ass srt");
    proof {
        lemma_keep_listed_ext(ls, "ass srt"@);
        assert forall|k: int| 0 <= k < subs@.len() implies #[trigger] find_from(subs@[k]@, '.', 0) < subs@[k]@.len() by {
            assert(subs@[k]@ == all_subs(ls)[k]);
            assert(listed_ext(all_subs(ls)[k], "ass srt"@));
            lemma_ext_has_dot(subs@[k]@);
        }
        if subs@.len() > 0 {
            assert(subs@[0]@ == all_subs(ls)[0]);
            assert(listed_ext(all_subs(ls)[0], "ass srt"@));
        }
    }
    let sub_sc = pick_tagged(&subs, "sc chs gb");
    let sub_tc = pick_tagged(&subs, "tc cht big5");
    let sub = drop_tagged_paths(&subs, "sc chs gb tc cht big5");
    Files { video, sub, sub_sc, sub_tc }
}

/// The subtitle copy of rank `i` of a group, when the group has files.
fn push_copy(ops: &mut Vec<LinkOp>, src: &Vec<String>, dst: &Vec<String>, i: usize)
    requires
        src@.len() > 0 ==> i < src@.len() && i < dst@.len(),
    ensures
        op_views(final(ops)@) == op_views(old(ops)@) + copy_step(string_views(src@), string_views(dst@), i as int),
{
    if src.len() > 0 {
        let ghost before = ops@;
        ops.push(LinkOp::Copy { from: src[i].clone(), to: dst[i].clone() });
        assert(op_views(ops@) =~= op_views(before) + copy_step(string_views(src@), string_views(dst@), i as int));
    } else {
        assert(op_views(ops@) =~= op_views(old(ops)@) + copy_step(string_views(src@), string_views(dst@), i as int));
    }
}

/// What linking one source folder to the episodes of `ep` does, given the
/// parses of the file names of its groups (`pv` for the videos, `ps` for
/// the plain subtitles, `psc` and `ptc` for the simplified and traditional
/// Chinese ones, in the order the listing gives them): each group is sorted
/// by its parses' episode numbers (0 where a parse has none), and the video
/// of each rank is hard-linked, and the subtitles of that rank copied, to
/// the episode file of the same rank under `out_dir`, with `.` and the
/// extension of the group's first file appended. `None` exactly where a
/// parse is not a success or has an episode number that is no `i32`.
pub fn link_rename_plan_from_parses(
    listing: Vec<String>,
    out_dir: &String,
    ep: &Ep,
    pv: &Vec<(bool, Option<String>)>,
    ps: &Vec<(bool, Option<String>)>,
    psc: &Vec<(bool, Option<String>)>,
    ptc: &Vec<(bool, Option<String>)>,
) -> (r: Option<Vec<LinkOp>>)
    requires
        link_rename_ok(string_views(listing@), ep.name@.len()),
        pv@.len() == source_groups(string_views(listing@), "mp4 mkv avi flv"@).video.len(),
        ps@.len() == source_groups(string_views(listing@), "mp4 mkv avi flv"@).sub.len(),
        psc@.len() == source_groups(string_views(listing@), "mp4 mkv avi flv"@).sub_sc.len(),
        ptc@.len() == source_groups(string_views(listing@), "mp4 mkv avi flv"@).sub_tc.len(),
    ensures
        planned_with(
            string_views(listing@),
            out_dir@,
            string_views(ep.name@),
            pv.deep_view(),
            ps.deep_view(),
            psc.deep_view(),
            ptc.deep_view(),
            plan_view(r),
        ),
{
    let ghost ls = string_views(listing@);
    let ghost g = source_groups(ls, "mp4 mkv avi flv"@);
    assert forall|i: int| 0 <= i < listing@.len() implies (#[trigger] path_extension(listing@[i]@)) is Some by {
        assert(ls[i] == listing@[i]@);
    }
    let groups = listing_groups(&listing, "mp4 mkv avi flv");
    let outs = out_file_names(out_dir, ep);
    let ghost outv = out_paths(out_dir@, string_views(ep.name@));
    assert(string_views(outs@) =~= outv);
    proof {
        lemma_keep_listed_ext(ls, "mp4 mkv avi flv"@);
        lemma_keep_listed_ext(ls, "ass srt"@);
        assert(listed_ext(g.video[0], "mp4 mkv avi flv"@));
    }
    let tv = group_target_paths(&outs, &groups.video, "");
    let ts = group_target_paths(&outs, &groups.sub, "");
    let tsc = group_target_paths(&outs, &groups.sub_sc, "sc.");
    let ttc = group_target_paths(&outs, &groups.sub_tc, "tc.");
    let ghost dst = rename_targets(outv, g);
    proof {
        reveal_strlit("");
        assert(""@ =~= Seq::<char>::empty());
    }
    let Files { video: mut video, sub: mut sub, sub_sc: mut sub_sc, sub_tc: mut sub_tc } = groups;
    let sv = match sort_by_parsed_checked(&mut video, pv) {
        Some(x) => x,
        None => {
            return None;
        },
    };
    let ss = match sort_by_parsed_checked(&mut sub, ps) {
        Some(x) => x,
        None => {
            return None;
        },
    };
    let ssc = match sort_by_parsed_checked(&mut sub_sc, psc) {
        Some(x) => x,
        None => {
            return None;
        },
    };
    let stc = match sort_by_parsed_checked(&mut sub_tc, ptc) {
        Some(x) => x,
        None => {
            return None;
        },
    };
    let ghost sorted = FilesView {
        video: string_views(sv@),
        sub: string_views(ss@),
        sub_sc: string_views(ssc@),
        sub_tc: string_views(stc@),
    };
    assert(groups_sorted_by(g, sorted, pv.deep_view(), ps.deep_view(), psc.deep_view(), ptc.deep_view()));
    proof {
        lemma_keyed_len(g.video, sorted.video, parse_keys(pv.deep_view()));
        lemma_keyed_len(g.sub, sorted.sub, parse_keys(ps.deep_view()));
        lemma_keyed_len(g.sub_sc, sorted.sub_sc, parse_keys(psc.deep_view()));
        lemma_keyed_len(g.sub_tc, sorted.sub_tc, parse_keys(ptc.deep_view()));
        assert(sorted.video.len() == g.video.len());
        assert(dst.video.len() == outv.len());
        assert(string_views(tv@).len() == tv@.len());
        assert(string_views(sv@).len() == sv@.len());
        assert(string_views(ss@).len() == ss@.len());
        assert(string_views(ts@).len() == ts@.len());
        assert(string_views(ssc@).len() == ssc@.len());
        assert(string_views(tsc@).len() == tsc@.len());
        assert(string_views(stc@).len() == stc@.len());
        assert(string_views(ttc@).len() == ttc@.len());
    }
    let n = sv.len();
    let mut ops: Vec<LinkOp> = Vec::new();
    let mut i: usize = 0;
    while i < n
        invariant
            i <= n,
            n == sv@.len(),
            sorted.video == string_views(sv@),
            sorted.sub == string_views(ss@),
            sorted.sub_sc == string_views(ssc@),
            sorted.sub_tc == string_views(stc@),
            dst.video == string_views(tv@),
            dst.sub == string_views(ts@),
            dst.sub_sc == string_views(tsc@),
            dst.sub_tc == string_views(ttc@),
            n <= tv@.len(),
            ss@.len() > 0 ==> n <= ss@.len() && n <= ts@.len(),
            ssc@.len() > 0 ==> n <= ssc@.len() && n <= tsc@.len(),
            stc@.len() > 0 ==> n <= stc@.len() && n <= ttc@.len(),
            op_views(ops@) == rename_ops(i as nat, sorted, dst),
        decreases n - i,
    {
        let ghost before = ops@;
        ops.push(LinkOp::HardLink { from: sv[i].clone(), to: tv[i].clone() });
        assert(op_views(ops@) =~= op_views(before) + seq![LinkOpView::HardLink(sorted.video[i as int], dst.video[i as int])]);
        push_copy(&mut ops, &ss, &ts, i);
        push_copy(&mut ops, &ssc, &tsc, i);
        push_copy(&mut ops, &stc, &ttc, i);
        i = i + 1;
        assert(op_views(ops@) =~= rename_ops(i as nat, sorted, dst));
    }
    Some(ops)
}

/// What linking one source folder to the episodes of `ep` does: the file
/// names of its groups are parsed with Anitomy, and the plan is the one
/// [`link_rename_plan_from_parses`] makes from those parses; `None` where
/// Anitomy fails on a name or finds an episode number that is no `i32`.
pub fn link_rename_plan(listing: Vec<String>, out_dir: &String, ep: &Ep) -> (r: Option<Vec<LinkOp>>)
    requires
        link_rename_ok(string_views(listing@), ep.name@.len()),
    ensures
        exists|
            pv: Seq<(bool, Option<Seq<char>>)>,
            ps: Seq<(bool, Option<Seq<char>>)>,
            psc: Seq<(bool, Option<Seq<char>>)>,
            ptc: Seq<(bool, Option<Seq<char>>)>,
        | #[trigger] planned_with(
            string_views(listing@),
            out_dir@,
            string_views(ep.name@),
            pv,
            ps,
            psc,
            ptc,
            plan_view(r),
        ),
        r matches Some(ops) ==> renamed_as(string_views(listing@), out_dir@, string_views(ep.name@), op_views(ops@)),
{
    let ghost ls = string_views(listing@);
    let ghost g = source_groups(ls, "mp4 mkv avi flv"@);
    assert forall|i: int| 0 <= i < listing@.len() implies (#[trigger] path_extension(listing@[i]@)) is Some by {
        assert(ls[i] == listing@[i]@);
    }
    let groups = listing_groups(&listing, "mp4 mkv avi flv");
    proof {
        assert forall|i: int| 0 <= i < groups.video@.len() implies #[trigger] parsable_path(groups.video@[i]@) by {
            assert(g.video[i] == groups.video@[i]@);
        }
        assert forall|i: int| 0 <= i < groups.sub@.len() implies #[trigger] parsable_path(groups.sub@[i]@) by {
            assert(g.sub[i] == groups.sub@[i]@);
        }
        assert forall|i: int| 0 <= i < groups.sub_sc@.len() implies #[trigger] parsable_path(groups.sub_sc@[i]@) by {
            assert(g.sub_sc[i] == groups.sub_sc@[i]@);
        }
        assert forall|i: int| 0 <= i < groups.sub_tc@.len() implies #[trigger] parsable_path(groups.sub_tc@[i]@) by {
            assert(g.sub_tc[i] == groups.sub_tc@[i]@);
        }
    }
    let pv = parse_names(&groups.video);
    let ps = parse_names(&groups.sub);
    let psc = parse_names(&groups.sub_sc);
    let ptc = parse_names(&groups.sub_tc);
    proof {
        assert(string_views(groups.video@).len() == groups.video@.len());
        assert(string_views(groups.sub@).len() == groups.sub@.len());
        assert(string_views(groups.sub_sc@).len() == groups.sub_sc@.len());
        assert(string_views(groups.sub_tc@).len() == groups.sub_tc@.len());
    }
    let r = link_rename_plan_from_parses(listing, out_dir, ep, &pv, &ps, &psc, &ptc);
    proof {
        let names = string_views(ep.name@);
        assert(planned_with(ls, out_dir@, names, pv.deep_view(), ps.deep_view(), psc.deep_view(), ptc.deep_view(), plan_view(r)));
        if r is Some {
            lemma_renamed_by_as(ls, out_dir@, names, pv.deep_view(), ps.deep_view(), psc.deep_view(), ptc.deep_view(), plan_view(r).unwrap());
        }
    }
    r
}

/// Whether every path of the list has an extension.
fn all_have_extension(v: &Vec<String>) -> (r: bool)
    ensures
        r == forall|i: int| 0 <= i < v@.len() ==> (#[trigger] path_extension(v@[i]@)) is Some,
{
    let mut i: usize = 0;
    while i < v.len()
        invariant
            i <= v@.len(),
            forall|j: int| 0 <= j < i ==> (#[trigger] path_extension(v@[j]@)) is Some,
        decreases v@.len() - i,
    {
        if path_extension_of(v[i].as_str()).is_none() {
            return false;
        }
        i = i + 1;
    }
    true
}

/// Whether every path of the list has a final component that is a name.
fn all_named(v: &Vec<String>) -> (r: bool)
    ensures
        r == forall|i: int| 0 <= i < v@.len() ==> (#[trigger] file_name_of(v@[i]@)) is Some,
{
    let mut i: usize = 0;
    while i < v.len()
        invariant
            i <= v@.len(),
            forall|j: int| 0 <= j < i ==> (#[trigger] file_name_of(v@[j]@)) is Some,
        decreases v@.len() - i,
    {
        if path_file_name(v[i].as_str()).is_none() {
            return false;
        }
        i = i + 1;
    }
    true
}

/// Whether a group is empty or covers `n` videos with an extension on its first file.
fn covers(group: &Vec<String>, n: usize) -> (r: bool)
    ensures
        r == group_covers(string_views(group@), n as nat),
{
    if group.len() == 0 {
        return true;
    }
    assert(string_views(group@)[0] == group@[0]@);
    group.len() >= n && path_extension_of(group[0].as_str()).is_some()
}

/// Whether every path of the group has a file name that can be handed to Anitomy.
fn group_parsable(group: &Vec<String>) -> (r: bool)
    ensures
        r == all_parsable_paths(string_views(group@)),
{
    let r = all_parsable(group);
    proof {
        if r {
            assert forall|i: int| 0 <= i < string_views(group@).len() implies #[trigger] parsable_path(string_views(group@)[i]) by {
                assert(parsable_path(group@[i]@));
            }
        } else {
            if all_parsable_paths(string_views(group@)) {
                assert forall|i: int| 0 <= i < group@.len() implies #[trigger] parsable_path(group@[i]@) by {
                    assert(parsable_path(string_views(group@)[i]));
                }
            }
        }
    }
    r
}

/// [`link_rename_plan`] on any listing: `None` where the listing breaks one
/// of the conditions of [`link_rename_ok`].
pub fn link_rename_plan_checked(listing: Vec<String>, out_dir: &String, ep: &Ep) -> (r: Option<Vec<LinkOp>>)
    ensures
        !link_rename_ok(string_views(listing@), ep.name@.len()) ==> r is None,
        link_rename_ok(string_views(listing@), ep.name@.len()) ==> exists|
            pv: Seq<(bool, Option<Seq<char>>)>,
            ps: Seq<(bool, Option<Seq<char>>)>,
            psc: Seq<(bool, Option<Seq<char>>)>,
            ptc: Seq<(bool, Option<Seq<char>>)>,
        | #[trigger] planned_with(
            string_views(listing@),
            out_dir@,
            string_views(ep.name@),
            pv,
            ps,
            psc,
            ptc,
            plan_view(r),
        ),
        r matches Some(ops) ==> link_rename_ok(string_views(listing@), ep.name@.len())
            && renamed_as(string_views(listing@), out_dir@, string_views(ep.name@), op_views(ops@)),
{
    let ghost ls = string_views(listing@);
    let ghost g = source_groups(ls, "mp4 mkv avi flv"@);
    let ok_ext = all_have_extension(&listing);
    proof {
        if ok_ext {
            assert forall|i: int| 0 <= i < ls.len() implies (#[trigger] path_extension(ls[i])) is Some by {
                assert(path_extension(listing@[i]@) is Some);
            }
        } else if forall|i: int| 0 <= i < ls.len() ==> (#[trigger] path_extension(ls[i])) is Some {
            assert forall|i: int| 0 <= i < listing@.len() implies (#[trigger] path_extension(listing@[i]@)) is Some by {
                assert(path_extension(ls[i]) is Some);
            }
        }
    }
    if !ok_ext {
        return None;
    }
    let groups = listing_groups(&listing, "mp4 mkv avi flv");
    let n = groups.video.len();
    let ok = n > 0 && n <= ep.name.len() && covers(&groups.sub, n) && covers(&groups.sub_sc, n)
        && covers(&groups.sub_tc, n) && group_parsable(&groups.video) && group_parsable(&groups.sub)
        && group_parsable(&groups.sub_sc) && group_parsable(&groups.sub_tc);
    if !ok {
        return None;
    }
    link_rename_plan(listing, out_dir, ep)
}

/// The same-named targets of a group under `dir`.
pub open spec fn same_name_targets(dir: Seq<char>, group: Seq<Seq<char>>) -> Seq<Seq<char>> {
    Seq::new(group.len(), |i: int| join_path(dir, file_name_of(group[i]).unwrap()))
}

/// The operations for the first `n` videos when nothing is renamed: each
/// video is hard-linked, and the subtitles of the same rank of all three
/// groups copied, to their own names under the target folder.
pub open spec fn just_link_ops(n: nat, src: FilesView, dst: FilesView) -> Seq<LinkOpView>
    decreases n,
{
    if n == 0 {
        Seq::empty()
    } else {
        let i = n - 1;
        just_link_ops((n - 1) as nat, src, dst) + seq![
            LinkOpView::HardLink(src.video[i], dst.video[i]),
            LinkOpView::Copy(src.sub[i], dst.sub[i]),
            LinkOpView::Copy(src.sub_sc[i], dst.sub_sc[i]),
            LinkOpView::Copy(src.sub_tc[i], dst.sub_tc[i]),
        ]
    }
}

/// Every path of the list has a final component that is a name.
pub open spec fn all_named_paths(ps: Seq<Seq<char>>) -> bool {
    forall|i: int| 0 <= i < ps.len() ==> (#[trigger] file_name_of(ps[i])) is Some
}

/// The listing of a source folder can be linked as it is: every file has an
/// extension, every file of the groups has a name, and each subtitle group
/// has a file for every video ("mp4 mkv").
pub open spec fn just_link_ok(listing: Seq<Seq<char>>) -> bool {
    let g = source_groups(listing, "mp4 mkv"@);
    &&& forall|i: int| 0 <= i < listing.len() ==> (#[trigger] path_extension(listing[i])) is Some
    &&& all_named_paths(g.video)
    &&& all_named_paths(g.sub)
    &&& all_named_paths(g.sub_sc)
    &&& all_named_paths(g.sub_tc)
    &&& g.sub.len() >= g.video.len()
    &&& g.sub_sc.len() >= g.video.len()
    &&& g.sub_tc.len() >= g.video.len()
}

/// `ops` is what linking the folder with `listing` under its own names into
/// `dir` does.
pub open spec fn linked_as(listing: Seq<Seq<char>>, dir: Seq<char>, ops: Seq<LinkOpView>) -> bool {
    let g = source_groups(listing, "mp4 mkv"@);
    ops == just_link_ops(
        g.video.len(),
        g,
        FilesView {
            video: same_name_targets(dir, g.video),
            sub: same_name_targets(dir, g.sub),
            sub_sc: same_name_targets(dir, g.sub_sc),
            sub_tc: same_name_targets(dir, g.sub_tc),
        },
    )
}

/// The same-named targets of a group under `dir`.
fn same_name_paths(dir: &String, group: &Vec<String>) -> (r: Vec<String>)
    requires
        all_named_paths(string_views(group@)),
    ensures
        string_views(r@) == same_name_targets(dir@, string_views(group@)),
{
    assert forall|i: int| 0 <= i < group@.len() implies (#[trigger] file_name_of(group@[i]@)) is Some by {
        assert(string_views(group@)[i] == group@[i]@);
    }
    let names = filenames2(group);
    let ghost nv = string_views(names@);
    let r = mkouts_ref(dir, &names);
    assert(nv.len() == names@.len());
    assert(nv.len() == group@.len());
    assert forall|i: int| 0 <= i < group@.len() implies #[trigger] string_views(r@)[i] == same_name_targets(dir@, string_views(group@))[i] by {
        assert(string_views(group@)[i] == group@[i]@);
        assert(nv[i] == file_name_of(group@[i]@).unwrap());
        assert(nv[i] == names@[i]@);
    }
    assert(string_views(r@) =~= same_name_targets(dir@, string_views(group@)));
    r
}

/// What linking one source folder without renaming does: videos ("mp4
/// mkv") are hard-linked, and subtitles copied by group, to their own names
/// under `out_dir`, rank by rank in listing order.
pub fn just_link_plan(listing: Vec<String>, out_dir: &String) -> (r: Vec<LinkOp>)
    requires
        just_link_ok(string_views(listing@)),
    ensures
        linked_as(string_views(listing@), out_dir@, op_views(r@)),
{
    let ghost ls = string_views(listing@);
    let ghost g = source_groups(ls, "mp4 mkv"@);
    assert forall|i: int| 0 <= i < listing@.len() implies (#[trigger] path_extension(listing@[i]@)) is Some by {
        assert(ls[i] == listing@[i]@);
    }
    let groups = listing_groups(&listing, "mp4 mkv");
    let tv = same_name_paths(out_dir, &groups.video);
    let ts = same_name_paths(out_dir, &groups.sub);
    let tsc = same_name_paths(out_dir, &groups.sub_sc);
    let ttc = same_name_paths(out_dir, &groups.sub_tc);
    let ghost dst = FilesView {
        video: same_name_targets(out_dir@, g.video),
        sub: same_name_targets(out_dir@, g.sub),
        sub_sc: same_name_targets(out_dir@, g.sub_sc),
        sub_tc: same_name_targets(out_dir@, g.sub_tc),
    };
    proof {
        assert(string_views(groups.video@).len() == groups.video@.len());
        assert(string_views(groups.sub@).len() == groups.sub@.len());
        assert(string_views(groups.sub_sc@).len() == groups.sub_sc@.len());
        assert(string_views(groups.sub_tc@).len() == groups.sub_tc@.len());
        assert(string_views(tv@).len() == tv@.len());
        assert(string_views(ts@).len() == ts@.len());
        assert(string_views(tsc@).len() == tsc@.len());
        assert(string_views(ttc@).len() == ttc@.len());
    }
    let n = groups.video.len();
    let mut ops: Vec<LinkOp> = Vec::new();
    let mut i: usize = 0;
    while i < n
        invariant
            i <= n,
            n == groups.video@.len(),
            groups@ == g,
            dst.video == string_views(tv@),
            dst.sub == string_views(ts@),
            dst.sub_sc == string_views(tsc@),
            dst.sub_tc == string_views(ttc@),
            n <= tv@.len(),
            n <= groups.sub@.len() && n <= ts@.len(),
            n <= groups.sub_sc@.len() && n <= tsc@.len(),
            n <= groups.sub_tc@.len() && n <= ttc@.len(),
            op_views(ops@) == just_link_ops(i as nat, g, dst),
        decreases n - i,
    {
        let ghost before = ops@;
        ops.push(LinkOp::HardLink { from: groups.video[i].clone(), to: tv[i].clone() });
        ops.push(LinkOp::Copy { from: groups.sub[i].clone(), to: ts[i].clone() });
        ops.push(LinkOp::Copy { from: groups.sub_sc[i].clone(), to: tsc[i].clone() });
        ops.push(LinkOp::Copy { from: groups.sub_tc[i].clone(), to: ttc[i].clone() });
        i = i + 1;
        assert(op_views(ops@) =~= just_link_ops(i as nat, g, dst));
    }
    ops
}

proof fn lemma_named_views(v: Seq<String>)
    ensures
        all_named_paths(string_views(v)) == forall|i: int| 0 <= i < v.len() ==> (#[trigger] file_name_of(v[i]@)) is Some,
{
    let sv = string_views(v);
    if all_named_paths(sv) {
        assert forall|i: int| 0 <= i < v.len() implies (#[trigger] file_name_of(v[i]@)) is Some by {
            assert(sv[i] == v[i]@);
        }
    }
    if forall|i: int| 0 <= i < v.len() ==> (#[trigger] file_name_of(v[i]@)) is Some {
        assert forall|i: int| 0 <= i < sv.len() implies (#[trigger] file_name_of(sv[i])) is Some by {
            assert(sv[i] == v[i]@);
            assert(file_name_of(v[i]@) is Some);
        }
    }
}

/// [`just_link_plan`] on any listing: `None` where the listing breaks one of
/// the conditions of [`just_link_ok`].
pub fn just_link_plan_checked(listing: Vec<String>, out_dir: &String) -> (r: Option<Vec<LinkOp>>)
    ensures
        match r {
            Some(ops) => just_link_ok(string_views(listing@)) && linked_as(string_views(listing@), out_dir@, op_views(ops@)),
            None => !just_link_ok(string_views(listing@)),
        },
{
    let ghost ls = string_views(listing@);
    let ok_ext = all_have_extension(&listing);
    proof {
        if ok_ext {
            assert forall|i: int| 0 <= i < ls.len() implies (#[trigger] path_extension(ls[i])) is Some by {
                assert(path_extension(listing@[i]@) is Some);
            }
        } else if forall|i: int| 0 <= i < ls.len() ==> (#[trigger] path_extension(ls[i])) is Some {
            assert forall|i: int| 0 <= i < listing@.len() implies (#[trigger] path_extension(listing@[i]@)) is Some by {
                assert(path_extension(ls[i]) is Some);
            }
        }
    }
    if !ok_ext {
        return None;
    }
    let groups = listing_groups(&listing, "mp4 mkv");
    let n = groups.video.len();
    let named = all_named(&groups.video) && all_named(&groups.sub) && all_named(&groups.sub_sc)
        && all_named(&groups.sub_tc);
    proof {
        lemma_named_views(groups.video@);
        lemma_named_views(groups.sub@);
        lemma_named_views(groups.sub_sc@);
        lemma_named_views(groups.sub_tc@);
    }
    if !named || groups.sub.len() < n || groups.sub_sc.len() < n || groups.sub_tc.len() < n {
        return None;
    }
    Some(just_link_plan(listing, out_dir))
}

/// The width of the episode numbers of the file names is the number of
/// digits of the largest number: some episode's number has exactly that many
/// digits, and none has more.
pub proof fn lemma_ep_width_of_largest_number(eps: Seq<Episode>)
    requires
        eps.len() > 0,
    ensures
        exists|i: int|
            0 <= i < eps.len() && (forall|j: int| 0 <= j < eps.len() ==> eps[j].sort <= eps[i].sort)
                && dec_digits(eps[i].sort as nat).len() == ep_width(eps),
        forall|j: int| 0 <= j < eps.len() ==> dec_digits(#[trigger] eps[j].sort as nat).len() <= ep_width(eps),
{
    let s = ep_sorts(eps);
    lemma_max_sort_is_largest(s);
    let i = choose|i: int| 0 <= i < s.len() && s[i] == max_sort(s);
    assert(eps[i].sort == s[i]);
    assert forall|j: int| 0 <= j < eps.len() implies eps[j].sort <= eps[i].sort by {
        assert(s[j] == eps[j].sort);
    }
    assert forall|j: int| 0 <= j < eps.len() implies dec_digits(#[trigger] eps[j].sort as nat).len() <= ep_width(eps) by {
        assert(s[j] == eps[j].sort);
        lemma_dec_digits_len_mono(eps[j].sort as nat, max_sort(s) as nat);
    }
}

/// In the episode file names every number is padded to one width, that of
/// the largest number.
pub proof fn lemma_ep_names_share_width(eps: Seq<Episode>)
    ensures
        forall|i: int|
            0 <= i < eps.len() ==> #[trigger] zero_pad(dec_digits(eps[i].sort as nat), ep_width(eps)).len() == ep_width(eps),
{
    assert forall|i: int| 0 <= i < eps.len() implies #[trigger] zero_pad(dec_digits(eps[i].sort as nat), ep_width(eps)).len()
        == ep_width(eps) by {
        assert(ep_sorts(eps)[i] == eps[i].sort);
        lemma_max_sort_bound(ep_sorts(eps), i);
        lemma_dec_digits_len_mono(eps[i].sort as nat, max_sort(ep_sorts(eps)) as nat);
    }
}

proof fn lemma_keep_listed_members(ps: Seq<Seq<char>>, sufs: Seq<char>)
    ensures
        forall|k: int|
            0 <= k < keep_listed(ps, sufs).len() ==> ps.contains(#[trigger] keep_listed(ps, sufs)[k])
                && listed_ext(keep_listed(ps, sufs)[k], sufs),
    decreases ps.len(),
{
    if ps.len() > 0 {
        lemma_keep_listed_members(ps.drop_last(), sufs);
        let sub = keep_listed(ps.drop_last(), sufs);
        assert forall|k: int| 0 <= k < keep_listed(ps, sufs).len() implies ps.contains(
            #[trigger] keep_listed(ps, sufs)[k],
        ) && listed_ext(keep_listed(ps, sufs)[k], sufs) by {
            if k < sub.len() {
                assert(keep_listed(ps, sufs)[k] == sub[k]);
                let j = choose|j: int| 0 <= j < ps.drop_last().len() && ps.drop_last()[j] == sub[k];
                assert(ps[j] == sub[k]);
            } else {
                assert(keep_listed(ps, sufs)[k] == ps.last());
                assert(ps[ps.len() - 1] == ps.last());
            }
        }
    }
}

proof fn lemma_rename_ops_sources(n: nat, src: FilesView, dst: FilesView, videos: Seq<Seq<char>>, subs: Seq<Seq<char>>)
    requires
        n <= src.video.len(),
        src.sub.len() > 0 ==> src.sub.len() >= src.video.len(),
        src.sub_sc.len() > 0 ==> src.sub_sc.len() >= src.video.len(),
        src.sub_tc.len() > 0 ==> src.sub_tc.len() >= src.video.len(),
        forall|i: int| 0 <= i < src.video.len() ==> videos.contains(#[trigger] src.video[i]),
        forall|i: int| 0 <= i < src.sub.len() ==> subs.contains(#[trigger] src.sub[i]),
        forall|i: int| 0 <= i < src.sub_sc.len() ==> subs.contains(#[trigger] src.sub_sc[i]),
        forall|i: int| 0 <= i < src.sub_tc.len() ==> subs.contains(#[trigger] src.sub_tc[i]),
    ensures
        forall|k: int|
            0 <= k < rename_ops(n, src, dst).len() ==> match #[trigger] rename_ops(n, src, dst)[k] {
                LinkOpView::HardLink(s, _) => videos.contains(s),
                LinkOpView::Copy(s, _) => subs.contains(s),
            },
    decreases n,
{
    if n > 0 {
        let i = n - 1;
        lemma_rename_ops_sources((n - 1) as nat, src, dst, videos, subs);
        let prev = rename_ops((n - 1) as nat, src, dst);
        let a = seq![LinkOpView::HardLink(src.video[i], dst.video[i])];
        let b = copy_step(src.sub, dst.sub, i);
        let c = copy_step(src.sub_sc, dst.sub_sc, i);
        let d = copy_step(src.sub_tc, dst.sub_tc, i);
        let all = rename_ops(n, src, dst);
        assert(all == prev + a + b + c + d);
        assert forall|k: int| 0 <= k < all.len() implies match #[trigger] all[k] {
            LinkOpView::HardLink(s, _) => videos.contains(s),
            LinkOpView::Copy(s, _) => subs.contains(s),
        } by {
            if k < prev.len() {
                assert(all[k] == prev[k]);
            } else if k < prev.len() + 1 {
                assert(all[k] == a[0]);
                assert(videos.contains(src.video[i]));
            } else if k < prev.len() + 1 + b.len() {
                assert(all[k] == b[k - prev.len() - 1]);
                assert(subs.contains(src.sub[i]));
            } else if k < prev.len() + 1 + b.len() + c.len() {
                assert(all[k] == c[k - prev.len() - 1 - b.len()]);
                assert(subs.contains(src.sub_sc[i]));
            } else {
                assert(all[k] == d[k - prev.len() - 1 - b.len() - c.len()]);
                assert(subs.contains(src.sub_tc[i]));
            }
        }
    }
}

proof fn lemma_keyed_len(s: Seq<Seq<char>>, r: Seq<Seq<char>>, keys: Seq<i32>)
    requires
        sorted_by_keys(s, r, keys),
    ensures
        r.len() == s.len(),
{
    let perm = choose|perm: Seq<int>| stable_perm(s, r, perm, keys);
}

proof fn lemma_sorted_len(s: Seq<Seq<char>>, r: Seq<Seq<char>>)
    requires
        sorted_by_episode(s, r),
    ensures
        r.len() == s.len(),
{
    let keys = choose|keys: Seq<i32>| sorted_by_keys(s, r, keys);
    let perm = choose|perm: Seq<int>| stable_perm(s, r, perm, keys);
}

proof fn lemma_sorted_members(s: Seq<Seq<char>>, r: Seq<Seq<char>>, pool: Seq<Seq<char>>)
    requires
        sorted_by_episode(s, r),
        forall|i: int| 0 <= i < s.len() ==> pool.contains(#[trigger] s[i]),
    ensures
        r.len() == s.len(),
        forall|i: int| 0 <= i < r.len() ==> pool.contains(#[trigger] r[i]),
{
    let keys = choose|keys: Seq<i32>| sorted_by_keys(s, r, keys);
    let perm = choose|perm: Seq<int>| stable_perm(s, r, perm, keys);
    assert forall|i: int| 0 <= i < r.len() implies pool.contains(#[trigger] r[i]) by {
        assert(0 <= perm[i] < s.len() && r[i] == s[perm[i]]);
    }
}

/// Linking a folder hard-links only video files of the folder ("mp4 mkv avi
/// flv"), and copies only files of its subtitle groups.
pub proof fn lemma_links_videos_copies_subtitles(
    listing: Seq<Seq<char>>,
    dir: Seq<char>,
    names: Seq<Seq<char>>,
    ops: Seq<LinkOpView>,
)
    requires
        link_rename_ok(listing, names.len()),
        renamed_as(listing, dir, names, ops),
    ensures
        forall|k: int|
            0 <= k < ops.len() ==> match #[trigger] ops[k] {
                LinkOpView::HardLink(s, _) => listing.contains(s) && listed_ext(s, "mp4 mkv avi flv"@),
                LinkOpView::Copy(s, _) => {
                    let g = source_groups(listing, "mp4 mkv avi flv"@);
                    g.sub.contains(s) || g.sub_sc.contains(s) || g.sub_tc.contains(s)
                },
            },
{
    let g = source_groups(listing, "mp4 mkv avi flv"@);
    let sorted = choose|sorted: FilesView|
        groups_sorted(g, sorted) && ops == rename_ops(
            sorted.video.len(),
            sorted,
            rename_targets(out_paths(dir, names), g),
        );
    let dst = rename_targets(out_paths(dir, names), g);
    let videos = g.video;
    let subs = g.sub + g.sub_sc + g.sub_tc;
    assert forall|i: int| 0 <= i < g.video.len() implies videos.contains(#[trigger] g.video[i]) by {
        assert(videos[i] == g.video[i]);
    }
    assert forall|i: int| 0 <= i < g.sub.len() implies subs.contains(#[trigger] g.sub[i]) by {
        assert(subs[i] == g.sub[i]);
    }
    assert forall|i: int| 0 <= i < g.sub_sc.len() implies subs.contains(#[trigger] g.sub_sc[i]) by {
        assert(subs[g.sub.len() + i] == g.sub_sc[i]);
    }
    assert forall|i: int| 0 <= i < g.sub_tc.len() implies subs.contains(#[trigger] g.sub_tc[i]) by {
        assert(subs[g.sub.len() + g.sub_sc.len() + i] == g.sub_tc[i]);
    }
    lemma_sorted_members(g.video, sorted.video, videos);
    lemma_sorted_members(g.sub, sorted.sub, subs);
    lemma_sorted_members(g.sub_sc, sorted.sub_sc, subs);
    lemma_sorted_members(g.sub_tc, sorted.sub_tc, subs);
    lemma_rename_ops_sources(sorted.video.len(), sorted, dst, videos, subs);
    lemma_keep_listed_members(listing, "mp4 mkv avi flv"@);
    assert forall|k: int| 0 <= k < ops.len() implies match #[trigger] ops[k] {
        LinkOpView::HardLink(s, _) => listing.contains(s) && listed_ext(s, "mp4 mkv avi flv"@),
        LinkOpView::Copy(s, _) => g.sub.contains(s) || g.sub_sc.contains(s) || g.sub_tc.contains(s),
    } by {
        match ops[k] {
            LinkOpView::HardLink(s, _) => {
                assert(videos.contains(s));
                let j = choose|j: int| 0 <= j < videos.len() && videos[j] == s;
                assert(listing.contains(keep_listed(listing, "mp4 mkv avi flv"@)[j]));
            },
            LinkOpView::Copy(s, _) => {
                assert(subs.contains(s));
                let j = choose|j: int| 0 <= j < subs.len() && subs[j] == s;
                if j < g.sub.len() {
                    assert(subs[j] == g.sub[j]);
                } else if j < g.sub.len() + g.sub_sc.len() {
                    assert(subs[j] == g.sub_sc[j - g.sub.len()]);
                } else {
                    assert(subs[j] == g.sub_tc[j - g.sub.len() - g.sub_sc.len()]);
                }
            },
        }
    }
}

} // verus!
