//! File and folder names: replacing characters that file systems refuse,
//! guessing the anime title from a release folder name, shortening paths for
//! display, and the names renamed episodes and their subtitles get.
use vstd::prelude::*;
use vstd::utf8::encode_utf8;
use crate::paths::{file_name_extension, file_name_of, join_path, name_extension, path_extension, path_extension_of, path_file_name};
use crate::url::has_prefix;
use crate::text::{
    char_is_ws, chars_eq_ignore_ascii_case, chars_of, eq_ignore_ascii_case, find_char, find_from,
    is_ws, lemma_find_from_bounds, push_range, rfind, string_of_range, trim, trim_bounds, trim_start,
};

verus! {

/// The full-width stand-in for a character that file names may not hold;
/// other characters are kept.
pub open spec fn clean_char(c: char) -> char {
    if c == '/' {
        '／'
    } else if c == '\\' {
        '＼'
    } else if c == '<' {
        '＜'
    } else if c == '>' {
        '＞'
    } else if c == ':' {
        '：'
    } else if c == '*' {
        '＊'
    } else if c == '?' {
        '？'
    } else if c == '"' {
        '＂'
    } else if c == '|' {
        '｜'
    } else {
        c
    }
}

/// The stand-in [`replace2`] puts for each of the four characters it replaces: '/', '\', '<', '>'.
pub open spec fn replace2_char(c: char) -> char {
    if c == '/' {
        '／'
    } else if c == '\\' {
        '＼'
    } else if c == '<' {
        '＜'
    } else if c == '>' {
        '＞'
    } else {
        c
    }
}

/// Every character of `s` cleaned.
pub open spec fn cleaned(s: Seq<char>) -> Seq<char> {
    s.map_values(|c: char| clean_char(c))
}

/// Every character of `s` passed through [`replace2_char`].
pub open spec fn replaced2(s: Seq<char>) -> Seq<char> {
    s.map_values(|c: char| replace2_char(c))
}

fn clean_one(c: char) -> (r: char)
    ensures
        r == clean_char(c),
{
    if c == '/' {
        '／'
    } else if c == '\\' {
        '＼'
    } else if c == '<' {
        '＜'
    } else if c == '>' {
        '＞'
    } else if c == ':' {
        '：'
    } else if c == '*' {
        '＊'
    } else if c == '?' {
        '？'
    } else if c == '"' {
        '＂'
    } else if c == '|' {
        '｜'
    } else {
        c
    }
}

fn replace2_one(c: char) -> (r: char)
    ensures
        r == replace2_char(c),
{
    if c == '/' {
        '／'
    } else if c == '\\' {
        '＼'
    } else if c == '<' {
        '＜'
    } else if c == '>' {
        '＞'
    } else {
        c
    }
}

/// Replaces `/ \ < > : * ? " |` with their full-width forms.
pub fn clean_filename(s: &str) -> (r: String)
    ensures
        r@ == cleaned(s@),
{
    let cs = chars_of(s);
    let mut out = String::new();
    let mut i: usize = 0;
    while i < cs.len()
        invariant
            i <= cs@.len(),
            cs@ == s@,
            out@ == cleaned(cs@.take(i as int)),
        decreases cs@.len() - i,
    {
        out.push(clean_one(cs[i]));
        i = i + 1;
        assert(out@ =~= cleaned(cs@.take(i as int)));
    }
    assert(cs@.take(cs@.len() as int) =~= cs@);
    out
}

/// Replaces the characters that file names may not hold, as [`clean_filename`] does.
pub fn replace_invalid_chars(s: &str) -> (r: String)
    ensures
        r@ == cleaned(s@),
{
    clean_filename(s)
}

/// Replaces '/', '\', '<' and '>' with their full-width forms.
pub fn replace2(s: &str) -> (r: String)
    ensures
        r@ == replaced2(s@),
{
    let cs = chars_of(s);
    let mut out = String::new();
    let mut i: usize = 0;
    while i < cs.len()
        invariant
            i <= cs@.len(),
            cs@ == s@,
            out@ == replaced2(cs@.take(i as int)),
        decreases cs@.len() - i,
    {
        out.push(replace2_one(cs[i]));
        i = i + 1;
        assert(out@ =~= replaced2(cs@.take(i as int)));
    }
    assert(cs@.take(cs@.len() as int) =~= cs@);
    out
}

// ---------------------------------------------------------------- anime names

/// The bracketed tags at the start of `s` from `pos` on: each '[' followed
/// (somewhere) by a ']' gives the range between them; reading stops at the
/// first position that does not start such a tag, which is returned too.
pub open spec fn leading_tags(s: Seq<char>, pos: int) -> (Seq<(int, int)>, int)
    decreases s.len() - pos,
{
    if 0 <= pos < s.len() && s[pos] == '[' {
        let end = find_from(s, ']', pos + 1);
        proof {
            lemma_find_from_bounds(s, ']', pos + 1);
        }
        if end >= s.len() {
            (Seq::empty(), pos)
        } else {
            let rest = leading_tags(s, end + 1);
            (seq![(pos + 1, end)] + rest.0, rest.1)
        }
    } else {
        (Seq::empty(), pos)
    }
}

/// The text of the `i`-th leading tag.
pub open spec fn tag_text(s: Seq<char>, tags: Seq<(int, int)>, i: int) -> Seq<char> {
    s.subrange(tags[i].0, tags[i].1)
}

/// The title of a name that starts with '[': the third tag after a leading
/// "[Rev]", else the second tag, else the text after the tags up to the next
/// '[' — whichever is first non-blank, trimmed.
pub open spec fn title_from_tags(s: Seq<char>) -> Option<Seq<char>> {
    if s.len() > 0 && s[0] == '[' {
        let (tags, rest) = leading_tags(s, 0);
        let after = trim_start(s.skip(rest));
        let part = trim(after.take(find_from(after, '[', 0)));
        if tags.len() >= 3 && eq_ignore_ascii_case(tag_text(s, tags, 0), "rev"@) && trim(
            tag_text(s, tags, 2),
        ).len() > 0 {
            Some(trim(tag_text(s, tags, 2)))
        } else if tags.len() >= 2 && trim(tag_text(s, tags, 1)).len() > 0 {
            Some(trim(tag_text(s, tags, 1)))
        } else if after.len() > 0 && part.len() > 0 {
            Some(part)
        } else {
            None
        }
    } else {
        None
    }
}

/// The title of a name of the form `title_rest`: the text before the first
/// '_', trimmed, when there is a '_' and that text is not blank.
pub open spec fn title_before_underscore(s: Seq<char>) -> Option<Seq<char>> {
    let u = find_from(s, '_', 0);
    if u < s.len() && trim(s.take(u)).len() > 0 {
        Some(trim(s.take(u)))
    } else {
        None
    }
}

/// The anime title guessed from a release folder name.
pub open spec fn anime_title(s: Seq<char>) -> Option<Seq<char>> {
    match title_from_tags(s) {
        Some(t) => Some(t),
        None => title_before_underscore(s),
    }
}

/// The bracketed tags read from `pos` on, and the point where reading stops, lie within the name.
pub proof fn lemma_leading_tags_bounds(s: Seq<char>, pos: int)
    requires
        0 <= pos <= s.len(),
    ensures
        pos <= leading_tags(s, pos).1 <= s.len(),
        forall|i: int|
            0 <= i < leading_tags(s, pos).0.len() ==> pos < (#[trigger] leading_tags(s, pos).0[i]).0
                <= leading_tags(s, pos).0[i].1 < s.len(),
    decreases s.len() - pos,
{
    if 0 <= pos < s.len() && s[pos] == '[' {
        lemma_find_from_bounds(s, ']', pos + 1);
        let end = find_from(s, ']', pos + 1);
        if end < s.len() {
            lemma_leading_tags_bounds(s, end + 1);
        }
    }
}

/// The first `c` at or after `i` is at `j` when `s[j]` is `c` and none comes
/// between.
proof fn lemma_find_from_at(s: Seq<char>, c: char, i: int, j: int)
    requires
        0 <= i <= j < s.len(),
        s[j] == c,
        forall|k: int| i <= k < j ==> s[k] != c,
    ensures
        find_from(s, c, i) == j,
{
    lemma_find_from_bounds(s, c, i);
}

/// A name that starts with two bracketed tags `[g][t]`, where `g` is not
/// "rev" (in any ASCII case) and `t` is not blank, has the trimmed `t` as
/// its title, whatever follows.
pub proof fn lemma_second_tag_is_title(g: Seq<char>, t: Seq<char>, rest: Seq<char>)
    requires
        !g.contains(']'),
        !t.contains(']'),
        !eq_ignore_ascii_case(g, "rev"@),
        trim(t).len() > 0,
    ensures
        anime_title(seq!['['] + g + seq![']', '['] + t + seq![']'] + rest) == Some(trim(t)),
{
    let s = seq!['['] + g + seq![']', '['] + t + seq![']'] + rest;
    let a: int = g.len() as int + 1;
    let b: int = a + 2 + t.len() as int;
    assert(s[0] == '[');
    assert(s[a] == ']');
    assert forall|k: int| 1 <= k < a implies s[k] != ']' by {
        assert(s[k] == g[k - 1]);
        if s[k] == ']' {
            assert(g.contains(']'));
        }
    }
    lemma_find_from_at(s, ']', 1, a);
    assert(s[a + 1] == '[');
    assert(s[b] == ']');
    assert forall|k: int| a + 2 <= k < b implies s[k] != ']' by {
        assert(s[k] == t[k - a - 2]);
        if s[k] == ']' {
            assert(t.contains(']'));
        }
    }
    lemma_find_from_at(s, ']', a + 2, b);
    let inner = leading_tags(s, a + 1);
    assert(inner.0[0] == (a + 2, b));
    let tags = leading_tags(s, 0).0;
    assert(tags == seq![(1int, a)] + inner.0);
    assert(tags[0] == (1int, a));
    assert(tags[1] == (a + 2, b));
    assert(tag_text(s, tags, 0) =~= g);
    assert(tag_text(s, tags, 1) =~= t);
}

/// Reads the leading tags of `s`.
fn read_leading_tags(s: &[char]) -> (r: (Vec<(usize, usize)>, usize))
    ensures
        r.1 == leading_tags(s@, 0).1,
        r.0@.len() == leading_tags(s@, 0).0.len(),
        forall|i: int|
            0 <= i < r.0@.len() ==> (#[trigger] r.0@[i]).0 == leading_tags(s@, 0).0[i].0 && r.0@[i].1
                == leading_tags(s@, 0).0[i].1,
{
    let mut tags: Vec<(usize, usize)> = Vec::new();
    let mut pos: usize = 0;
    loop
        invariant
            pos <= s@.len(),
            leading_tags(s@, 0).1 == leading_tags(s@, pos as int).1,
            leading_tags(s@, 0).0.len() == tags@.len() + leading_tags(s@, pos as int).0.len(),
            forall|i: int|
                0 <= i < tags@.len() ==> (#[trigger] tags@[i]).0 == leading_tags(s@, 0).0[i].0
                    && tags@[i].1 == leading_tags(s@, 0).0[i].1,
            forall|i: int|
                0 <= i < leading_tags(s@, pos as int).0.len() ==> #[trigger] leading_tags(
                    s@,
                    pos as int,
                ).0[i] == leading_tags(s@, 0).0[tags@.len() + i],
        decreases s@.len() - pos,
    {
        if pos >= s.len() || s[pos] != '[' {
            return (tags, pos);
        }
        let end = find_char(s, ']', pos + 1);
        proof {
            lemma_find_from_bounds(s@, ']', pos as int + 1);
        }
        if end >= s.len() {
            return (tags, pos);
        }
        proof {
            let rest = leading_tags(s@, end + 1);
            assert(leading_tags(s@, pos as int).0 == seq![(pos + 1, end as int)] + rest.0);
            assert forall|i: int| 0 <= i < rest.0.len() implies #[trigger] rest.0[i] == leading_tags(
                s@,
                0,
            ).0[tags@.len() + 1 + i] by {
                assert(leading_tags(s@, pos as int).0[i + 1] == rest.0[i]);
            }
            assert(leading_tags(s@, pos as int).0[0] == (pos + 1, end as int));
        }
        tags.push((pos + 1, end));
        pos = end + 1;
    }
}

/// Guesses the anime title from a release folder name: `[Group][Title][..]`,
/// `[Rev][Group][Title][..]`, `[Group] Title [..]`, or `Title_rest`.
pub fn extract_anime_name_regex(file_name: &str) -> (r: Option<String>)
    ensures
        r.deep_view() == anime_title(file_name@),
{
    let s = chars_of(file_name);
    if s.len() > 0 && s[0] == '[' {
        let (tags, rest) = read_leading_tags(&s);
        proof {
            lemma_leading_tags_bounds(s@, 0);
        }
        if tags.len() >= 3 {
            let (a0, b0) = tags[0];
            let (a2, b2) = tags[2];
            let t0 = crate::http::copy_range(&s, a0, b0);
            let rev = chars_of("rev");
            if chars_eq_ignore_ascii_case(&t0, &rev) {
                let (x, y) = trim_bounds(&s, a2, b2);
                if x < y {
                    return Some(string_of_range(&s, x, y));
                }
            }
        }
        if tags.len() >= 2 {
            let (a1, b1) = tags[1];
            let (x, y) = trim_bounds(&s, a1, b1);
            if x < y {
                return Some(string_of_range(&s, x, y));
            }
        }
        let (ta, _tb) = trim_bounds(&s, rest, s.len());
        let ghost after = trim_start(s@.skip(rest as int));
        assert(s@.skip(rest as int) =~= s@.subrange(rest as int, s@.len() as int));
        assert(after =~= s@.subrange(ta as int, s@.len() as int));
        if ta < s.len() {
            let bracket = find_char(&s, '[', ta);
            proof {
                crate::url::lemma_find_from_shift(s@, '[', ta as int);
                lemma_find_from_bounds(s@, '[', ta as int);
                assert(s@.skip(ta as int) =~= after);
                assert(after.take(bracket - ta) =~= s@.subrange(ta as int, bracket as int));
            }
            let (x, y) = trim_bounds(&s, ta, bracket);
            if x < y {
                return Some(string_of_range(&s, x, y));
            }
        }
    }
    let u = find_char(&s, '_', 0);
    proof {
        lemma_find_from_bounds(s@, '_', 0);
    }
    if u < s.len() {
        let (x, y) = trim_bounds(&s, 0, u);
        assert(s@.take(u as int) =~= s@.subrange(0, u as int));
        if x < y {
            return Some(string_of_range(&s, x, y));
        }
    }
    None
}


// ---------------------------------------------------------------- folder titles

/// The first position at or after `i` holding '[' or ']', or `s.len()`.
pub open spec fn find_bracket(s: Seq<char>, i: int) -> int
    decreases s.len() - i,
{
    if i < 0 || i >= s.len() {
        s.len() as int
    } else if s[i] == '[' || s[i] == ']' {
        i
    } else {
        find_bracket(s, i + 1)
    }
}

/// The search for a bracket from `i` stops within the name.
pub proof fn lemma_find_bracket_bounds(s: Seq<char>, i: int)
    requires
        0 <= i <= s.len(),
    ensures
        i <= find_bracket(s, i) <= s.len(),
    decreases s.len() - i,
{
    if i < s.len() && !(s[i] == '[' || s[i] == ']') {
        lemma_find_bracket_bounds(s, i + 1);
    }
}

/// The non-blank pieces of `s[pos..]` between brackets, trimmed, in order.
pub open spec fn bracket_parts_from(s: Seq<char>, pos: int) -> Seq<Seq<char>>
    decreases s.len() - pos,
{
    if pos < 0 || pos > s.len() {
        Seq::empty()
    } else {
        let e = find_bracket(s, pos);
        proof {
            lemma_find_bracket_bounds(s, pos);
        }
        let part = trim(s.subrange(pos, e));
        let head = if part.len() > 0 {
            seq![part]
        } else {
            Seq::empty()
        };
        if e < s.len() {
            head + bracket_parts_from(s, e + 1)
        } else {
            head
        }
    }
}

/// The title of a tagged folder name: the third bracketed piece of
/// `[Group][Status]Title` (or `[rev][Group]Title`), or the second of
/// `[Group]Title` when there are only two.
pub open spec fn tagged_title(s: Seq<char>) -> Option<Seq<char>> {
    if s.len() > 0 && s[0] == '[' {
        let parts = bracket_parts_from(s, 0);
        if parts.len() >= 3 {
            Some(parts[2])
        } else if parts.len() == 2 {
            Some(parts[1])
        } else {
            None
        }
    } else {
        None
    }
}

/// The title of a `Title_rest` folder name: the text before the first '_'
/// (all of it when there is none), trimmed, when not blank.
pub open spec fn simple_title(s: Seq<char>) -> Option<Seq<char>> {
    let t = trim(s.take(find_from(s, '_', 0)));
    if t.len() > 0 {
        Some(t)
    } else {
        None
    }
}

/// The title guessed from the last component of a folder path.
pub open spec fn folder_title(path: Seq<char>) -> Option<Seq<char>> {
    match file_name_of(path) {
        Some(n) => match tagged_title(n) {
            Some(t) => Some(t),
            None => simple_title(n),
        },
        None => None,
    }
}

/// The non-blank bracket pieces of `s`, trimmed.
fn bracket_parts(s: &[char]) -> (r: Vec<String>)
    ensures
        r@.len() == bracket_parts_from(s@, 0).len(),
        forall|i: int| 0 <= i < r@.len() ==> #[trigger] r@[i]@ == bracket_parts_from(s@, 0)[i],
{
    let mut out: Vec<String> = Vec::new();
    let mut pos: usize = 0;
    let ghost parts = bracket_parts_from(s@, 0);
    loop
        invariant_except_break
            pos <= s@.len(),
            parts.len() == out@.len() + bracket_parts_from(s@, pos as int).len(),
            forall|i: int|
                0 <= i < bracket_parts_from(s@, pos as int).len() ==> #[trigger] bracket_parts_from(
                    s@,
                    pos as int,
                )[i] == parts[out@.len() + i],
        invariant
            parts == bracket_parts_from(s@, 0),
            forall|i: int| 0 <= i < out@.len() ==> #[trigger] out@[i]@ == parts[i],
        ensures
            parts.len() == out@.len(),
        decreases s@.len() - pos,
    {
        let mut e = pos;
        while e < s.len() && s[e] != '[' && s[e] != ']'
            invariant
                pos <= e <= s@.len(),
                find_bracket(s@, pos as int) == find_bracket(s@, e as int),
            decreases s@.len() - e,
        {
            e = e + 1;
        }
        proof {
            lemma_find_bracket_bounds(s@, pos as int);
        }
        let ghost rest = bracket_parts_from(s@, pos as int);
        let (a, b) = trim_bounds(s, pos, e);
        if a < b {
            proof {
                assert(rest[0] == s@.subrange(a as int, b as int));
            }
            out.push(string_of_range(s, a, b));
            proof {
                if e < s@.len() {
                    assert forall|i: int| 0 <= i < bracket_parts_from(s@, e + 1).len() implies #[trigger] bracket_parts_from(
                        s@,
                        e + 1,
                    )[i] == parts[out@.len() + i] by {
                        assert(rest[i + 1] == bracket_parts_from(s@, e + 1)[i]);
                    }
                }
            }
        } else {
            proof {
                if e < s@.len() {
                    assert(rest =~= bracket_parts_from(s@, e + 1));
                }
            }
        }
        if e >= s.len() {
            break;
        }
        pos = e + 1;
    }
    out
}

/// The title of a tagged folder name: `[Group][Status]Title`, `[rev][Group]Title` or `[Group]Title`.
pub fn extract_from_tagged_format(dir_name: &str) -> (r: Option<String>)
    ensures
        r.deep_view() == tagged_title(dir_name@),
{
    let s = chars_of(dir_name);
    if !(s.len() > 0 && s[0] == '[') {
        return None;
    }
    let parts = bracket_parts(&s);
    if parts.len() >= 3 {
        Some(parts[2].clone())
    } else if parts.len() == 2 {
        Some(parts[1].clone())
    } else {
        None
    }
}

/// The title of a `Title_rest` folder name.
pub fn extract_from_simple_format(dir_name: &str) -> (r: Option<String>)
    ensures
        r.deep_view() == simple_title(dir_name@),
{
    let s = chars_of(dir_name);
    let u = find_char(&s, '_', 0);
    proof {
        lemma_find_from_bounds(s@, '_', 0);
    }
    let (a, b) = trim_bounds(&s, 0, u);
    assert(s@.take(u as int) =~= s@.subrange(0, u as int));
    if a < b {
        Some(string_of_range(&s, a, b))
    } else {
        None
    }
}

/// Guesses the anime title from the last component of a folder path.
pub fn extract_anime_name_from_path(path_str: &str) -> (r: Option<String>)
    ensures
        r.deep_view() == folder_title(path_str@),
{
    let name = match path_file_name(path_str) {
        Some(n) => n,
        None => {
            return None;
        },
    };
    match extract_from_tagged_format(name.as_str()) {
        Some(t) => Some(t),
        None => extract_from_simple_format(name.as_str()),
    }
}

/// A path shortened to at most `max_len` characters for display: kept when
/// it fits; cut when `max_len` leaves no room for "..."; else the start, "..."
/// and the file name when that fits with at least one character of the start,
/// or "..." and the end.
pub open spec fn shortened(p: Seq<char>, max_len: nat) -> Seq<char> {
    if p.len() == 0 {
        Seq::empty()
    } else if p.len() <= max_len {
        p
    } else if max_len <= 3 {
        p.take(max_len as int)
    } else {
        let f = match file_name_of(p) {
            Some(n) => n,
            None => Seq::empty(),
        };
        if f.len() > 0 && max_len > f.len() + 3 {
            p.take(max_len - f.len() - 3) + seq!['.', '.', '.'] + f
        } else {
            seq!['.', '.', '.'] + p.skip(p.len() - (max_len - 3))
        }
    }
}

/// Shortens a path for display in a label of `max_len` characters.
pub fn shorten_path_for_display(path_str: &str, max_len: usize) -> (r: String)
    ensures
        r@ == shortened(path_str@, max_len as nat),
{
    let p = chars_of(path_str);
    if p.len() == 0 {
        return String::new();
    }
    if p.len() <= max_len {
        return path_str.to_owned();
    }
    if max_len <= 3 {
        return string_of_range(&p, 0, max_len);
    }
    let f = match path_file_name(path_str) {
        Some(n) => chars_of(n.as_str()),
        None => Vec::new(),
    };
    if f.len() > 0 && max_len - 3 > f.len() {
        let mut out = string_of_range(&p, 0, max_len - 3 - f.len());
        out.push('.');
        out.push('.');
        out.push('.');
        push_range(&mut out, &f, 0, f.len());
        assert(f@.subrange(0, f@.len() as int) =~= f@);
        assert(out@ =~= shortened(path_str@, max_len as nat));
        return out;
    }
    let mut out = String::new();
    out.push('.');
    out.push('.');
    out.push('.');
    push_range(&mut out, &p, p.len() - (max_len - 3), p.len());
    assert(out@ =~= shortened(path_str@, max_len as nat));
    out
}


// ---------------------------------------------------------------- extensions

/// `ext` equals some entry of `list` up to ASCII case.
pub open spec fn in_ext_list(ext: Seq<char>, list: Seq<Seq<char>>) -> bool {
    exists|i: int| 0 <= i < list.len() && eq_ignore_ascii_case(ext, #[trigger] list[i])
}

/// The extensions of the video files the renamer lists.
pub open spec fn video_extensions() -> Seq<Seq<char>> {
    seq!["mp4"@, "avi"@, "mkv"@, "mov"@, "wmv"@, "flv"@, "webm"@]
}

/// The extensions of the subtitle files that travel with a video.
pub open spec fn subtitle_extensions() -> Seq<Seq<char>> {
    seq!["srt"@, "ass"@, "ssa"@, "vtt"@, "sub"@, "idx"@, "sup"@]
}

/// The views of a list of string slices.
pub open spec fn str_views(list: Seq<&str>) -> Seq<Seq<char>> {
    list.map_values(|s: &str| s@)
}

/// The views of a list of strings.
pub open spec fn string_views(list: Seq<String>) -> Seq<Seq<char>> {
    list.map_values(|s: String| s@)
}

/// Whether `ext` is in `list`, ignoring ASCII case.
pub fn ext_in_list_ignore_ascii_case(ext: &str, list: &[&str]) -> (r: bool)
    ensures
        r == in_ext_list(ext@, str_views(list@)),
{
    let e = chars_of(ext);
    let mut i: usize = 0;
    while i < list.len()
        invariant
            i <= list@.len(),
            e@ == ext@,
            forall|j: int| 0 <= j < i ==> !eq_ignore_ascii_case(ext@, #[trigger] str_views(list@)[j]),
        decreases list@.len() - i,
    {
        let k = chars_of(list[i]);
        if chars_eq_ignore_ascii_case(&e, &k) {
            assert(str_views(list@)[i as int] == list@[i as int]@);
            return true;
        }
        assert(str_views(list@)[i as int] == list@[i as int]@);
        i = i + 1;
    }
    proof {
        if in_ext_list(ext@, str_views(list@)) {
            let j = choose|j: int| 0 <= j < str_views(list@).len() && eq_ignore_ascii_case(ext@, #[trigger] str_views(list@)[j]);
            assert(!eq_ignore_ascii_case(ext@, str_views(list@)[j]));
        }
    }
    false
}

/// The video extensions, in the order the renamer checks them.
pub fn video_extension_list() -> (r: Vec<&'static str>)
    ensures
        str_views(r@) == video_extensions(),
{
    let r = vec!["mp4", "avi", "mkv", "mov", "wmv", "flv", "webm"];
    assert(str_views(r@) =~= video_extensions());
    r
}

/// The subtitle extensions, in the order the renamer checks them.
pub fn subtitle_extension_list() -> (r: Vec<&'static str>)
    ensures
        str_views(r@) == subtitle_extensions(),
{
    let r = vec!["srt", "ass", "ssa", "vtt", "sub", "idx", "sup"];
    assert(str_views(r@) =~= subtitle_extensions());
    r
}

/// Whether `ext` names a video file.
pub fn is_video_extension(ext: &str) -> (r: bool)
    ensures
        r == in_ext_list(ext@, video_extensions()),
{
    let list = video_extension_list();
    ext_in_list_ignore_ascii_case(ext, list.as_slice())
}

/// Whether `ext` names a subtitle file.
pub fn is_subtitle_extension(ext: &str) -> (r: bool)
    ensures
        r == in_ext_list(ext@, subtitle_extensions()),
{
    let list = subtitle_extension_list();
    ext_in_list_ignore_ascii_case(ext, list.as_slice())
}

/// The names in a directory listing that the file list shows: those with a
/// video extension, in listing order.
pub open spec fn video_files(names: Seq<Seq<char>>) -> Seq<Seq<char>>
    decreases names.len(),
{
    if names.len() == 0 {
        Seq::empty()
    } else {
        let n = names.last();
        let keep = match name_extension(n) {
            Some(e) => in_ext_list(e, video_extensions()),
            None => false,
        };
        video_files(names.drop_last()) + if keep {
            seq![n]
        } else {
            Seq::empty()
        }
    }
}

/// The video files among the names of the regular files of a directory.
pub fn select_video_files(names: &[String]) -> (r: Vec<String>)
    ensures
        string_views(r@) == video_files(string_views(names@)),
{
    let mut out: Vec<String> = Vec::new();
    let mut i: usize = 0;
    while i < names.len()
        invariant
            i <= names@.len(),
            string_views(out@) == video_files(string_views(names@.take(i as int))),
        decreases names@.len() - i,
    {
        assert(string_views(names@.take(i + 1)).drop_last() =~= string_views(names@.take(i as int)));
        assert(string_views(names@.take(i + 1)).last() == names@[i as int]@);
        let keep = match file_name_extension(names[i].as_str()) {
            Some(e) => is_video_extension(e.as_str()),
            None => false,
        };
        if keep {
            out.push(names[i].clone());
        }
        i = i + 1;
        assert(string_views(out@) =~= video_files(string_views(names@.take(i as int))));
    }
    assert(names@.take(names@.len() as int) =~= names@);
    out
}

// ---------------------------------------------------------------- subtitles

/// Unicode alphanumeric (`Alphabetic` or `Numeric`), what `char::is_alphanumeric` tests.
pub uninterp spec fn unicode_alphanumeric(c: char) -> bool;

/// An ASCII letter or digit.
pub open spec fn ascii_alphanumeric(c: char) -> bool {
    ('a' <= c && c <= 'z') || ('A' <= c && c <= 'Z') || ('0' <= c && c <= '9')
}

/// `char::is_alphanumeric`; for ASCII characters it holds exactly of letters and digits.
#[verifier::external_body]
fn is_alphanumeric(c: char) -> (r: bool)
    ensures
        r == unicode_alphanumeric(c),
        c <= '\u{7F}' ==> (r <==> ascii_alphanumeric(c)),
{
    c.is_alphanumeric()
}

/// A name without its last '.' and what follows (all of it when there is no '.').
pub open spec fn stem(name: Seq<char>) -> Seq<char> {
    let d = rfind(name, '.');
    if d >= 0 {
        name.take(d)
    } else {
        name
    }
}

/// A language tag such as "sc" or "zh-Hans": at most 10 bytes of UTF-8, of
/// alphanumerics, '_' and '-'.
pub open spec fn language_tag_ok(lang: Seq<char>) -> bool {
    &&& encode_utf8(lang).len() <= 10
    &&& forall|i: int| 0 <= i < lang.len() ==> unicode_alphanumeric(#[trigger] lang[i]) || lang[i] == '_' || lang[i] == '-'
}

/// The extension of `name` when it is a subtitle of `video`: a subtitle
/// extension, and a stem equal to the video's, or the video's stem, '.', and
/// a language tag.
pub open spec fn subtitle_match(video: Seq<char>, name: Seq<char>) -> Option<Seq<char>> {
    match name_extension(name) {
        None => None,
        Some(ext) => if !in_ext_list(ext, subtitle_extensions()) {
            None
        } else {
            let vb = stem(video);
            let sb = stem(name);
            if sb == vb {
                Some(ext)
            } else if has_prefix(sb, vb + seq!['.']) && language_tag_ok(sb.skip(vb.len() as int + 1)) {
                Some(ext)
            } else {
                None
            }
        },
    }
}

/// The last '.' of `b + "." + x`, when `x` holds no '.', is the one after `b`.
proof fn lemma_last_dot(b: Seq<char>, x: Seq<char>)
    requires
        !x.contains('.'),
    ensures
        rfind(b + seq!['.'] + x, '.') == b.len(),
        stem(b + seq!['.'] + x) == b,
{
    let s = b + seq!['.'] + x;
    crate::text::lemma_rfind_before_bounds(s, '.', s.len() as int);
    let r = rfind(s, '.');
    assert(s[b.len() as int] == '.');
    if r > b.len() {
        assert(s[r] == x[r - b.len() - 1]);
        assert(x.contains('.'));
    }
    assert(s.take(b.len() as int) =~= b);
}

/// A subtitle named like its video, with only the extension changed (the
/// video's name cut at its last '.'), belongs to the video; so does one
/// that adds a language tag between that stem and the extension.
pub proof fn lemma_subtitle_named_after_video_matches(
    base: Seq<char>,
    video_ext: Seq<char>,
    lang: Seq<char>,
    ext: Seq<char>,
)
    requires
        base.len() > 0,
        !video_ext.contains('.'),
        !ext.contains('.'),
        !lang.contains('.'),
        in_ext_list(ext, subtitle_extensions()),
        language_tag_ok(lang),
    ensures
        subtitle_match(base + seq!['.'] + video_ext, base + seq!['.'] + ext) == Some(ext),
        subtitle_match(base + seq!['.'] + video_ext, base + seq!['.'] + lang + seq!['.'] + ext) == Some(ext),
{
    let video = base + seq!['.'] + video_ext;
    lemma_last_dot(base, video_ext);
    let n1 = base + seq!['.'] + ext;
    lemma_last_dot(base, ext);
    let k = choose|k: int| 0 <= k < subtitle_extensions().len() && eq_ignore_ascii_case(ext, #[trigger] subtitle_extensions()[k]);
    reveal_strlit("srt");
    reveal_strlit("ass");
    reveal_strlit("ssa");
    reveal_strlit("vtt");
    reveal_strlit("sub");
    reveal_strlit("idx");
    reveal_strlit("sup");
    assert(subtitle_extensions()[k].len() == 3);
    assert(ext.len() == 3);
    assert(!(n1 =~= seq!['.', '.']));
    assert(n1.skip(base.len() as int + 1) =~= ext);
    let b2 = base + seq!['.'] + lang;
    let n2 = b2 + seq!['.'] + ext;
    lemma_last_dot(b2, ext);
    assert(n2 =~= base + seq!['.'] + lang + seq!['.'] + ext);
    assert(!(n2 =~= seq!['.', '.']));
    assert(n2.skip(b2.len() as int + 1) =~= ext);
    assert(b2.subrange(0, base.len() as int + 1) =~= base + seq!['.']);
    assert(b2.skip(base.len() as int + 1) =~= lang);
    assert(b2 != base);
}

/// The subtitles of `video` among `names`, each with its extension, in order.
pub open spec fn matching_subtitles(video: Seq<char>, names: Seq<Seq<char>>) -> Seq<(Seq<char>, Seq<char>)>
    decreases names.len(),
{
    if names.len() == 0 {
        Seq::empty()
    } else {
        let n = names.last();
        matching_subtitles(video, names.drop_last()) + match subtitle_match(video, n) {
            Some(ext) => seq![(n, ext)],
            None => Seq::empty(),
        }
    }
}

/// The pairs' views.
pub open spec fn pair_views(v: Seq<(String, String)>) -> Seq<(Seq<char>, Seq<char>)> {
    v.map_values(|p: (String, String)| (p.0@, p.1@))
}

/// The stem of a name.
fn stem_of(name: &[char]) -> (r: usize)
    ensures
        r <= name@.len(),
        name@.take(r as int) == stem(name@),
        r < name@.len() ==> name@[r as int] == '.',
        forall|j: int| r < j < name@.len() ==> name@[j] != '.',
        r == name@.len() ==> forall|j: int| 0 <= j < name@.len() ==> name@[j] != '.',
{
    let k = crate::text::rfind_char(name, '.', name.len());
    proof {
        crate::text::lemma_rfind_before_bounds(name@, '.', name@.len() as int);
    }
    if k > 0 {
        k - 1
    } else {
        assert(name@.take(name@.len() as int) =~= name@);
        name.len()
    }
}

/// Whether the characters form an acceptable language tag.
fn language_tag_accepted(lang: &[char]) -> (r: bool)
    ensures
        r == language_tag_ok(lang@),
{
    let text = string_of_range(lang, 0, lang.len());
    assert(lang@.subrange(0, lang@.len() as int) =~= lang@);
    if text.as_str().as_bytes().len() > 10 {
        return false;
    }
    let mut i: usize = 0;
    while i < lang.len()
        invariant
            i <= lang@.len(),
            forall|j: int| 0 <= j < i ==> unicode_alphanumeric(#[trigger] lang@[j]) || lang@[j] == '_' || lang@[j] == '-',
        decreases lang@.len() - i,
    {
        let c = lang[i];
        if !(is_alphanumeric(c) || c == '_' || c == '-') {
            return false;
        }
        i = i + 1;
    }
    true
}

/// The extension of `name` when it is a subtitle of `video`.
pub fn subtitle_extension_for(video: &str, name: &str) -> (r: Option<String>)
    ensures
        r.deep_view() == subtitle_match(video@, name@),
{
    let ext = match file_name_extension(name) {
        None => {
            return None;
        },
        Some(e) => e,
    };
    if !is_subtitle_extension(ext.as_str()) {
        return None;
    }
    let v = chars_of(video);
    let n = chars_of(name);
    let vl = stem_of(&v);
    let nl = stem_of(&n);
    let vb = crate::http::copy_range(&v, 0, vl);
    let sb = crate::http::copy_range(&n, 0, nl);
    assert(vb@ =~= stem(video@));
    assert(sb@ =~= stem(name@));
    if crate::paths::seq_chars_equal(&vb, &sb) {
        return Some(ext);
    }
    let mut prefix = vb.clone();
    prefix.push('.');
    assert(prefix@ =~= stem(video@) + seq!['.']);
    if crate::url::starts_with_chars(&sb, &prefix) {
        let lang = crate::http::copy_range(&sb, vl + 1, nl);
        assert(lang@ =~= stem(name@).skip(stem(video@).len() as int + 1));
        if language_tag_accepted(&lang) {
            return Some(ext);
        }
    }
    None
}

/// The subtitle files of a video among the names of the regular files of its
/// directory, each with its extension, in listing order.
pub fn find_matching_subtitle_files(video_file_name: &str, names: &[String]) -> (r: Vec<(String, String)>)
    ensures
        pair_views(r@) == matching_subtitles(video_file_name@, string_views(names@)),
{
    let mut out: Vec<(String, String)> = Vec::new();
    let mut i: usize = 0;
    while i < names.len()
        invariant
            i <= names@.len(),
            pair_views(out@) == matching_subtitles(video_file_name@, string_views(names@.take(i as int))),
        decreases names@.len() - i,
    {
        assert(string_views(names@.take(i + 1)).drop_last() =~= string_views(names@.take(i as int)));
        assert(string_views(names@.take(i + 1)).last() == names@[i as int]@);
        match subtitle_extension_for(video_file_name, names[i].as_str()) {
            Some(ext) => {
                out.push((names[i].clone(), ext));
            },
            None => {},
        }
        i = i + 1;
        assert(pair_views(out@) =~= matching_subtitles(video_file_name@, string_views(names@.take(i as int))));
    }
    assert(names@.take(names@.len() as int) =~= names@);
    out
}

// ---------------------------------------------------------------- new names

/// The new name of an episode's video file: its cleaned label, with the
/// source file's extension when it has a non-empty one.
pub open spec fn episode_file_name(base: Seq<char>, source: Seq<char>, label: Seq<char>) -> Seq<char> {
    let ext = match path_extension(join_path(base, source)) {
        Some(e) => e,
        None => Seq::empty(),
    };
    if ext.len() == 0 {
        cleaned(label)
    } else {
        cleaned(label) + seq!['.'] + ext
    }
}

/// The new name of a subtitle: the episode's cleaned label, the language
/// part the subtitle adds to the video's stem (if it starts with that stem
/// and a '.'), then '.' and the subtitle's extension.
pub open spec fn subtitle_target_name(
    source: Seq<char>,
    subtitle: Seq<char>,
    ext: Seq<char>,
    cleaned_label: Seq<char>,
) -> Seq<char> {
    let vb = stem(source);
    if has_prefix(subtitle, vb + seq!['.']) {
        cleaned_label + stem(subtitle).skip(vb.len() as int) + seq!['.'] + ext
    } else {
        cleaned_label + seq!['.'] + ext
    }
}

/// The folder an anime is stored in: its cleaned name, a space and the year
/// in full-width brackets, `name （year）`.
pub open spec fn anime_folder_name(name: Seq<char>, year: Seq<char>) -> Seq<char> {
    cleaned(name) + seq![' ', '（'] + year + seq!['）']
}

/// The new file name of an episode's video file.
pub fn new_episode_file_name(base_path: &str, source_file_name: &str, label: &str) -> (r: String)
    ensures
        r@ == episode_file_name(base_path@, source_file_name@, label@),
{
    let joined = crate::paths::path_join(base_path, source_file_name);
    let ext = match path_extension_of(joined.as_str()) {
        Some(e) => e,
        None => String::new(),
    };
    let mut out = clean_filename(label);
    if !ext.as_str().is_empty() {
        out.push('.');
        crate::text::push_str(&mut out, ext.as_str());
    }
    out
}

/// The new file name of a subtitle of an episode.
pub fn new_subtitle_file_name(
    source_file_name: &str,
    subtitle_file_name: &str,
    subtitle_ext: &str,
    cleaned_label: &str,
) -> (r: String)
    ensures
        r@ == subtitle_target_name(source_file_name@, subtitle_file_name@, subtitle_ext@, cleaned_label@),
{
    let v = chars_of(source_file_name);
    let sub = chars_of(subtitle_file_name);
    let vl = stem_of(&v);
    let mut prefix = crate::http::copy_range(&v, 0, vl);
    prefix.push('.');
    assert(prefix@ =~= stem(source_file_name@) + seq!['.']);
    let mut out = cleaned_label.to_owned();
    if crate::url::starts_with_chars(&sub, &prefix) {
        let sl = stem_of(&sub);
        proof {
            crate::text::lemma_rfind_before_bounds(sub@, '.', sub@.len() as int);
            assert(sub@[vl as int] == '.') by {
                assert(sub@.subrange(0, prefix@.len() as int)[vl as int] == prefix@[vl as int]);
            }
            assert(vl < sub@.len());
        }
        assert(vl <= sl);
        push_range(&mut out, &sub, vl, sl);
        assert(sub@.subrange(vl as int, sl as int) =~= stem(subtitle_file_name@).skip(vl as int));
    }
    out.push('.');
    crate::text::push_str(&mut out, subtitle_ext);
    out
}

/// The folder name of an anime with its year.
pub fn new_anime_folder_name(display_name: &str, year: &str) -> (r: String)
    ensures
        r@ == anime_folder_name(display_name@, year@),
{
    let mut out = clean_filename(display_name);
    out.push(' ');
    out.push('（');
    crate::text::push_str(&mut out, year);
    out.push('）');
    out
}

// ---------------------------------------------------------------- laws

/// The characters that file names on Windows cannot hold.
pub open spec fn reserved_char(c: char) -> bool {
    c == '/' || c == '\\' || c == '<' || c == '>' || c == ':' || c == '*' || c == '?' || c == '"' || c == '|'
}

/// A cleaned name holds no reserved character and has as many characters
/// as the name it was made from; cleaning it again changes nothing.
pub proof fn lemma_cleaned_is_safe(s: Seq<char>)
    ensures
        cleaned(s).len() == s.len(),
        forall|i: int| 0 <= i < cleaned(s).len() ==> !reserved_char(#[trigger] cleaned(s)[i]),
        cleaned(cleaned(s)) == cleaned(s),
{
    assert(cleaned(cleaned(s)) =~= cleaned(s));
}

/// A name passed through [`replace2`] holds neither a path separator nor an
/// angle bracket, and passing it again changes nothing.
pub proof fn lemma_replaced2_is_safe(s: Seq<char>)
    ensures
        replaced2(s).len() == s.len(),
        forall|i: int|
            0 <= i < replaced2(s).len() ==> {
                let c = #[trigger] replaced2(s)[i];
                c != '/' && c != '\\' && c != '<' && c != '>'
            },
        replaced2(replaced2(s)) == replaced2(s),
{
    assert(replaced2(replaced2(s)) =~= replaced2(s));
}

} // verus!
