//! Paths as `std::path` reads them on Unix-like systems, where '/' is the
//! only separator: joining, the final component, the extension, and
//! component-wise equality.
use vstd::prelude::*;
use crate::text::{chars_of, find_char, find_from, lemma_find_from_bounds, push_str, rfind, rfind_char, lemma_rfind_before_bounds};

verus! {

/// `base` with `name` pushed onto it, as `PathBuf::push` does: an absolute
/// `name` replaces `base`; otherwise a '/' is put between them unless `base`
/// is empty or already ends with one.
pub open spec fn join_path(base: Seq<char>, name: Seq<char>) -> Seq<char> {
    if name.len() > 0 && name[0] == '/' {
        name
    } else if base.len() == 0 || base.last() == '/' {
        base + name
    } else {
        base + seq!['/'] + name
    }
}

/// Joins `name` onto `base`, as `Path::join` does.
pub fn path_join(base: &str, name: &str) -> (r: String)
    ensures
        r@ == join_path(base@, name@),
{
    let b = chars_of(base);
    let n = chars_of(name);
    if n.len() > 0 && n[0] == '/' {
        return name.to_owned();
    }
    let mut out = base.to_owned();
    if !(b.len() == 0 || b[b.len() - 1] == '/') {
        out.push('/');
    }
    push_str(&mut out, name);
    out
}

/// The segment of `p` that starts at `pos` and runs to the next '/'.
pub open spec fn segment_end(p: Seq<char>, pos: int) -> int {
    find_from(p, '/', pos)
}

/// The range of the last segment of `p[pos..]` that is neither empty nor
/// ".", or `last` when there is none.
pub open spec fn last_segment_from(p: Seq<char>, pos: int, last: Option<(int, int)>) -> Option<(int, int)>
    decreases p.len() - pos,
{
    if pos < 0 || pos > p.len() {
        last
    } else {
        let e = find_from(p, '/', pos);
        proof {
            lemma_find_from_bounds(p, '/', pos);
        }
        let seg = p.subrange(pos, e);
        let next = if seg.len() > 0 && seg != seq!['.'] {
            Some((pos, e))
        } else {
            last
        };
        if e < p.len() {
            last_segment_from(p, e + 1, next)
        } else {
            next
        }
    }
}

/// Where the final component of a path lies when it is a name, as
/// `Path::file_name` finds it: empty and "." segments are skipped, and a
/// final ".." gives none.
pub open spec fn file_name_span(p: Seq<char>) -> Option<(int, int)> {
    match last_segment_from(p, 0, None) {
        Some((a, b)) => if p.subrange(a, b) =~= seq!['.', '.'] {
            None
        } else {
            Some((a, b))
        },
        None => None,
    }
}

/// The final component of a path when it is a name, as `Path::file_name`
/// gives it.
pub open spec fn file_name_of(p: Seq<char>) -> Option<Seq<char>> {
    match file_name_span(p) {
        Some((a, b)) => Some(p.subrange(a, b)),
        None => None,
    }
}

/// The extension of a file name, as `Path::extension` gives it: the text
/// after the last '.', unless the name is "..", has no '.', or has its only
/// '.' first.
pub open spec fn name_extension(name: Seq<char>) -> Option<Seq<char>> {
    let d = rfind(name, '.');
    if name =~= seq!['.', '.'] || d <= 0 {
        None
    } else {
        Some(name.skip(d + 1))
    }
}

/// The extension of the final component of a path.
pub open spec fn path_extension(p: Seq<char>) -> Option<Seq<char>> {
    match file_name_of(p) {
        Some(n) => name_extension(n),
        None => None,
    }
}

/// The last segment found from `pos` on lies within the path.
pub proof fn lemma_last_segment_bounds(p: Seq<char>, pos: int, last: Option<(int, int)>)
    requires
        0 <= pos <= p.len(),
        last matches Some((a, b)) ==> 0 <= a <= b <= p.len(),
    ensures
        last_segment_from(p, pos, last) matches Some((a, b)) ==> 0 <= a <= b <= p.len(),
    decreases p.len() - pos,
{
    lemma_find_from_bounds(p, '/', pos);
    let e = find_from(p, '/', pos);
    let seg = p.subrange(pos, e);
    let next = if seg.len() > 0 && seg != seq!['.'] {
        Some((pos, e))
    } else {
        last
    };
    if e < p.len() {
        lemma_last_segment_bounds(p, e + 1, next);
    }
}

/// Where the final component of the path `p` lies when it is a name.
pub fn file_name_bounds(p: &Vec<char>) -> (r: Option<(usize, usize)>)
    ensures
        match r {
            Some((a, b)) => file_name_span(p@) == Some((a as int, b as int)) && a <= b <= p@.len(),
            None => file_name_span(p@) is None,
        },
{
    let mut last: Option<(usize, usize)> = None;
    let mut pos: usize = 0;
    let ghost init: Option<(int, int)> = None;
    loop
        invariant_except_break
            pos <= p@.len(),
            last_segment_from(p@, 0, init) == last_segment_from(
                p@,
                pos as int,
                match last {
                    Some((a, b)) => Some((a as int, b as int)),
                    None => None,
                },
            ),
        invariant
            last matches Some((a, b)) ==> a <= b <= p@.len(),
        ensures
            last_segment_from(p@, 0, init) == match last {
                Some((a, b)) => Some((a as int, b as int)),
                None => None,
            },
        decreases p@.len() - pos,
    {
        let e = find_char(&p, '/', pos);
        proof {
            lemma_find_from_bounds(p@, '/', pos as int);
        }
        let ghost seg = p@.subrange(pos as int, e as int);
        let is_dot = e > pos && e - pos == 1 && p[pos] == '.';
        assert(seg.len() == e - pos);
        proof {
            if seg =~= seq!['.'] {
                assert(seg[0] == p@[pos as int]);
            }
        }
        assert(is_dot == (seg =~= seq!['.']));
        if e > pos && !is_dot {
            last = Some((pos, e));
        }
        if e >= p.len() {
            break;
        }
        pos = e + 1;
    }
    match last {
        Some((a, b)) => {
            if b - a == 2 && p[a] == '.' && p[a + 1] == '.' {
                assert(p@.subrange(a as int, b as int) =~= seq!['.', '.']);
                None
            } else {
                proof {
                    if p@.subrange(a as int, b as int) =~= seq!['.', '.'] {
                        assert(p@.subrange(a as int, b as int)[0] == p@[a as int]);
                        assert(p@.subrange(a as int, b as int)[1] == p@[a + 1]);
                    }
                }
                Some((a, b))
            }
        },
        None => None,
    }
}

/// The final component of a path when it is a name.
pub fn path_file_name(path: &str) -> (r: Option<String>)
    ensures
        r.deep_view() == file_name_of(path@),
{
    let p = chars_of(path);
    match file_name_bounds(&p) {
        Some((a, b)) => Some(crate::text::string_of_range(&p, a, b)),
        None => None,
    }
}

/// The extension of a file name.
pub fn file_name_extension(name: &str) -> (r: Option<String>)
    ensures
        r.deep_view() == name_extension(name@),
{
    let n = chars_of(name);
    let k = rfind_char(&n, '.', n.len());
    proof {
        lemma_rfind_before_bounds(n@, '.', n@.len() as int);
    }
    let is_dotdot = n.len() == 2 && n[0] == '.' && n[1] == '.';
    assert(is_dotdot == (n@ =~= seq!['.', '.']));
    if is_dotdot || k <= 1 {
        None
    } else {
        Some(crate::text::string_of_range(&n, k, n.len()))
    }
}

/// The extension of the final component of a path.
pub fn path_extension_of(path: &str) -> (r: Option<String>)
    ensures
        r.deep_view() == path_extension(path@),
{
    match path_file_name(path) {
        Some(n) => file_name_extension(n.as_str()),
        None => None,
    }
}


/// The name segments of `p[pos..]`: the '/'-separated pieces that are
/// neither empty nor ".".
pub open spec fn segments_from(p: Seq<char>, pos: int) -> Seq<Seq<char>>
    decreases p.len() - pos,
{
    if pos < 0 || pos > p.len() {
        Seq::empty()
    } else {
        let e = find_from(p, '/', pos);
        proof {
            lemma_find_from_bounds(p, '/', pos);
        }
        let seg = p.subrange(pos, e);
        let head = if seg.len() > 0 && seg != seq!['.'] {
            seq![seg]
        } else {
            Seq::empty()
        };
        if e < p.len() {
            head + segments_from(p, e + 1)
        } else {
            head
        }
    }
}

/// The components of a path as `Path::components` yields them: a root "/"
/// or a leading "." first, then the name segments.
pub open spec fn path_components(p: Seq<char>) -> Seq<Seq<char>> {
    let root = p.len() > 0 && p[0] == '/';
    let cur = !root && (p =~= seq!['.'] || (p.len() >= 2 && p[0] == '.' && p[1] == '/'));
    let lead = if root {
        seq![seq!['/']]
    } else if cur {
        seq![seq!['.']]
    } else {
        Seq::empty()
    };
    lead + segments_from(p, 0)
}

/// Two paths are equal as `Path`s: they have the same components.
pub open spec fn same_path(a: Seq<char>, b: Seq<char>) -> bool {
    path_components(a) == path_components(b)
}

/// The name segments of `p`, as ranges.
fn segment_ranges(p: &[char]) -> (r: Vec<(usize, usize)>)
    ensures
        r@.len() == segments_from(p@, 0).len(),
        forall|i: int|
            0 <= i < r@.len() ==> (#[trigger] r@[i]).0 <= r@[i].1 <= p@.len() && p@.subrange(
                r@[i].0 as int,
                r@[i].1 as int,
            ) == segments_from(p@, 0)[i],
{
    let mut out: Vec<(usize, usize)> = Vec::new();
    let mut pos: usize = 0;
    let ghost segs = segments_from(p@, 0);
    loop
        invariant_except_break
            pos <= p@.len(),
            segs == segments_from(p@, 0),
            segs.len() == out@.len() + segments_from(p@, pos as int).len(),
            forall|i: int|
                0 <= i < segments_from(p@, pos as int).len() ==> #[trigger] segments_from(
                    p@,
                    pos as int,
                )[i] == segs[out@.len() + i],
        invariant
            forall|i: int|
                0 <= i < out@.len() ==> (#[trigger] out@[i]).0 <= out@[i].1 <= p@.len()
                    && p@.subrange(out@[i].0 as int, out@[i].1 as int) == segs[i],
        ensures
            segs.len() == out@.len(),
            segs == segments_from(p@, 0),
        decreases p@.len() - pos,
    {
        let e = find_char(p, '/', pos);
        proof {
            lemma_find_from_bounds(p@, '/', pos as int);
        }
        let ghost seg = p@.subrange(pos as int, e as int);
        let ghost rest = segments_from(p@, pos as int);
        let is_dot = e > pos && e - pos == 1 && p[pos] == '.';
        assert(seg.len() == e - pos);
        proof {
            if seg =~= seq!['.'] {
                assert(seg[0] == p@[pos as int]);
            }
        }
        if e > pos && !is_dot {
            proof {
                assert(rest[0] == seg);
                assert(segs[out@.len() as int] == seg);
            }
            out.push((pos, e));
            proof {
                if e < p@.len() {
                    assert forall|i: int| 0 <= i < segments_from(p@, e + 1).len() implies #[trigger] segments_from(
                        p@,
                        e + 1,
                    )[i] == segs[out@.len() + i] by {
                        assert(rest[i + 1] == segments_from(p@, e + 1)[i]);
                    }
                }
            }
        } else {
            proof {
                if e < p@.len() {
                    assert(rest =~= segments_from(p@, e + 1));
                }
            }
        }
        if e >= p.len() {
            break;
        }
        pos = e + 1;
    }
    out
}

/// Whether two paths are equal as `Path`s.
pub fn paths_equal(a: &str, b: &str) -> (r: bool)
    ensures
        r == same_path(a@, b@),
{
    let pa = chars_of(a);
    let pb = chars_of(b);
    let ra = pa.len() > 0 && pa[0] == '/';
    let rb = pb.len() > 0 && pb[0] == '/';
    let ca = !ra && ((pa.len() == 1 && pa[0] == '.') || (pa.len() >= 2 && pa[0] == '.' && pa[1] == '/'));
    let cb = !rb && ((pb.len() == 1 && pb[0] == '.') || (pb.len() >= 2 && pb[0] == '.' && pb[1] == '/'));
    proof {
        if pa@ =~= seq!['.'] { assert(pa@[0] == '.'); }
        if pb@ =~= seq!['.'] { assert(pb@[0] == '.'); }
        if pa@.len() == 1 && pa@[0] == '.' { assert(pa@ =~= seq!['.']); }
        if pb@.len() == 1 && pb@[0] == '.' { assert(pb@ =~= seq!['.']); }
    }
    let ghost la: Seq<Seq<char>> = if ra { seq![seq!['/']] } else if ca { seq![seq!['.']] } else { Seq::empty() };
    let ghost lb: Seq<Seq<char>> = if rb { seq![seq!['/']] } else if cb { seq![seq!['.']] } else { Seq::empty() };
    assert(path_components(a@) == la + segments_from(a@, 0));
    assert(path_components(b@) == lb + segments_from(b@, 0));
    if ra != rb || ca != cb {
        proof {
            if same_path(a@, b@) {
                if la.len() == lb.len() && la.len() > 0 {
                    assert(path_components(a@)[0] == la[0]);
                    assert(path_components(b@)[0] == lb[0]);
                    assert(la[0][0] != lb[0][0]);
                }
                lemma_segments_shape(a@, 0);
                lemma_segments_shape(b@, 0);
                if la.len() != lb.len() {
                    if la.len() == 1 {
                        assert(path_components(a@)[0] == la[0]);
                        if segments_from(b@, 0).len() > 0 {
                            assert(path_components(b@)[0] == segments_from(b@, 0)[0]);
                        }
                    } else {
                        assert(path_components(b@)[0] == lb[0]);
                        if segments_from(a@, 0).len() > 0 {
                            assert(path_components(a@)[0] == segments_from(a@, 0)[0]);
                        }
                    }
                }
            }
        }
        return false;
    }
    assert(la == lb);
    let sa = segment_ranges(&pa);
    let sb = segment_ranges(&pb);
    if sa.len() != sb.len() {
        proof {
            if same_path(a@, b@) {
                assert(path_components(a@).len() == path_components(b@).len());
            }
        }
        return false;
    }
    let mut i: usize = 0;
    while i < sa.len()
        invariant
            i <= sa@.len() == sb@.len(),
            sa@.len() == segments_from(pa@, 0).len(),
            sb@.len() == segments_from(pb@, 0).len(),
            forall|j: int| 0 <= j < sa@.len() ==> (#[trigger] sa@[j]).0 <= sa@[j].1 <= pa@.len() && pa@.subrange(sa@[j].0 as int, sa@[j].1 as int) == segments_from(pa@, 0)[j],
            forall|j: int| 0 <= j < sb@.len() ==> (#[trigger] sb@[j]).0 <= sb@[j].1 <= pb@.len() && pb@.subrange(sb@[j].0 as int, sb@[j].1 as int) == segments_from(pb@, 0)[j],
            forall|j: int| 0 <= j < i ==> #[trigger] segments_from(pa@, 0)[j] == segments_from(pb@, 0)[j],
            pa@ == a@,
            pb@ == b@,
            path_components(a@) == la + segments_from(a@, 0),
            path_components(b@) == lb + segments_from(b@, 0),
            la == lb,
        decreases sa@.len() - i,
    {
        let (a0, a1) = sa[i];
        let (b0, b1) = sb[i];
        let x = crate::http::copy_range(&pa, a0, a1);
        let y = crate::http::copy_range(&pb, b0, b1);
        if !seq_chars_equal(&x, &y) {
            proof {
                if same_path(a@, b@) {
                    assert(path_components(a@)[la.len() + i] == segments_from(a@, 0)[i as int]);
                    assert(path_components(b@)[lb.len() + i] == segments_from(b@, 0)[i as int]);
                }
            }
            return false;
        }
        i = i + 1;
    }
    assert(segments_from(pa@, 0) =~= segments_from(pb@, 0));
    assert(la == lb);
    true
}

/// Name segments are never "/" nor ".".
pub proof fn lemma_segments_shape(p: Seq<char>, pos: int)
    requires
        0 <= pos <= p.len(),
    ensures
        forall|i: int|
            0 <= i < segments_from(p, pos).len() ==> #[trigger] segments_from(p, pos)[i] != seq!['/']
                && segments_from(p, pos)[i] != seq!['.'] && segments_from(p, pos)[i].len() > 0,
    decreases p.len() - pos,
{
    lemma_find_from_bounds(p, '/', pos);
    let e = find_from(p, '/', pos);
    let seg = p.subrange(pos, e);
    if seg.len() > 0 && seg =~= seq!['/'] {
        assert(seg[0] == p[pos]);
    }
    if e < p.len() {
        lemma_segments_shape(p, e + 1);
        let head = if seg.len() > 0 && seg != seq!['.'] { seq![seg] } else { Seq::<Seq<char>>::empty() };
        assert forall|i: int| 0 <= i < segments_from(p, pos).len() implies #[trigger] segments_from(p, pos)[i] != seq!['/']
            && segments_from(p, pos)[i] != seq!['.'] && segments_from(p, pos)[i].len() > 0 by {
            if i >= head.len() {
                assert(segments_from(p, pos)[i] == segments_from(p, e + 1)[i - head.len()]);
            }
        }
    }
}

/// Whether two character sequences are equal.
pub fn seq_chars_equal(a: &[char], b: &[char]) -> (r: bool)
    ensures
        r == (a@ == b@),
{
    if a.len() != b.len() {
        return false;
    }
    let mut i: usize = 0;
    while i < a.len()
        invariant
            i <= a@.len() == b@.len(),
            forall|j: int| 0 <= j < i ==> a@[j] == b@[j],
        decreases a@.len() - i,
    {
        if a[i] != b[i] {
            return false;
        }
        i = i + 1;
    }
    assert(a@ =~= b@);
    true
}

} // verus!
