//! Unix path syntax: components, prefix tests, joining and extensions,
//! following the rules of `std::path::Path`.
use vstd::prelude::*;
use crate::text::{chars_of, cviews, join_strings, push_all, string_of, views};

verus! {

/// Index of the next `/` at or after `i` (the length when there is none).
pub open spec fn seg_end(p: Seq<char>, i: int) -> int
    decreases p.len() - i,
{
    if 0 <= i < p.len() && p[i] != '/' {
        seg_end(p, i + 1)
    } else {
        i
    }
}

pub proof fn lemma_seg_end(p: Seq<char>, i: int)
    requires
        0 <= i <= p.len(),
    ensures
        i <= seg_end(p, i) <= p.len(),
        seg_end(p, i) < p.len() ==> p[seg_end(p, i)] == '/',
        forall|k: int| i <= k < seg_end(p, i) ==> p[k] != '/',
    decreases p.len() - i,
{
    if i < p.len() && p[i] != '/' {
        lemma_seg_end(p, i + 1);
    }
}

/// Whether a segment is kept as a component: empty segments never are, and
/// `.` only as the very first segment of a relative path.
pub open spec fn keep_segment(seg: Seq<char>, first: bool) -> bool {
    seg.len() > 0 && !(seg == seq!['.'] && !first)
}

/// The components of the segments starting at `i`.
pub open spec fn comps_from(p: Seq<char>, i: int, first: bool) -> Seq<Seq<char>>
    decreases p.len() - i,
{
    if i < 0 || i > p.len() {
        Seq::empty()
    } else {
        let j = seg_end(p, i);
        proof {
            lemma_seg_end(p, i);
        }
        let seg = p.subrange(i, j);
        let head = if keep_segment(seg, first) {
            seq![seg]
        } else {
            Seq::empty()
        };
        if j < p.len() {
            head + comps_from(p, j + 1, false)
        } else {
            head
        }
    }
}

/// `Path::components`: the root as `/`, then the non-empty segments, with
/// interior `.` segments dropped.
pub open spec fn components(p: Seq<char>) -> Seq<Seq<char>> {
    if p.len() == 0 {
        Seq::empty()
    } else if p[0] == '/' {
        seq![seq!['/']] + comps_from(p, 1, false)
    } else {
        comps_from(p, 0, true)
    }
}

/// `Path::starts_with`: the components of `base` begin those of `p`.
pub open spec fn path_starts_with(p: Seq<char>, base: Seq<char>) -> bool {
    let a = components(p);
    let b = components(base);
    b.len() <= a.len() && a.take(b.len() as int) == b
}

/// The components of a path.
pub fn path_components(p: &[char]) -> (r: Vec<Vec<char>>)
    ensures
        cviews(r@) == components(p@),
{
    let n = p.len();
    let mut r: Vec<Vec<char>> = Vec::new();
    if n == 0 {
        assert(cviews(r@) =~= components(p@));
        return r;
    }
    let mut i: usize = 0;
    let mut first = true;
    if p[0] == '/' {
        let mut root: Vec<char> = Vec::new();
        root.push('/');
        assert(root@ =~= seq!['/']);
        r.push(root);
        i = 1;
        first = false;
        assert(cviews(r@) =~= seq![seq!['/']]);
    } else {
        assert(cviews(r@) + comps_from(p@, 0, true) =~= comps_from(p@, 0, true));
    }
    loop
        invariant
            n == p@.len(),
            i <= n,
            components(p@) == cviews(r@) + comps_from(p@, i as int, first),
        decreases n - i,
    {
        let mut j: usize = i;
        proof {
            lemma_seg_end(p@, i as int);
        }
        let mut seg: Vec<char> = Vec::new();
        while j < n && p[j] != '/'
            invariant
                n == p@.len(),
                i <= j <= n,
                seg_end(p@, i as int) == seg_end(p@, j as int),
                seg@ == p@.subrange(i as int, j as int),
            decreases n - j,
        {
            seg.push(p[j]);
            j = j + 1;
        }
        assert(seg_end(p@, j as int) == j);
        let keep = seg.len() > 0 && !(seg.len() == 1 && seg[0] == '.' && !first);
        assert(keep == keep_segment(seg@, first)) by {
            if seg@.len() == 1 && seg@[0] == '.' {
                assert(seg@ =~= seq!['.']);
            }
        }
        let ghost before = cviews(r@);
        let ghost segv = seg@;
        if keep {
            r.push(seg);
            assert(cviews(r@) =~= before.push(segv));
        }
        if j < n {
            proof {
                if keep {
                    assert(before + comps_from(p@, i as int, first) =~= cviews(r@) + comps_from(p@, j + 1, false));
                } else {
                    assert(before + comps_from(p@, i as int, first) =~= cviews(r@) + comps_from(p@, j + 1, false));
                }
            }
            i = j + 1;
            first = false;
        } else {
            proof {
                assert(components(p@) =~= cviews(r@));
            }
            return r;
        }
    }
}

/// Whether the component list `c` begins the component list `a`.
fn comps_prefix(a: &Vec<Vec<char>>, c: &Vec<Vec<char>>) -> (b: bool)
    ensures
        b == (cviews(c@).len() <= cviews(a@).len() && cviews(a@).take(cviews(c@).len() as int) == cviews(c@)),
{
    if c.len() > a.len() {
        return false;
    }
    let mut k: usize = 0;
    while k < c.len()
        invariant
            c@.len() <= a@.len(),
            k <= c@.len(),
            forall|q: int| 0 <= q < k ==> cviews(a@)[q] == cviews(c@)[q],
        decreases c@.len() - k,
    {
        let x = &a[k];
        let y = &c[k];
        let mut same = x.len() == y.len();
        let mut m: usize = 0;
        while same && m < x.len()
            invariant
                same ==> x@.len() == y@.len(),
                m <= x@.len(),
                same ==> forall|w: int| 0 <= w < m ==> x@[w] == y@[w],
                !same ==> x@ != y@,
            decreases x@.len() - m,
        {
            if x[m] != y[m] {
                same = false;
            }
            m = m + 1;
        }
        if same {
            assert(x@ =~= y@);
        }
        assert(cviews(a@)[k as int] == x@);
        assert(cviews(c@)[k as int] == y@);
        if !same {
            assert(cviews(a@).take(c@.len() as int)[k as int] != cviews(c@)[k as int]);
            return false;
        }
        k = k + 1;
    }
    assert(cviews(a@).take(c@.len() as int) =~= cviews(c@));
    true
}

/// Whether `p` lies under `base`, component by component.
pub fn starts_with_path(p: &str, base: &str) -> (b: bool)
    ensures
        b == path_starts_with(p@, base@),
{
    let pc = chars_of(p);
    let bc = chars_of(base);
    let a = path_components(pc.as_slice());
    let c = path_components(bc.as_slice());
    comps_prefix(&a, &c)
}

/// One component taken into a resolved list: `.` changes nothing; `..`
/// removes the component before it (the root stays, and a leading `..` of a
/// relative path is kept); any other component is appended.
pub open spec fn resolve_step(acc: Seq<Seq<char>>, c: Seq<char>) -> Seq<Seq<char>> {
    if c == seq!['.'] {
        acc
    } else if c == seq!['.', '.'] {
        if acc.len() > 0 && acc.last() == seq!['/'] {
            acc
        } else if acc.len() > 0 && acc.last() != seq!['.', '.'] {
            acc.drop_last()
        } else {
            acc.push(c)
        }
    } else {
        acc.push(c)
    }
}

/// Components with `.` and `..` resolved, left to right, without looking at
/// the file system.
pub open spec fn resolved(cs: Seq<Seq<char>>) -> Seq<Seq<char>>
    decreases cs.len(),
{
    if cs.len() == 0 {
        Seq::empty()
    } else {
        resolve_step(resolved(cs.drop_last()), cs.last())
    }
}

/// The components of a path after resolving `.` and `..`.
pub open spec fn normalized(p: Seq<char>) -> Seq<Seq<char>> {
    resolved(components(p))
}

/// Whether `p`, once resolved, lies under `base`, once resolved.
pub open spec fn path_within(p: Seq<char>, base: Seq<char>) -> bool {
    let a = normalized(p);
    let b = normalized(base);
    b.len() <= a.len() && a.take(b.len() as int) == b
}

/// A path written back from its components: the root, then the other
/// components separated by `/`.
pub open spec fn render(cs: Seq<Seq<char>>) -> Seq<char> {
    if cs.len() > 0 && cs[0] == seq!['/'] {
        seq!['/'] + crate::text::join(cs.skip(1), seq!['/'])
    } else {
        crate::text::join(cs, seq!['/'])
    }
}

/// The path `p` with `.` and `..` resolved.
pub open spec fn normal_path(p: Seq<char>) -> Seq<char> {
    render(normalized(p))
}

fn copy_chars(c: &Vec<char>) -> (r: Vec<char>)
    ensures
        r@ == c@,
{
    let mut d: Vec<char> = Vec::new();
    push_all(&mut d, c.as_slice());
    d
}

/// Resolves `.` and `..` in a component list.
pub fn resolve_components(cs: &Vec<Vec<char>>) -> (r: Vec<Vec<char>>)
    ensures
        cviews(r@) == resolved(cviews(cs@)),
{
    let mut r: Vec<Vec<char>> = Vec::new();
    let mut i: usize = 0;
    assert(cviews(cs@).take(0) =~= Seq::<Seq<char>>::empty());
    assert(cviews(r@) =~= Seq::<Seq<char>>::empty());
    while i < cs.len()
        invariant
            i <= cs@.len(),
            cviews(r@) == resolved(cviews(cs@).take(i as int)),
        decreases cs@.len() - i,
    {
        let c = &cs[i];
        let ghost before = cviews(r@);
        assert(cviews(cs@).take(i + 1).drop_last() =~= cviews(cs@).take(i as int));
        assert(cviews(cs@).take(i + 1).last() == c@);
        let is_dot = c.len() == 1 && c[0] == '.';
        let is_up = c.len() == 2 && c[0] == '.' && c[1] == '.';
        assert(is_dot == (c@ == seq!['.'])) by {
            if c@.len() == 1 && c@[0] == '.' {
                assert(c@ =~= seq!['.']);
            }
        }
        assert(is_up == (c@ == seq!['.', '.'])) by {
            if c@.len() == 2 && c@[0] == '.' && c@[1] == '.' {
                assert(c@ =~= seq!['.', '.']);
            }
        }
        if is_dot {
        } else if is_up {
            let n = r.len();
            if n > 0 {
                let last = &r[n - 1];
                let last_root = last.len() == 1 && last[0] == '/';
                let last_up = last.len() == 2 && last[0] == '.' && last[1] == '.';
                assert(before.last() == last@);
                assert(last_root == (last@ == seq!['/'])) by {
                    if last@.len() == 1 && last@[0] == '/' {
                        assert(last@ =~= seq!['/']);
                    }
                }
                assert(last_up == (last@ == seq!['.', '.'])) by {
                    if last@.len() == 2 && last@[0] == '.' && last@[1] == '.' {
                        assert(last@ =~= seq!['.', '.']);
                    }
                }
                if last_root {
                } else if !last_up {
                    r.pop();
                    assert(cviews(r@) =~= before.drop_last());
                } else {
                    let d = copy_chars(c);
                    r.push(d);
                    assert(cviews(r@) =~= before.push(c@));
                }
            } else {
                let d = copy_chars(c);
                r.push(d);
                assert(cviews(r@) =~= before.push(c@));
            }
        } else {
            let d = copy_chars(c);
            r.push(d);
            assert(cviews(r@) =~= before.push(c@));
        }
        i = i + 1;
    }
    assert(cviews(cs@).take(i as int) =~= cviews(cs@));
    r
}

fn normal_comps(p: &str) -> (r: Vec<Vec<char>>)
    ensures
        cviews(r@) == normalized(p@),
{
    let pc = chars_of(p);
    let a = path_components(pc.as_slice());
    resolve_components(&a)
}

/// Whether `p` lies under `base` once `.` and `..` are resolved in both.
pub fn within_path(p: &str, base: &str) -> (b: bool)
    ensures
        b == path_within(p@, base@),
{
    let a = normal_comps(p);
    let c = normal_comps(base);
    comps_prefix(&a, &c)
}

/// The path `p` with `.` and `..` resolved.
pub fn normalize(p: &str) -> (r: String)
    ensures
        r@ == normal_path(p@),
{
    let cs = normal_comps(p);
    let ghost cv = cviews(cs@);
    let rooted = cs.len() > 0 && cs[0].len() == 1 && cs[0][0] == '/';
    assert(rooted == (cv.len() > 0 && cv[0] == seq!['/'])) by {
        if cs@.len() > 0 && cs@[0]@.len() == 1 && cs@[0]@[0] == '/' {
            assert(cs@[0]@ =~= seq!['/']);
        }
    }
    let first: usize = if rooted { 1 } else { 0 };
    let mut parts: Vec<String> = Vec::new();
    let mut i: usize = first;
    while i < cs.len()
        invariant
            first <= i <= cs@.len(),
            cv == cviews(cs@),
            views(parts@) == cv.subrange(first as int, i as int),
        decreases cs@.len() - i,
    {
        let ghost b = views(parts@);
        parts.push(string_of(cs[i].as_slice()));
        assert(views(parts@) =~= b.push(cv[i as int]));
        assert(cv.subrange(first as int, i + 1) =~= cv.subrange(first as int, i as int).push(cv[i as int]));
        i = i + 1;
    }
    assert(cv.subrange(first as int, i as int) =~= cv.skip(first as int));
    let body = join_strings(&parts, "/");
    proof {
        reveal_strlit("/");
        assert("/"@ =~= seq!['/']);
    }
    if rooted {
        let mut v: Vec<char> = Vec::new();
        v.push('/');
        let bc = chars_of(body.as_str());
        push_all(&mut v, bc.as_slice());
        assert(v@ =~= seq!['/'] + body@);
        string_of(v.as_slice())
    } else {
        assert(cv.skip(0) =~= cv);
        body
    }
}

/// `PathBuf::join` on path text: an absolute `rel` replaces `base`; otherwise
/// `rel` is appended after a separator unless `base` is empty or already ends in one.
pub open spec fn join_path(base: Seq<char>, rel: Seq<char>) -> Seq<char> {
    if rel.len() > 0 && rel[0] == '/' {
        rel
    } else if base.len() == 0 || base.last() == '/' {
        base + rel
    } else {
        base + seq!['/'] + rel
    }
}

pub fn join(base: &str, rel: &str) -> (r: String)
    ensures
        r@ == join_path(base@, rel@),
{
    let b = chars_of(base);
    let c = chars_of(rel);
    if c.len() > 0 && c[0] == '/' {
        return string_of(c.as_slice());
    }
    let mut v: Vec<char> = Vec::new();
    push_all(&mut v, b.as_slice());
    if b.len() > 0 && b[b.len() - 1] != '/' {
        v.push('/');
    }
    push_all(&mut v, c.as_slice());
    string_of(v.as_slice())
}

/// `Path::file_name`: the last component, unless it is the root, `.` or `..`.
pub open spec fn file_name(p: Seq<char>) -> Option<Seq<char>> {
    let c = components(p);
    if c.len() == 0 {
        None
    } else {
        let last = c.last();
        if last == seq!['/'] || last == seq!['.'] || last == seq!['.', '.'] {
            None
        } else {
            Some(last)
        }
    }
}

/// Index of the last `.` in `s` before position `i` (-1 when there is none).
pub open spec fn last_dot_before(s: Seq<char>, i: int) -> int
    decreases i,
{
    if i <= 0 || i > s.len() {
        -1
    } else if s[i - 1] == '.' {
        i - 1
    } else {
        last_dot_before(s, i - 1)
    }
}

/// `Path::extension`: the text after the last `.` of the file name, when that
/// dot is not the name's first character.
pub open spec fn extension(p: Seq<char>) -> Option<Seq<char>> {
    match file_name(p) {
        None => None,
        Some(f) => {
            let d = last_dot_before(f, f.len() as int);
            if d <= 0 {
                None
            } else {
                Some(f.subrange(d + 1, f.len() as int))
            }
        },
    }
}

pub fn path_extension(p: &str) -> (r: Option<String>)
    ensures
        r matches Some(e) ==> extension(p@) == Some(e@),
        r is None ==> extension(p@) is None,
{
    let pc = chars_of(p);
    let comps = path_components(pc.as_slice());
    if comps.len() == 0 {
        return None;
    }
    let last = &comps[comps.len() - 1];
    assert(last@ == cviews(comps@).last());
    let n = last.len();
    let is_root = n == 1 && last[0] == '/';
    let is_cur = n == 1 && last[0] == '.';
    let is_parent = n == 2 && last[0] == '.' && last[1] == '.';
    assert(is_root == (last@ == seq!['/'])) by {
        if is_root { assert(last@ =~= seq!['/']); }
    }
    assert(is_cur == (last@ == seq!['.'])) by {
        if is_cur { assert(last@ =~= seq!['.']); }
    }
    assert(is_parent == (last@ == seq!['.', '.'])) by {
        if is_parent { assert(last@ =~= seq!['.', '.']); }
    }
    if is_root || is_cur || is_parent {
        return None;
    }
    let mut i: usize = n;
    while i > 0 && last[i - 1] != '.'
        invariant
            n == last@.len(),
            i <= n,
            last_dot_before(last@, n as int) == last_dot_before(last@, i as int),
        decreases i,
    {
        i = i - 1;
    }
    if i <= 1 {
        return None;
    }
    let mut e: Vec<char> = Vec::new();
    let mut k: usize = i;
    while k < n
        invariant
            i <= k <= n,
            n == last@.len(),
            e@ == last@.subrange(i as int, k as int),
        decreases n - k,
    {
        e.push(last[k]);
        k = k + 1;
    }
    Some(string_of(e.as_slice()))
}

/// `Path::file_stem`: the file name without its extension.
pub open spec fn file_stem(p: Seq<char>) -> Option<Seq<char>> {
    match file_name(p) {
        None => None,
        Some(f) => {
            let d = last_dot_before(f, f.len() as int);
            if d <= 0 {
                Some(f)
            } else {
                Some(f.take(d))
            }
        },
    }
}

/// The stem of a path whose extension is `ext`, if it has that extension.
pub fn stem_with_extension(p: &str, ext: &str) -> (r: Option<String>)
    ensures
        match r {
            Some(s) => extension(p@) == Some(ext@) && file_stem(p@) == Some(s@),
            None => extension(p@) != Some(ext@),
        },
{
    match path_extension(p) {
        None => None,
        Some(e) => {
            if !crate::text::same_text(e.as_str(), ext) {
                return None;
            }
            let pc = chars_of(p);
            let comps = path_components(pc.as_slice());
            let last = &comps[comps.len() - 1];
            assert(last@ == cviews(comps@).last());
            let n = last.len();
            let mut i: usize = n;
            while i > 0 && last[i - 1] != '.'
                invariant
                    n == last@.len(),
                    i <= n,
                    last_dot_before(last@, n as int) == last_dot_before(last@, i as int),
                decreases i,
            {
                i = i - 1;
            }
            assert(file_name(p@) == Some(last@));
            assert(last_dot_before(last@, i as int) > 0);
            assert(i > 0 && last@[i - 1] == '.');
            let d = i - 1;
            let mut v: Vec<char> = Vec::new();
            let mut k: usize = 0;
            while k < d
                invariant
                    k <= d < n,
                    n == last@.len(),
                    v@ == last@.take(k as int),
                decreases d - k,
            {
                v.push(last[k]);
                k = k + 1;
                assert(v@ =~= last@.take(k as int));
            }
            Some(string_of(v.as_slice()))
        },
    }
}

} // verus!
