use vstd::prelude::*;
use vstd::string::*;

use crate::text::{push_char, push_text};

verus! {

/// The pieces of a path between its `/` separators, empty ones included.
pub open spec fn segments(path: Seq<char>) -> Seq<Seq<char>>
    decreases path.len(),
{
    if path.len() == 0 {
        seq![Seq::empty()]
    } else {
        let prev = segments(path.drop_last());
        if path.last() == '/' {
            prev.push(Seq::empty())
        } else {
            prev.update(prev.len() - 1, prev.last().push(path.last()))
        }
    }
}

/// Takes one more segment into normalised components: empty and `.`
/// segments stay out, `..` drops the last component (at the top there is
/// none to drop), any other is appended.
pub open spec fn step(comps: Seq<Seq<char>>, seg: Seq<char>) -> Seq<Seq<char>> {
    if seg.len() == 0 || seg == seq!['.'] {
        comps
    } else if seg == seq!['.', '.'] {
        if comps.len() > 0 {
            comps.drop_last()
        } else {
            comps
        }
    } else {
        comps.push(seg)
    }
}

pub open spec fn normalized(segs: Seq<Seq<char>>) -> Seq<Seq<char>>
    decreases segs.len(),
{
    if segs.len() == 0 {
        Seq::empty()
    } else {
        step(normalized(segs.drop_last()), segs.last())
    }
}

/// The directories and file that a path names, read from the top, with
/// `.` and `..` resolved.
pub open spec fn components(path: Seq<char>) -> Seq<Seq<char>> {
    normalized(segments(path))
}

/// A path that starts at the top of the filesystem.
pub open spec fn is_absolute(path: Seq<char>) -> bool {
    path.len() > 0 && path[0] == '/'
}

/// `name` appended to `root` with a `/` between them; a name that starts at
/// the top replaces the root. For an absolute root this is what `Path::join`
/// gives; a relative root is never resolved against (see `stays_inside`).
pub open spec fn joined(root: Seq<char>, name: Seq<char>) -> Seq<char> {
    if name.len() > 0 && name[0] == '/' {
        name
    } else {
        root + seq!['/'] + name
    }
}

/// The path written out from its components: `/` before each.
pub open spec fn rendered(comps: Seq<Seq<char>>) -> Seq<char>
    decreases comps.len(),
{
    if comps.len() == 0 {
        Seq::empty()
    } else {
        rendered(comps.drop_last()) + seq!['/'] + comps.last()
    }
}

/// `a` is the start of `b`.
pub open spec fn is_prefix(a: Seq<Seq<char>>, b: Seq<Seq<char>>) -> bool {
    a.len() <= b.len() && b.subrange(0, a.len() as int) == a
}

/// The root is absolute and the file `name` resolves under it to a path
/// whose directory is the root or lies inside it. A relative root names no
/// fixed directory, so nothing is inside it.
pub open spec fn stays_inside(root: Seq<char>, name: Seq<char>) -> bool {
    let target = components(joined(root, name));
    is_absolute(root) && target.len() > 0 && is_prefix(components(root), target.drop_last())
}

/// Whether `path` starts at the top of the filesystem.
pub fn starts_at_top(path: &str) -> (r: bool)
    ensures
        r == is_absolute(path@),
{
    path.unicode_len() > 0 && path.get_char(0) == '/'
}

pub open spec fn views(v: Seq<String>) -> Seq<Seq<char>> {
    v.map_values(|s: String| s@)
}

fn is_dot(seg: &String) -> (r: bool)
    ensures
        r == (seg@ == seq!['.']),
{
    let n = seg.as_str().unicode_len();
    if n == 1 {
        let c = seg.as_str().get_char(0);
        assert(c == '.' ==> seg@ =~= seq!['.']);
        c == '.'
    } else {
        false
    }
}

fn is_dot_dot(seg: &String) -> (r: bool)
    ensures
        r == (seg@ == seq!['.', '.']),
{
    let n = seg.as_str().unicode_len();
    if n == 2 {
        let a = seg.as_str().get_char(0);
        let b = seg.as_str().get_char(1);
        assert(a == '.' && b == '.' ==> seg@ =~= seq!['.', '.']);
        a == '.' && b == '.'
    } else {
        false
    }
}

fn take_segment(comps: &mut Vec<String>, seg: String)
    ensures
        views(final(comps)@) == step(views(old(comps)@), seg@),
{
    let ghost before = views(comps@);
    if seg.as_str().unicode_len() == 0 || is_dot(&seg) {
    } else if is_dot_dot(&seg) {
        if comps.len() > 0 {
            comps.pop();
            assert(views(comps@) =~= before.drop_last());
        }
    } else {
        comps.push(seg);
        assert(views(comps@) =~= before.push(seg@));
    }
}

/// The normalised components of `path`.
pub fn components_of(path: &str) -> (r: Vec<String>)
    ensures
        views(r@) == components(path@),
{
    let n = path.unicode_len();
    let mut comps: Vec<String> = Vec::new();
    let mut seg = String::new();
    let mut i: usize = 0;
    assert(path@.subrange(0, 0) =~= Seq::<char>::empty());
    assert(views(comps@) =~= normalized(segments(path@.subrange(0, 0)).drop_last()));
    while i < n
        invariant
            n == path@.len(),
            i <= n,
            segments(path@.subrange(0, i as int)).len() > 0,
            views(comps@) == normalized(segments(path@.subrange(0, i as int)).drop_last()),
            seg@ == segments(path@.subrange(0, i as int)).last(),
        decreases n - i,
    {
        let ghost prefix = path@.subrange(0, i as int);
        let ghost next = path@.subrange(0, i as int + 1);
        assert(next.drop_last() =~= prefix);
        let c = path.get_char(i);
        if c == '/' {
            let done = seg;
            take_segment(&mut comps, done);
            seg = String::new();
            assert(segments(next).drop_last() =~= segments(prefix));
        } else {
            push_char(&mut seg, c);
            assert(segments(next).drop_last() =~= segments(prefix).drop_last());
        }
        i = i + 1;
    }
    assert(path@.subrange(0, n as int) =~= path@);
    take_segment(&mut comps, seg);
    comps
}

/// Writes components out as an absolute path.
pub fn render(comps: &Vec<String>) -> (r: String)
    ensures
        r@ == rendered(views(comps@)),
{
    let mut out = String::new();
    let mut i: usize = 0;
    while i < comps.len()
        invariant
            i <= comps.len(),
            out@ == rendered(views(comps@.subrange(0, i as int))),
        decreases comps.len() - i,
    {
        assert(views(comps@.subrange(0, i as int + 1)).drop_last() =~= views(
            comps@.subrange(0, i as int),
        ));
        push_char(&mut out, '/');
        push_text(&mut out, comps[i].as_str());
        i = i + 1;
    }
    assert(comps@.subrange(0, comps.len() as int) =~= comps@);
    out
}

/// Whether `a` is the start of `b`.
pub fn starts_with_components(a: &Vec<String>, b: &Vec<String>) -> (r: bool)
    ensures
        r == is_prefix(views(a@), views(b@)),
{
    if a.len() > b.len() {
        return false;
    }
    let mut i: usize = 0;
    while i < a.len()
        invariant
            a.len() <= b.len(),
            i <= a.len(),
            forall|k: int| 0 <= k < i ==> a@[k]@ == b@[k]@,
        decreases a.len() - i,
    {
        if a[i] != b[i] {
            assert(views(b@).subrange(0, a.len() as int)[i as int] != views(a@)[i as int]);
            return false;
        }
        i = i + 1;
    }
    assert(views(b@).subrange(0, a.len() as int) =~= views(a@));
    true
}

/// `name` appended to `root` with a `/` between them, or `name` alone where
/// it starts at the top; for an absolute root, what `Path::join` gives.
pub fn join(root: &str, name: &str) -> (r: String)
    ensures
        r@ == joined(root@, name@),
{
    if name.unicode_len() > 0 && name.get_char(0) == '/' {
        name.to_owned()
    } else {
        let mut out = root.to_owned();
        push_char(&mut out, '/');
        push_text(&mut out, name);
        out
    }
}

/// Resolves `name` against `root` and writes out the result, or `None`
/// where the file's directory would not be the root or inside it.
pub fn resolve_inside(root: &str, name: &str) -> (r: Option<String>)
    ensures
        r is Some <==> stays_inside(root@, name@),
        r matches Some(p) ==> p@ == rendered(components(joined(root@, name@))),
{
    if !starts_at_top(root) {
        return None;
    }
    let full = join(root, name);
    let target = components_of(full.as_str());
    if target.len() == 0 {
        return None;
    }
    let root_comps = components_of(root);
    let mut parent = target.clone();
    assert(parent@ == target@);
    parent.pop();
    assert(views(parent@) =~= views(target@).drop_last());
    if starts_with_components(&root_comps, &parent) {
        Some(render(&target))
    } else {
        None
    }
}

/// Whether the directory `dir` is `root` or lies inside it; both must be
/// absolute.
pub fn is_within(root: &str, dir: &str) -> (r: bool)
    ensures
        r == (is_absolute(root@) && is_absolute(dir@) && is_prefix(
            components(root@),
            components(dir@),
        )),
{
    if !starts_at_top(root) || !starts_at_top(dir) {
        return false;
    }
    let a = components_of(root);
    let b = components_of(dir);
    starts_with_components(&a, &b)
}

/// A component that normalisation can produce: non-empty, free of `/`, and
/// neither `.` nor `..`.
pub open spec fn is_plain_component(c: Seq<char>) -> bool {
    &&& c.len() > 0
    &&& c != seq!['.']
    &&& c != seq!['.', '.']
    &&& forall|j: int| 0 <= j < c.len() ==> c[j] != '/'
}

proof fn lemma_segments_free_of_separator(path: Seq<char>)
    ensures
        segments(path).len() > 0,
        forall|i: int, j: int|
            0 <= i < segments(path).len() && 0 <= j < segments(path)[i].len()
                ==> segments(path)[i][j] != '/',
    decreases path.len(),
{
    if path.len() > 0 {
        lemma_segments_free_of_separator(path.drop_last());
        let prev = segments(path.drop_last());
        let cur = segments(path);
        if path.last() != '/' {
            assert forall|i: int, j: int|
                0 <= i < cur.len() && 0 <= j < cur[i].len() implies cur[i][j] != '/' by {
                if i == prev.len() - 1 && j == prev.last().len() {
                    assert(cur[i][j] == path.last());
                } else if i == prev.len() - 1 {
                    assert(cur[i][j] == prev[i][j]);
                } else {
                    assert(cur[i] == prev[i]);
                }
            }
        } else {
            assert forall|i: int, j: int|
                0 <= i < cur.len() && 0 <= j < cur[i].len() implies cur[i][j] != '/' by {
                if i < prev.len() {
                    assert(cur[i] == prev[i]);
                }
            }
        }
    }
}

proof fn lemma_normalized_plain(segs: Seq<Seq<char>>)
    requires
        forall|i: int, j: int| 0 <= i < segs.len() && 0 <= j < segs[i].len() ==> segs[i][j] != '/',
    ensures
        forall|i: int| 0 <= i < normalized(segs).len() ==> is_plain_component(
            #[trigger] normalized(segs)[i],
        ),
    decreases segs.len(),
{
    if segs.len() > 0 {
        let init = segs.drop_last();
        assert forall|i: int, j: int|
            0 <= i < init.len() && 0 <= j < init[i].len() implies init[i][j] != '/' by {
            assert(init[i] == segs[i]);
        }
        lemma_normalized_plain(init);
        let prev = normalized(init);
        let cur = normalized(segs);
        let x = segs.last();
        assert forall|i: int| 0 <= i < cur.len() implies is_plain_component(#[trigger] cur[i]) by {
            if i < prev.len() {
                assert(cur[i] == prev[i]);
            } else {
                assert(cur[i] == x);
                assert forall|j: int| 0 <= j < x.len() implies x[j] != '/' by {
                    assert(x == segs[segs.len() - 1]);
                }
            }
        }
    }
}

/// Every component of a path is plain.
pub proof fn lemma_components_plain(path: Seq<char>)
    ensures
        forall|i: int| 0 <= i < components(path).len() ==> is_plain_component(
            #[trigger] components(path)[i],
        ),
{
    lemma_segments_free_of_separator(path);
    lemma_normalized_plain(segments(path));
}

proof fn lemma_segments_after_separator(s: Seq<char>, c: Seq<char>)
    requires
        forall|j: int| 0 <= j < c.len() ==> c[j] != '/',
    ensures
        segments(s + seq!['/'] + c) == segments(s).push(c),
    decreases c.len(),
{
    if c.len() == 0 {
        assert(s + seq!['/'] + c =~= s.push('/'));
        assert(s.push('/').drop_last() =~= s);
        assert(c =~= Seq::<char>::empty());
    } else {
        let init = c.drop_last();
        assert forall|j: int| 0 <= j < init.len() implies init[j] != '/' by {
            assert(init[j] == c[j]);
        }
        assert(c.last() != '/');
        lemma_segments_after_separator(s, init);
        let whole = s + seq!['/'] + c;
        assert(whole.drop_last() =~= s + seq!['/'] + init);
        assert(whole.last() == c.last());
        assert(init.push(c.last()) =~= c);
        assert(segments(whole) =~= segments(s).push(c));
    }
}

proof fn lemma_segments_of_rendered(t: Seq<Seq<char>>)
    requires
        forall|i: int| 0 <= i < t.len() ==> is_plain_component(#[trigger] t[i]),
    ensures
        segments(rendered(t)) == seq![Seq::<char>::empty()] + t,
    decreases t.len(),
{
    if t.len() == 0 {
        assert(seq![Seq::<char>::empty()] + t =~= seq![Seq::<char>::empty()]);
    } else {
        let init = t.drop_last();
        assert forall|i: int| 0 <= i < init.len() implies is_plain_component(#[trigger] init[i]) by {
            assert(init[i] == t[i]);
        }
        lemma_segments_of_rendered(init);
        assert(is_plain_component(t[t.len() - 1]));
        lemma_segments_after_separator(rendered(init), t.last());
        assert((seq![Seq::<char>::empty()] + init).push(t.last()) =~= seq![Seq::<char>::empty()]
            + t);
    }
}

proof fn lemma_normalized_plain_run(t: Seq<Seq<char>>)
    requires
        forall|i: int| 0 <= i < t.len() ==> is_plain_component(#[trigger] t[i]),
    ensures
        normalized(seq![Seq::<char>::empty()] + t) == t,
    decreases t.len(),
{
    let segs = seq![Seq::<char>::empty()] + t;
    if t.len() == 0 {
        assert(segs.drop_last() =~= Seq::<Seq<char>>::empty());
        assert(segs.last() == Seq::<char>::empty());
        assert(normalized(segs) == step(normalized(segs.drop_last()), segs.last()));
        assert(t =~= Seq::<Seq<char>>::empty());
    } else {
        let init = t.drop_last();
        assert forall|i: int| 0 <= i < init.len() implies is_plain_component(#[trigger] init[i]) by {
            assert(init[i] == t[i]);
        }
        lemma_normalized_plain_run(init);
        assert(segs.drop_last() =~= seq![Seq::<char>::empty()] + init);
        assert(segs.last() == t.last());
        assert(is_plain_component(t[t.len() - 1]));
        assert(normalized(segs) == step(normalized(segs.drop_last()), segs.last()));
        assert(step(init, t.last()) == init.push(t.last()));
        assert(init.push(t.last()) =~= t);
    }
}

/// Writing plain components out and reading the path back gives them again.
pub proof fn lemma_rendered_round_trip(t: Seq<Seq<char>>)
    requires
        forall|i: int| 0 <= i < t.len() ==> is_plain_component(#[trigger] t[i]),
    ensures
        components(rendered(t)) == t,
{
    lemma_segments_of_rendered(t);
    lemma_normalized_plain_run(t);
}

/// A path handed out for `name` under `root`, read back, names a file whose
/// directory is the root or lies inside it.
pub proof fn lemma_resolved_path_inside(root: Seq<char>, name: Seq<char>)
    requires
        stays_inside(root, name),
    ensures
        ({
            let p = components(rendered(components(joined(root, name))));
            p.len() > 0 && is_prefix(components(root), p.drop_last())
        }),
{
    lemma_components_plain(joined(root, name));
    lemma_rendered_round_trip(components(joined(root, name)));
}

/// Climbing two levels out of a root that is at least two directories deep
/// never lands inside it: `../../etc/passwd` is refused.
pub proof fn lemma_traversal_leaves_root(root: Seq<char>)
    requires
        components(root).len() >= 2,
    ensures
        !stays_inside(root, "../../etc/passwd"@),
{
    reveal_strlit("../../etc/passwd");
    let up = seq!['.', '.'];
    let etc = seq!['e', 't', 'c'];
    let passwd = seq!['p', 'a', 's', 's', 'w', 'd'];
    let a = root + seq!['/'] + up;
    let b = a + seq!['/'] + up;
    let c = b + seq!['/'] + etc;
    let d = c + seq!['/'] + passwd;
    assert(joined(root, "../../etc/passwd"@) =~= d);
    lemma_segments_after_separator(root, up);
    lemma_segments_after_separator(a, up);
    lemma_segments_after_separator(b, etc);
    lemma_segments_after_separator(c, passwd);
    let sr = segments(root);
    let r = components(root);
    let s1 = sr.push(up);
    let s2 = s1.push(up);
    let s3 = s2.push(etc);
    let s4 = s3.push(passwd);
    assert(s1.drop_last() =~= sr);
    assert(s2.drop_last() =~= s1);
    assert(s3.drop_last() =~= s2);
    assert(s4.drop_last() =~= s3);
    assert(normalized(s1) == r.drop_last());
    assert(normalized(s2) == r.drop_last().drop_last());
    assert(etc.len() == 3 && seq!['.'].len() == 1 && seq!['.', '.'].len() == 2);
    assert(passwd.len() == 6);
    assert(etc != seq!['.'] && etc != seq!['.', '.']);
    assert(passwd != seq!['.'] && passwd != seq!['.', '.']);
    assert(normalized(s3) == r.drop_last().drop_last().push(etc));
    assert(normalized(s4) == r.drop_last().drop_last().push(etc).push(passwd));
    let target = normalized(s4);
    assert(target.drop_last().len() < r.len());
}

} // verus!
