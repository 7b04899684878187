//! Unix path components, as `std::path::Path::components` documents them:
//! a leading `/` is the root, a leading `.` segment is the current directory,
//! empty and other `.` segments are skipped, `..` is the parent directory and
//! every other segment is a normal component. Paths compare by components.
use crate::text::{chars_of, string_from_chars};
use vstd::prelude::*;

verus! {

/// A path component in specifications.
pub enum Part {
    Root,
    Cur,
    Parent,
    Normal(Seq<char>),
}

/// A path component.
#[derive(Debug)]
pub enum PathComponent {
    RootDir,
    CurDir,
    ParentDir,
    Normal(Vec<char>),
}

impl View for PathComponent {
    type V = Part;

    open spec fn view(&self) -> Part {
        match self {
            PathComponent::RootDir => Part::Root,
            PathComponent::CurDir => Part::Cur,
            PathComponent::ParentDir => Part::Parent,
            PathComponent::Normal(v) => Part::Normal(v@),
        }
    }
}

pub open spec fn views(v: Seq<PathComponent>) -> Seq<Part> {
    v.map_values(|c: PathComponent| c@)
}

/// The component, if any, that one `/`-separated segment contributes.
pub open spec fn segment_parts(seg: Seq<char>) -> Seq<Part> {
    if seg.len() == 0 || seg == seq!['.'] {
        seq![]
    } else if seg == seq!['.', '.'] {
        seq![Part::Parent]
    } else {
        seq![Part::Normal(seg)]
    }
}

/// The components of the segments of `s`, where `cur` is the part of the
/// current segment already read.
pub open spec fn body_parts(s: Seq<char>, cur: Seq<char>) -> Seq<Part>
    decreases s.len(),
{
    if s.len() == 0 {
        segment_parts(cur)
    } else if s[0] == '/' {
        segment_parts(cur) + body_parts(s.drop_first(), seq![])
    } else {
        body_parts(s.drop_first(), cur.push(s[0]))
    }
}

pub open spec fn has_root(s: Seq<char>) -> bool {
    s.len() > 0 && s[0] == '/'
}

/// A relative path that starts with a `.` segment.
pub open spec fn starts_with_cur_dir(s: Seq<char>) -> bool {
    !has_root(s) && s.len() > 0 && s[0] == '.' && (s.len() == 1 || s[1] == '/')
}

/// The components of the Unix path `s`.
pub open spec fn components(s: Seq<char>) -> Seq<Part> {
    let root: Seq<Part> = if has_root(s) {
        seq![Part::Root]
    } else {
        seq![]
    };
    let cur: Seq<Part> = if starts_with_cur_dir(s) {
        seq![Part::Cur]
    } else {
        seq![]
    };
    root + cur + body_parts(s, seq![])
}

/// Two paths are equal when their components are.
pub open spec fn path_eq(a: Seq<char>, b: Seq<char>) -> bool {
    components(a) == components(b)
}

/// `root` with `name` pushed onto it, as `PathBuf::push` does: an absolute
/// `name` replaces `root`; otherwise a separator is added when `root` is
/// non-empty and does not already end with one.
pub open spec fn join_spec(root: Seq<char>, name: Seq<char>) -> Seq<char> {
    if has_root(name) {
        name
    } else if root.len() > 0 && root.last() != '/' {
        root.push('/') + name
    } else {
        root + name
    }
}

pub open spec fn is_normal(p: Part) -> bool {
    p matches Part::Normal(_)
}

/// A non-empty path whose components are all normal: it names something
/// below the directory it is joined to and can never escape it.
pub open spec fn safe_path_spec(s: Seq<char>) -> bool {
    s.len() > 0 && forall|i: int| 0 <= i < components(s).len() ==> is_normal(#[trigger] components(s)[i])
}

fn is_dot(v: &Vec<char>) -> (b: bool)
    ensures
        b == (v@ == seq!['.']),
{
    let b = v.len() == 1 && v[0] == '.';
    assert(b ==> v@ =~= seq!['.']);
    b
}

fn is_dot_dot(v: &Vec<char>) -> (b: bool)
    ensures
        b == (v@ == seq!['.', '.']),
{
    let b = v.len() == 2 && v[0] == '.' && v[1] == '.';
    assert(b ==> v@ =~= seq!['.', '.']);
    assert(v@ == seq!['.', '.'] ==> v@[0] == '.' && v@[1] == '.');
    b
}

fn push_segment(out: &mut Vec<PathComponent>, seg: Vec<char>)
    ensures
        views(final(out)@) == views(old(out)@) + segment_parts(seg@),
{
    let ghost seg_view = seg@;
    if seg.len() == 0 || is_dot(&seg) {
        assert(views(out@) =~= views(out@) + segment_parts(seg_view));
    } else if is_dot_dot(&seg) {
        out.push(PathComponent::ParentDir);
        assert(views(out@) =~= views(old(out)@) + segment_parts(seg_view));
    } else {
        out.push(PathComponent::Normal(seg));
        assert(views(out@) =~= views(old(out)@) + segment_parts(seg_view));
    }
}

/// The components of a Unix path.
pub fn path_components(path: &str) -> (r: Vec<PathComponent>)
    ensures
        views(r@) == components(path@),
{
    let s = chars_of(path);
    let n = s.len();
    let mut out: Vec<PathComponent> = Vec::new();
    if n > 0 && s[0] == '/' {
        out.push(PathComponent::RootDir);
    }
    if !(n > 0 && s[0] == '/') && n > 0 && s[0] == '.' && (n == 1 || s[1] == '/') {
        out.push(PathComponent::CurDir);
    }
    let ghost prefix = views(out@);
    assert(prefix =~= (if has_root(path@) {
        seq![Part::Root]
    } else {
        seq![]
    }) + (if starts_with_cur_dir(path@) {
        seq![Part::Cur]
    } else {
        seq![]
    }));
    let mut cur: Vec<char> = Vec::new();
    let mut i: usize = 0;
    assert(s@.subrange(0, n as int) =~= s@);
    while i < n
        invariant
            n == s@.len(),
            s@ == path@,
            i <= n,
            views(out@) + body_parts(s@.subrange(i as int, n as int), cur@) == prefix + body_parts(
                s@,
                seq![],
            ),
        decreases n - i,
    {
        let c = s[i];
        let ghost rest = s@.subrange(i as int, n as int);
        assert(rest.drop_first() =~= s@.subrange(i + 1, n as int));
        if c == '/' {
            let seg = cur;
            cur = Vec::new();
            let ghost before = views(out@);
            push_segment(&mut out, seg);
            assert(views(out@) + body_parts(s@.subrange(i + 1, n as int), cur@) =~= before
                + body_parts(rest, seg@));
        } else {
            let ghost old_cur = cur@;
            cur.push(c);
            assert(cur@ == old_cur.push(c));
        }
        i = i + 1;
    }
    let ghost before = views(out@);
    push_segment(&mut out, cur);
    assert(views(out@) =~= prefix + body_parts(s@, seq![]));
    out
}

proof fn lemma_views_index(v: Seq<PathComponent>, i: int)
    requires
        0 <= i < v.len(),
    ensures
        views(v)[i] == v[i]@,
        views(v).len() == v.len(),
{
}

/// Whether `name` is a non-empty path made only of normal components.
pub fn safe_path(name: &str) -> (b: bool)
    ensures
        b == safe_path_spec(name@),
{
    let parts = path_components(name);
    if name.unicode_len() == 0 {
        return false;
    }
    let mut i: usize = 0;
    while i < parts.len()
        invariant
            i <= parts@.len(),
            views(parts@) == components(name@),
            forall|j: int| 0 <= j < i ==> is_normal(#[trigger] components(name@)[j]),
        decreases parts@.len() - i,
    {
        proof {
            lemma_views_index(parts@, i as int);
        }
        match &parts[i] {
            PathComponent::Normal(_) => {},
            _ => {
                assert(!is_normal(components(name@)[i as int]));
                return false;
            },
        }
        i = i + 1;
    }
    proof {
        assert forall|j: int| 0 <= j < components(name@).len() implies is_normal(
            #[trigger] components(name@)[j],
        ) by {
            lemma_views_index(parts@, j);
        }
    }
    true
}

/// The number of components of `path`.
pub fn component_count(path: &str) -> (n: usize)
    ensures
        n == components(path@).len(),
{
    let parts = path_components(path);
    parts.len()
}

/// `root` joined with `name`.
pub fn join(root: &str, name: &str) -> (r: String)
    ensures
        r@ == join_spec(root@, name@),
{
    let r = chars_of(root);
    let n = chars_of(name);
    if n.len() > 0 && n[0] == '/' {
        return string_from_chars(n.as_slice());
    }
    let mut out = r;
    if out.len() > 0 && out[out.len() - 1] != '/' {
        out.push('/');
    }
    let mut i: usize = 0;
    let ghost base = out@;
    while i < n.len()
        invariant
            i <= n@.len(),
            out@ == base + n@.subrange(0, i as int),
        decreases n@.len() - i,
    {
        out.push(n[i]);
        i = i + 1;
    }
    assert(n@.subrange(0, n@.len() as int) =~= n@);
    string_from_chars(out.as_slice())
}

fn same_chars(a: &Vec<char>, b: &Vec<char>) -> (r: bool)
    ensures
        r == (a@ == b@),
{
    if a.len() != b.len() {
        return false;
    }
    let mut i: usize = 0;
    while i < a.len()
        invariant
            a@.len() == b@.len(),
            i <= a@.len(),
            forall|j: int| 0 <= j < i ==> a@[j] == b@[j],
        decreases a@.len() - i,
    {
        if a[i] != b[i] {
            return false;
        }
        i = i + 1;
    }
    assert(a@ =~= b@);
    true
}

fn same_component(a: &PathComponent, b: &PathComponent) -> (r: bool)
    ensures
        r == (a@ == b@),
{
    match (a, b) {
        (PathComponent::RootDir, PathComponent::RootDir) => true,
        (PathComponent::CurDir, PathComponent::CurDir) => true,
        (PathComponent::ParentDir, PathComponent::ParentDir) => true,
        (PathComponent::Normal(x), PathComponent::Normal(y)) => same_chars(x, y),
        _ => false,
    }
}

/// Whether two paths are equal, component by component.
pub fn paths_equal(a: &str, b: &str) -> (r: bool)
    ensures
        r == path_eq(a@, b@),
{
    let pa = path_components(a);
    let pb = path_components(b);
    if pa.len() != pb.len() {
        return false;
    }
    let mut i: usize = 0;
    while i < pa.len()
        invariant
            pa@.len() == pb@.len(),
            views(pa@) == components(a@),
            views(pb@) == components(b@),
            i <= pa@.len(),
            forall|j: int| 0 <= j < i ==> views(pa@)[j] == views(pb@)[j],
        decreases pa@.len() - i,
    {
        proof {
            lemma_views_index(pa@, i as int);
            lemma_views_index(pb@, i as int);
        }
        if !same_component(&pa[i], &pb[i]) {
            return false;
        }
        i = i + 1;
    }
    assert(views(pa@) =~= views(pb@));
    true
}

} // verus!
