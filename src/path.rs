//! A platform-neutral file path: a root and a sequence of segments.
//!
//! A path is read from text by splitting on `/` and `\`; empty segments are
//! dropped. The root is the leading part that anchors the path: nothing (a
//! relative path), `/`, a drive `X:`, or a drive with a separator `X:/`.
//! A path is written back with `/` between segments.

use vstd::prelude::*;

verus! {

pub open spec fn is_sep(c: char) -> bool {
    c == '/' || c == '\\'
}

pub open spec fn is_letter(c: char) -> bool {
    ('a' <= c && c <= 'z') || ('A' <= c && c <= 'Z')
}

pub open spec fn has_drive(s: Seq<char>) -> bool {
    s.len() >= 2 && is_letter(s[0]) && s[1] == ':'
}

/// How many leading characters of `s` make up its root.
pub open spec fn root_len(s: Seq<char>) -> int {
    if has_drive(s) {
        if s.len() >= 3 && is_sep(s[2]) {
            3
        } else {
            2
        }
    } else if s.len() >= 1 && is_sep(s[0]) {
        1
    } else {
        0
    }
}

/// The root of `s`, with its separator written as `/`.
pub open spec fn root_of(s: Seq<char>) -> Seq<char> {
    if has_drive(s) {
        if s.len() >= 3 && is_sep(s[2]) {
            seq![s[0], ':', '/']
        } else {
            seq![s[0], ':']
        }
    } else if s.len() >= 1 && is_sep(s[0]) {
        seq!['/']
    } else {
        Seq::empty()
    }
}

/// Splitting read left to right: the segments closed so far, and where the
/// open segment starts.
pub open spec fn split_acc(s: Seq<char>) -> (Seq<Seq<char>>, int)
    decreases s.len(),
{
    if s.len() == 0 {
        (Seq::empty(), 0)
    } else {
        let (done, start) = split_acc(s.drop_last());
        let n = s.len() - 1;
        if is_sep(s.last()) {
            if start < n {
                (done.push(s.subrange(start, n)), n + 1)
            } else {
                (done, n + 1)
            }
        } else {
            (done, start)
        }
    }
}

/// The non-empty runs of `s` between separators, in order.
pub open spec fn segments(s: Seq<char>) -> Seq<Seq<char>> {
    let (done, start) = split_acc(s);
    if start < s.len() {
        done.push(s.subrange(start, s.len() as int))
    } else {
        done
    }
}

/// The mathematical value of a path.
pub ghost struct PathView {
    pub root: Seq<char>,
    pub parts: Seq<Seq<char>>,
}

/// The path that a text names.
pub open spec fn parse_spec(s: Seq<char>) -> PathView {
    PathView { root: root_of(s), parts: segments(s.skip(root_len(s))) }
}

/// Segments joined by `/`.
pub open spec fn join_parts(ps: Seq<Seq<char>>) -> Seq<char>
    decreases ps.len(),
{
    if ps.len() == 0 {
        Seq::empty()
    } else if ps.len() == 1 {
        ps[0]
    } else {
        join_parts(ps.drop_last()) + seq!['/'] + ps.last()
    }
}

/// The text of a path: its root, then its segments joined by `/`.
pub open spec fn render(p: PathView) -> Seq<char> {
    p.root + join_parts(p.parts)
}

pub open spec fn empty_path() -> PathView {
    PathView { root: Seq::empty(), parts: Seq::empty() }
}

/// A path is absolute when its root ends in a separator.
pub open spec fn is_absolute(p: PathView) -> bool {
    p.root.len() > 0 && p.root.last() == '/'
}

/// The enclosing directory: one segment less; none for a bare root.
pub open spec fn parent_of(p: PathView) -> Option<PathView> {
    if p.parts.len() == 0 {
        None
    } else {
        Some(PathView { root: p.root, parts: p.parts.drop_last() })
    }
}

/// The parent, or the empty path where there is none.
pub open spec fn parent_or_empty(p: PathView) -> PathView {
    match parent_of(p) {
        Some(q) => q,
        None => empty_path(),
    }
}

/// The last segment, unless it is `.` or `..`.
pub open spec fn file_name_of(p: PathView) -> Option<Seq<char>> {
    if p.parts.len() == 0 || p.parts.last() == seq!['.'] || p.parts.last() == seq!['.', '.'] {
        None
    } else {
        Some(p.parts.last())
    }
}

/// Where the last `.` of a name stands.
pub open spec fn last_dot(name: Seq<char>) -> Option<int>
    decreases name.len(),
{
    if name.len() == 0 {
        None
    } else if name.last() == '.' {
        Some(name.len() - 1)
    } else {
        last_dot(name.drop_last())
    }
}

/// A name without its extension. A name whose only dot leads it (`.hidden`)
/// has no extension.
pub open spec fn stem_of(name: Seq<char>) -> Seq<char> {
    match last_dot(name) {
        Some(k) => if k > 0 {
            name.subrange(0, k)
        } else {
            name
        },
        None => name,
    }
}

/// What follows the last `.` of a name, where that dot does not lead it.
pub open spec fn extension_of(name: Seq<char>) -> Option<Seq<char>> {
    match last_dot(name) {
        Some(k) => if k > 0 {
            Some(name.subrange(k + 1, name.len() as int))
        } else {
            None
        },
        None => None,
    }
}

pub open spec fn file_stem_of(p: PathView) -> Option<Seq<char>> {
    match file_name_of(p) {
        Some(n) => Some(stem_of(n)),
        None => None,
    }
}

pub open spec fn file_extension_of(p: PathView) -> Option<Seq<char>> {
    match file_name_of(p) {
        Some(n) => extension_of(n),
        None => None,
    }
}

/// `base` has the same root and its segments lead those of `p`.
pub open spec fn starts_with(p: PathView, base: PathView) -> bool {
    p.root == base.root && base.parts.len() <= p.parts.len() && p.parts.take(
        base.parts.len() as int,
    ) == base.parts
}

/// What is left of `p` below `base`, as a relative path.
pub open spec fn strip_prefix(p: PathView, base: PathView) -> Option<PathView> {
    if starts_with(p, base) {
        Some(PathView { root: Seq::empty(), parts: p.parts.skip(base.parts.len() as int) })
    } else {
        None
    }
}

/// `tail` appended to `base`; a `tail` with a root replaces `base`.
pub open spec fn join(base: PathView, tail: PathView) -> PathView {
    if tail.root.len() > 0 {
        tail
    } else {
        PathView { root: base.root, parts: base.parts + tail.parts }
    }
}

/// A path made absolute against the working directory `cwd`.
pub open spec fn absolutize_spec(p: PathView, cwd: PathView) -> PathView {
    if is_absolute(p) {
        p
    } else {
        join(cwd, p)
    }
}

/// The texts of a sequence of strings.
pub open spec fn texts(v: Seq<String>) -> Seq<Seq<char>> {
    v.map_values(|s: String| s@)
}

/// How far `a` and `b` agree, counting on from position `k`.
pub open spec fn lcp_from(a: Seq<Seq<char>>, b: Seq<Seq<char>>, k: int) -> int
    decreases a.len() - k,
{
    if 0 <= k && k < a.len() && k < b.len() && a[k] == b[k] {
        lcp_from(a, b, k + 1)
    } else {
        k
    }
}

/// The deepest directory that leads both `c` and `d`; none where their
/// roots differ.
pub open spec fn common_with(c: PathView, d: PathView) -> Option<PathView> {
    if c.root == d.root {
        Some(PathView { root: c.root, parts: c.parts.take(lcp_from(c.parts, d.parts, 0)) })
    } else {
        None
    }
}

/// A segment: non-empty, without a separator.
pub open spec fn is_segment(s: Seq<char>) -> bool {
    s.len() > 0 && forall|j: int| 0 <= j < s.len() ==> !is_sep(#[trigger] s[j])
}

/// A root as `parse` writes it: nothing, `/`, `X:` or `X:/`.
pub open spec fn is_root(r: Seq<char>) -> bool {
    r.len() == 0 || r == seq!['/'] || (r.len() == 2 && is_letter(r[0]) && r[1] == ':') || (
    r.len() == 3 && is_letter(r[0]) && r[1] == ':' && r[2] == '/')
}

/// A well-formed path: a root as `parse` writes it, and segments.
pub open spec fn wf_view(p: PathView) -> bool {
    is_root(p.root) && forall|k: int| 0 <= k < p.parts.len() ==> is_segment(#[trigger] p.parts[k])
}

/// What splitting keeps: closed segments, and an open run without
/// separators.
pub proof fn lemma_split_acc(s: Seq<char>)
    ensures
        0 <= split_acc(s).1 <= s.len(),
        forall|k: int| 0 <= k < split_acc(s).0.len() ==> is_segment(#[trigger] split_acc(s).0[k]),
        forall|j: int| split_acc(s).1 <= j < s.len() ==> !is_sep(#[trigger] s[j]),
    decreases s.len(),
{
    if s.len() > 0 {
        let pre = s.drop_last();
        lemma_split_acc(pre);
        let (done, start) = split_acc(pre);
        let n = s.len() - 1;
        if is_sep(s.last()) && start < n {
            let seg = s.subrange(start, n);
            assert forall|j: int| 0 <= j < seg.len() implies !is_sep(#[trigger] seg[j]) by {
                assert(seg[j] == pre[start + j]);
            }
            assert forall|k: int| 0 <= k < done.push(seg).len() implies is_segment(
                #[trigger] done.push(seg)[k],
            ) by {
                if k < done.len() {
                    assert(done.push(seg)[k] == done[k]);
                }
            }
        } else if !is_sep(s.last()) {
            assert forall|j: int| start <= j < s.len() implies !is_sep(#[trigger] s[j]) by {
                if j < n {
                    assert(s[j] == pre[j]);
                }
            }
        }
    }
}

/// Every segment of a text is a segment.
pub proof fn lemma_segments(s: Seq<char>)
    ensures
        forall|k: int| 0 <= k < segments(s).len() ==> is_segment(#[trigger] segments(s)[k]),
{
    lemma_split_acc(s);
    let (done, start) = split_acc(s);
    if start < s.len() {
        let seg = s.subrange(start, s.len() as int);
        assert forall|j: int| 0 <= j < seg.len() implies !is_sep(#[trigger] seg[j]) by {
            assert(seg[j] == s[start + j]);
        }
        assert forall|k: int| 0 <= k < done.push(seg).len() implies is_segment(
            #[trigger] done.push(seg)[k],
        ) by {
            if k < done.len() {
                assert(done.push(seg)[k] == done[k]);
            }
        }
    }
}

/// Reading on through characters that are no separators leaves the closed
/// segments and the start of the open one as they were.
pub proof fn lemma_split_append(s: Seq<char>, tail: Seq<char>)
    requires
        forall|j: int| 0 <= j < tail.len() ==> !is_sep(#[trigger] tail[j]),
    ensures
        split_acc(s + tail) == split_acc(s),
    decreases tail.len(),
{
    if tail.len() == 0 {
        assert(s + tail =~= s);
    } else {
        assert((s + tail).drop_last() =~= s + tail.drop_last());
        assert((s + tail).last() == tail.last());
        assert(!is_sep(tail[tail.len() - 1]));
        lemma_split_append(s, tail.drop_last());
    }
}

/// Whatever text is read, the path is well formed.
pub proof fn lemma_parse_wf(s: Seq<char>)
    ensures
        wf_view(parse_spec(s)),
{
    lemma_segments(s.skip(root_len(s)));
}

pub open spec fn all_segments(ps: Seq<Seq<char>>) -> bool {
    forall|k: int| 0 <= k < ps.len() ==> is_segment(#[trigger] ps[k])
}

proof fn lemma_subrange_segments(ps: Seq<Seq<char>>, from: int, to: int)
    requires
        all_segments(ps),
        0 <= from <= to <= ps.len(),
    ensures
        all_segments(ps.subrange(from, to)),
{
    assert forall|k: int| 0 <= k < ps.subrange(from, to).len() implies is_segment(
        #[trigger] ps.subrange(from, to)[k],
    ) by {
        assert(ps.subrange(from, to)[k] == ps[from + k]);
    }
}

proof fn lemma_concat_segments(a: Seq<Seq<char>>, b: Seq<Seq<char>>)
    requires
        all_segments(a),
        all_segments(b),
    ensures
        all_segments(a + b),
{
    assert forall|k: int| 0 <= k < (a + b).len() implies is_segment(#[trigger] (a + b)[k]) by {
        if k < a.len() {
            assert((a + b)[k] == a[k]);
        } else {
            assert((a + b)[k] == b[k - a.len()]);
        }
    }
}

/// A file path: its root and its segments.
#[derive(Debug)]
pub struct FilePath {
    root: String,
    parts: Vec<String>,
}

impl View for FilePath {
    type V = PathView;

    closed spec fn view(&self) -> PathView {
        PathView { root: self.root@, parts: texts(self.parts@) }
    }
}

fn copy_parts(v: &Vec<String>, from: usize, to: usize) -> (r: Vec<String>)
    requires
        from <= to <= v@.len(),
    ensures
        texts(r@) == texts(v@).subrange(from as int, to as int),
{
    let mut r: Vec<String> = Vec::new();
    let mut i: usize = from;
    while i < to
        invariant
            from <= i <= to <= v@.len(),
            r@.len() == i - from,
            texts(r@) == texts(v@).subrange(from as int, i as int),
        decreases to - i,
    {
        let piece = v[i].clone();
        assert(piece@ == v@[i as int]@);
        let ghost before = r@;
        r.push(piece);
        assert(r@ == before.push(piece));
        assert forall|j: int| 0 <= j < r@.len() implies #[trigger] texts(r@)[j] == texts(v@).subrange(
            from as int,
            i + 1,
        )[j] by {
            if j < before.len() {
                assert(texts(before)[j] == texts(v@).subrange(from as int, i as int)[j]);
                assert(r@[j] == before[j]);
            } else {
                assert(r@[j] == piece);
                assert(texts(v@)[i as int] == v@[i as int]@);
            }
        }
        assert(texts(r@) =~= texts(v@).subrange(from as int, i + 1));
        i = i + 1;
    }
    r
}

fn append_parts(r: &mut Vec<String>, v: &Vec<String>)
    ensures
        texts(final(r)@) == texts(old(r)@) + texts(v@),
{
    let mut i: usize = 0;
    while i < v.len()
        invariant
            0 <= i <= v@.len(),
            r@.len() == old(r)@.len() + i,
            texts(r@) == texts(old(r)@) + texts(v@).take(i as int),
        decreases v@.len() - i,
    {
        let piece = v[i].clone();
        assert(piece@ == v@[i as int]@);
        let ghost before = r@;
        r.push(piece);
        assert(r@ == before.push(piece));
        assert forall|j: int| 0 <= j < r@.len() implies #[trigger] texts(r@)[j] == (texts(old(r)@)
            + texts(v@).take(i + 1))[j] by {
            if j < before.len() {
                assert(texts(before)[j] == (texts(old(r)@) + texts(v@).take(i as int))[j]);
                assert(r@[j] == before[j]);
            } else {
                assert(r@[j] == piece);
                assert(texts(v@)[i as int] == v@[i as int]@);
            }
        }
        assert(texts(r@) =~= texts(old(r)@) + texts(v@).take(i + 1));
        i = i + 1;
    }
    assert(texts(v@).take(v@.len() as int) =~= texts(v@));
}

/// Splits `t` at its separators.
fn split_segments(t: &str) -> (r: Vec<String>)
    ensures
        texts(r@) == segments(t@),
{
    let n = t.unicode_len();
    let mut done: Vec<String> = Vec::new();
    let mut start: usize = 0;
    let mut i: usize = 0;
    while i < n
        invariant
            n == t@.len(),
            0 <= start <= i <= n,
            split_acc(t@.subrange(0, i as int)) == (texts(done@), start as int),
        decreases n - i,
    {
        let c = t.get_char(i);
        let ghost pre = t@.subrange(0, i as int);
        let ghost post = t@.subrange(0, i + 1);
        assert(post.drop_last() =~= pre);
        assert(post.last() == c);
        if c == '/' || c == '\\' {
            if start < i {
                let seg = t.substring_char(start, i);
                assert(post.subrange(start as int, i as int) =~= seg@);
                done.push(String::from_str(seg));
                assert(texts(done@) =~= split_acc(post).0);
            }
            start = i + 1;
        }
        i = i + 1;
    }
    assert(t@.subrange(0, n as int) =~= t@);
    if start < n {
        let seg = t.substring_char(start, n);
        done.push(String::from_str(seg));
        assert(texts(done@) =~= segments(t@));
    }
    done
}

impl FilePath {
    #[verifier::type_invariant]
    closed spec fn inv(&self) -> bool {
        wf_view(self@)
    }

    /// Reads a path from its text.
    pub fn parse(s: &str) -> (r: FilePath)
        ensures
            r@ == parse_spec(s@),
    {
        let n = s.unicode_len();
        let mut root = String::new();
        let mut rl: usize = 0;
        let drive = n >= 2 && {
            let c0 = s.get_char(0);
            (('a' <= c0 && c0 <= 'z') || ('A' <= c0 && c0 <= 'Z')) && s.get_char(1) == ':'
        };
        if drive {
            root.append(s.substring_char(0, 2));
            rl = 2;
            if n >= 3 && {
                let c2 = s.get_char(2);
                c2 == '/' || c2 == '\\'
            } {
                proof {
                    reveal_strlit("/");
                }
                root.append("/");
                rl = 3;
            }
            assert(root@ =~= root_of(s@));
        } else if n >= 1 && {
            let c0 = s.get_char(0);
            c0 == '/' || c0 == '\\'
        } {
            proof {
                reveal_strlit("/");
            }
            root.append("/");
            rl = 1;
            assert(root@ =~= root_of(s@));
        } else {
            assert(root@ =~= root_of(s@));
        }
        let rest = s.substring_char(rl, n);
        assert(rest@ =~= s@.skip(root_len(s@)));
        let parts = split_segments(rest);
        proof {
            lemma_parse_wf(s@);
        }
        FilePath { root, parts }
    }

    /// The text of the path: its root, then its segments joined by `/`.
    pub fn to_text(&self) -> (r: String)
        ensures
            r@ == render(self@),
            wf_view(self@),
    {
        proof {
            use_type_invariant(self);
        }
        let mut r = self.root.clone();
        let mut i: usize = 0;
        while i < self.parts.len()
            invariant
                0 <= i <= self.parts@.len(),
                r@ == self.root@ + join_parts(texts(self.parts@).take(i as int)),
            decreases self.parts@.len() - i,
        {
            proof {
                reveal_strlit("/");
            }
            let ghost ps = texts(self.parts@).take(i + 1);
            assert(ps.drop_last() =~= texts(self.parts@).take(i as int));
            if i > 0 {
                r.append("/");
            }
            r.append(self.parts[i].as_str());
            assert(r@ =~= self.root@ + join_parts(ps));
            i = i + 1;
        }
        assert(texts(self.parts@).take(self.parts@.len() as int) =~= texts(self.parts@));
        r
    }
}


/// The view of an optional path.
pub open spec fn opt_view(o: Option<FilePath>) -> Option<PathView> {
    match o {
        Some(p) => Some(p@),
        None => None,
    }
}

/// The text of an optional string.
pub open spec fn opt_text(o: Option<String>) -> Option<Seq<char>> {
    match o {
        Some(t) => Some(t@),
        None => None,
    }
}

/// Where the last `.` of `t` stands.
fn find_last_dot(t: &str) -> (r: Option<usize>)
    ensures
        match r {
            Some(k) => last_dot(t@) == Some(k as int) && k < t@.len(),
            None => last_dot(t@) is None,
        },
{
    let n = t.unicode_len();
    let mut found: Option<usize> = None;
    let mut i: usize = 0;
    while i < n
        invariant
            n == t@.len(),
            0 <= i <= n,
            match found {
                Some(k) => last_dot(t@.subrange(0, i as int)) == Some(k as int) && k < i,
                None => last_dot(t@.subrange(0, i as int)) is None,
            },
        decreases n - i,
    {
        assert(t@.subrange(0, i + 1).drop_last() =~= t@.subrange(0, i as int));
        if t.get_char(i) == '.' {
            found = Some(i);
        }
        i = i + 1;
    }
    assert(t@.subrange(0, n as int) =~= t@);
    found
}

impl FilePath {
    /// The empty relative path.
    pub fn empty() -> (r: FilePath)
        ensures
            r@ == empty_path(),
    {
        let r = FilePath { root: String::new(), parts: Vec::new() };
        assert(texts(r.parts@) =~= Seq::<Seq<char>>::empty());
        r
    }

    /// An equal path.
    pub fn duplicate(&self) -> (r: FilePath)
        ensures
            r@ == self@,
    {
        proof {
            use_type_invariant(self);
        }
        let parts = copy_parts(&self.parts, 0, self.parts.len());
        assert(texts(self.parts@).subrange(0, self.parts@.len() as int) =~= texts(self.parts@));
        FilePath { root: self.root.clone(), parts }
    }

    /// Whether the two paths have the same root and segments.
    pub fn same_as(&self, other: &FilePath) -> (r: bool)
        ensures
            r == (self@ == other@),
    {
        if self.root != other.root || self.parts.len() != other.parts.len() {
            proof {
                if self@ == other@ {
                    assert(texts(self.parts@).len() == self.parts@.len());
                    assert(texts(other.parts@).len() == other.parts@.len());
                }
            }
            return false;
        }
        let mut i: usize = 0;
        while i < self.parts.len()
            invariant
                0 <= i <= self.parts@.len(),
                self.parts@.len() == other.parts@.len(),
                self.root@ == other.root@,
                forall|j: int| 0 <= j < i ==> self.parts@[j]@ == other.parts@[j]@,
            decreases self.parts@.len() - i,
        {
            if self.parts[i] != other.parts[i] {
                proof {
                    if self@ == other@ {
                        assert(texts(self.parts@)[i as int] == texts(other.parts@)[i as int]);
                    }
                }
                return false;
            }
            i = i + 1;
        }
        assert(texts(self.parts@) =~= texts(other.parts@));
        true
    }

    /// Whether the path is absolute.
    pub fn is_absolute(&self) -> (r: bool)
        ensures
            r == is_absolute(self@),
    {
        let n = self.root.as_str().unicode_len();
        n > 0 && self.root.as_str().get_char(n - 1) == '/'
    }

    /// The enclosing directory, if the path has a segment.
    pub fn parent(&self) -> (r: Option<FilePath>)
        ensures
            opt_view(r) == parent_of(self@),
    {
        let n = self.parts.len();
        if n == 0 {
            None
        } else {
            proof {
                use_type_invariant(self);
                lemma_subrange_segments(texts(self.parts@), 0, n - 1);
            }
            let parts = copy_parts(&self.parts, 0, n - 1);
            assert(texts(self.parts@).subrange(0, n - 1) =~= texts(self.parts@).drop_last());
            Some(FilePath { root: self.root.clone(), parts })
        }
    }

    /// The parent, or the empty path where there is none.
    pub fn parent_or_empty(&self) -> (r: FilePath)
        ensures
            r@ == parent_or_empty(self@),
    {
        match self.parent() {
            Some(q) => q,
            None => FilePath::empty(),
        }
    }

    /// The last segment, unless it is `.` or `..`.
    pub fn file_name(&self) -> (r: Option<String>)
        ensures
            opt_text(r) == file_name_of(self@),
    {
        let n = self.parts.len();
        if n == 0 {
            return None;
        }
        let last = &self.parts[n - 1];
        assert(texts(self.parts@).last() == last@);
        let dot = String::from_str(".");
        let dots = String::from_str("..");
        proof {
            reveal_strlit(".");
            reveal_strlit("..");
            assert(dot@ =~= seq!['.']);
            assert(dots@ =~= seq!['.', '.']);
        }
        if *last == dot || *last == dots {
            None
        } else {
            Some(last.clone())
        }
    }

    /// The file name without its extension.
    pub fn file_stem(&self) -> (r: Option<String>)
        ensures
            opt_text(r) == file_stem_of(self@),
            wf_view(self@),
    {
        proof {
            use_type_invariant(self);
        }
        match self.file_name() {
            None => None,
            Some(name) => match find_last_dot(name.as_str()) {
                Some(k) => {
                    if k > 0 {
                        Some(String::from_str(name.as_str().substring_char(0, k)))
                    } else {
                        Some(name)
                    }
                },
                None => Some(name),
            },
        }
    }

    /// What follows the last `.` of the file name.
    pub fn extension(&self) -> (r: Option<String>)
        ensures
            opt_text(r) == file_extension_of(self@),
    {
        match self.file_name() {
            None => None,
            Some(name) => match find_last_dot(name.as_str()) {
                Some(k) => {
                    if k > 0 {
                        let n = name.as_str().unicode_len();
                        Some(String::from_str(name.as_str().substring_char(k + 1, n)))
                    } else {
                        None
                    }
                },
                None => None,
            },
        }
    }

    /// Whether `base` has the same root and its segments lead this path's.
    pub fn starts_with(&self, base: &FilePath) -> (r: bool)
        ensures
            r == starts_with(self@, base@),
    {
        let ghost ps = texts(self.parts@);
        let ghost bs = texts(base.parts@);
        assert(ps.len() == self.parts@.len());
        assert(bs.len() == base.parts@.len());
        if self.root != base.root || base.parts.len() > self.parts.len() {
            return false;
        }
        let mut i: usize = 0;
        while i < base.parts.len()
            invariant
                0 <= i <= base.parts@.len() <= self.parts@.len(),
                ps == texts(self.parts@),
                bs == texts(base.parts@),
                ps.len() == self.parts@.len(),
                bs.len() == base.parts@.len(),
                forall|j: int| 0 <= j < i ==> ps[j] == bs[j],
            decreases base.parts@.len() - i,
        {
            if self.parts[i] != base.parts[i] {
                assert(ps.take(bs.len() as int)[i as int] == ps[i as int]);
                return false;
            }
            assert(ps[i as int] == self.parts@[i as int]@);
            i = i + 1;
        }
        assert(ps.take(bs.len() as int) =~= bs);
        true
    }

    /// What is left of this path below `base`, as a relative path.
    pub fn strip_prefix(&self, base: &FilePath) -> (r: Option<FilePath>)
        ensures
            opt_view(r) == strip_prefix(self@, base@),
    {
        if self.starts_with(base) {
            proof {
                use_type_invariant(self);
                lemma_subrange_segments(
                    texts(self.parts@),
                    base.parts@.len() as int,
                    self.parts@.len() as int,
                );
            }
            let parts = copy_parts(&self.parts, base.parts.len(), self.parts.len());
            let r = FilePath { root: String::new(), parts };
            assert(texts(self.parts@).subrange(base.parts@.len() as int, self.parts@.len() as int)
                =~= texts(self.parts@).skip(texts(base.parts@).len() as int));
            Some(r)
        } else {
            None
        }
    }

    /// `tail` appended to this path; a `tail` with a root replaces it.
    pub fn join(&self, tail: &FilePath) -> (r: FilePath)
        ensures
            r@ == join(self@, tail@),
    {
        if tail.root.as_str().unicode_len() > 0 {
            tail.duplicate()
        } else {
            proof {
                use_type_invariant(self);
                use_type_invariant(tail);
                assert(wf_view(self@));
                assert(all_segments(self@.parts));
                assert(all_segments(tail@.parts));
                lemma_concat_segments(texts(self.parts@), texts(tail.parts@));
            }
            let mut parts = copy_parts(&self.parts, 0, self.parts.len());
            assert(texts(self.parts@).subrange(0, self.parts@.len() as int) =~= texts(self.parts@));
            append_parts(&mut parts, &tail.parts);
            FilePath { root: self.root.clone(), parts }
        }
    }

    /// This path followed by the segments of `text`.
    pub fn join_text(&self, text: &str) -> (r: FilePath)
        ensures
            r@ == (PathView { root: self@.root, parts: self@.parts + segments(text@) }),
    {
        proof {
            use_type_invariant(self);
            lemma_segments(text@);
            assert(all_segments(self@.parts));
            lemma_concat_segments(texts(self.parts@), segments(text@));
        }
        let mut parts = copy_parts(&self.parts, 0, self.parts.len());
        assert(texts(self.parts@).subrange(0, self.parts@.len() as int) =~= texts(self.parts@));
        let more = split_segments(text);
        append_parts(&mut parts, &more);
        FilePath { root: self.root.clone(), parts }
    }

    /// The path made absolute against the working directory `cwd`.
    pub fn absolutize(&self, cwd: &FilePath) -> (r: FilePath)
        ensures
            r@ == absolutize_spec(self@, cwd@),
    {
        if self.is_absolute() {
            self.duplicate()
        } else {
            cwd.join(self)
        }
    }
}

impl FilePath {
    /// The deepest directory that leads both paths; none where their roots
    /// differ.
    pub fn common_with(&self, other: &FilePath) -> (r: Option<FilePath>)
        ensures
            opt_view(r) == common_with(self@, other@),
    {
        if self.root != other.root {
            return None;
        }
        let ghost a = texts(self.parts@);
        let ghost b = texts(other.parts@);
        assert(a.len() == self.parts@.len());
        assert(b.len() == other.parts@.len());
        let mut k: usize = 0;
        loop
            invariant
                0 <= k <= self.parts@.len(),
                k <= other.parts@.len(),
                a == texts(self.parts@),
                b == texts(other.parts@),
                a.len() == self.parts@.len(),
                b.len() == other.parts@.len(),
                lcp_from(a, b, k as int) == lcp_from(a, b, 0),
        ensures
            lcp_from(a, b, 0) == k,
            0 <= k <= self.parts@.len(),
            a == texts(self.parts@),
        decreases self.parts@.len() - k,
        {
            if k >= self.parts.len() || k >= other.parts.len() {
                assert(lcp_from(a, b, k as int) == k);
                break;
            }
            if self.parts[k] != other.parts[k] {
                assert(a[k as int] != b[k as int]);
                assert(lcp_from(a, b, k as int) == k);
                break;
            }
            assert(a[k as int] == b[k as int]);
            k = k + 1;
        }
        proof {
            use_type_invariant(self);
            lemma_subrange_segments(a, 0, k as int);
        }
        let parts = copy_parts(&self.parts, 0, k);
        assert(a.subrange(0, k as int) =~= a.take(k as int));
        Some(FilePath { root: self.root.clone(), parts })
    }
}

/// A path made absolute against an absolute working directory starts with
/// its root, `/` or a drive letter, so it never starts with `-` and no tool
/// can take it for an option.
pub proof fn law_absolutized_not_option(p: PathView, cwd: PathView)
    requires
        wf_view(p),
        wf_view(cwd),
        is_absolute(cwd),
    ensures
        absolutize_spec(p, cwd).root.len() > 0,
        render(absolutize_spec(p, cwd)).len() > 0,
        render(absolutize_spec(p, cwd))[0] != '-',
{
    let r = absolutize_spec(p, cwd);
    assert(is_root(r.root));
    assert(r.root.len() > 0);
    assert(render(r)[0] == r.root[0]);
    if r.root == seq!['/'] {
        assert(r.root[0] == '/');
    }
}

impl PartialEq for FilePath {
    fn eq(&self, other: &FilePath) -> (r: bool) {
        self.same_as(other)
    }
}

impl vstd::std_specs::cmp::PartialEqSpecImpl for FilePath {
    open spec fn obeys_eq_spec() -> bool {
        true
    }

    open spec fn eq_spec(&self, other: &FilePath) -> bool {
        self@ == other@
    }
}

} // verus!
