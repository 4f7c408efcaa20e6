//! Where each converted file goes: the output name (stem, suffix,
//! extension) and the directory below the output root that keeps the
//! batch's relative layout.

use vstd::prelude::*;
use crate::path::{
    FilePath,
    PathView,
    common_with,
    empty_path,
    extension_of,
    is_segment,
    stem_of,
    file_extension_of,
    file_name_of,
    file_stem_of,
    lemma_split_acc,
    lemma_split_append,
    segments,
    split_acc,
    is_sep,
    wf_view,
    join,
    last_dot,
    lcp_from,
    opt_text,
    opt_view,
    parent_of,
    parent_or_empty,
    starts_with,
    strip_prefix,
};
use crate::tools::{ConversionMode, OutputFormat};

verus! {

/// The views of a sequence of paths.
pub open spec fn views(s: Seq<FilePath>) -> Seq<PathView> {
    s.map_values(|p: FilePath| p@)
}

/// The parents of the paths that have one, in order.
pub open spec fn parents_of(ps: Seq<PathView>) -> Seq<PathView>
    decreases ps.len(),
{
    if ps.len() == 0 {
        Seq::empty()
    } else {
        let rest = parents_of(ps.drop_last());
        match parent_of(ps.last()) {
            Some(q) => rest.push(q),
            None => rest,
        }
    }
}

/// The deepest directory that leads every directory of `dirs`: the first
/// one, cut back to what it shares with each of the others in turn. None
/// for no directories, or where two roots differ.
pub open spec fn ancestor_of(dirs: Seq<PathView>) -> Option<PathView>
    decreases dirs.len(),
{
    if dirs.len() == 0 {
        None
    } else if dirs.len() == 1 {
        Some(dirs[0])
    } else {
        match ancestor_of(dirs.drop_last()) {
            Some(c) => common_with(c, dirs.last()),
            None => None,
        }
    }
}

/// The common ancestor of the inputs' parent directories.
pub open spec fn common_parent_of(inputs: Seq<PathView>) -> Option<PathView> {
    ancestor_of(parents_of(inputs))
}

/// The extension of every output: the custom one where set, else the
/// mode's (and for the regular mode, the format's).
pub open spec fn output_extension_spec(
    custom: Option<Seq<char>>,
    mode: ConversionMode,
    format: OutputFormat,
) -> Seq<char> {
    match custom {
        Some(e) => e,
        None => mode.spec_default_extension(format),
    }
}

/// `stem.ext`, or `stem_suffix.ext` for a non-empty suffix.
pub open spec fn output_name(stem: Seq<char>, suffix: Seq<char>, ext: Seq<char>) -> Seq<char> {
    if suffix.len() == 0 {
        stem + seq!['.'] + ext
    } else {
        stem + seq!['_'] + suffix + seq!['.'] + ext
    }
}

/// The directory an input's layout is taken relative to: its own parent in
/// a batch of one, else the common ancestor of the batch; none where the
/// batch has no common ancestor.
pub open spec fn reference_dir(input: PathView, batch: Seq<PathView>) -> Option<PathView> {
    if batch.len() == 1 {
        Some(parent_or_empty(input))
    } else {
        common_parent_of(batch)
    }
}

/// The input's directory below `base`; empty where there is no reference
/// directory or the input is not below it, so that the output lands
/// directly in the output root.
pub open spec fn relative_dir(input: PathView, base: Option<PathView>) -> PathView {
    match base {
        Some(b) => match strip_prefix(parent_or_empty(input), b) {
            Some(r) => r,
            None => empty_path(),
        },
        None => empty_path(),
    }
}

/// The output of `input` with `base` as reference directory: the output
/// root, the input's directory below `base`, then the output name, read as
/// a relative path (a separator in the suffix or extension opens a
/// subdirectory). Fails only where the input has no file stem.
pub open spec fn output_path_under(
    input: PathView,
    output_root: PathView,
    base: Option<PathView>,
    suffix: Seq<char>,
    custom: Option<Seq<char>>,
    mode: ConversionMode,
    format: OutputFormat,
) -> Result<PathView, PathError> {
    match file_stem_of(input) {
        None => Err(PathError::NoFileStem),
        Some(stem) => {
            let name = output_name(stem, suffix, output_extension_spec(custom, mode, format));
            let dir = join(output_root, relative_dir(input, base));
            Ok(PathView { root: dir.root, parts: dir.parts + segments(name) })
        },
    }
}

/// The output of `input` within `batch`.
pub open spec fn output_path_spec(
    input: PathView,
    output_root: PathView,
    batch: Seq<PathView>,
    suffix: Seq<char>,
    custom: Option<Seq<char>>,
    mode: ConversionMode,
    format: OutputFormat,
) -> Result<PathView, PathError> {
    output_path_under(
        input,
        output_root,
        reference_dir(input, batch),
        suffix,
        custom,
        mode,
        format,
    )
}

/// The view of a derived output.
pub open spec fn result_view(r: Result<FilePath, PathError>) -> Result<PathView, PathError> {
    match r {
        Ok(p) => Ok(p@),
        Err(e) => Err(e),
    }
}

/// Why no output path could be derived.
#[derive(Clone, Copy, Debug, PartialEq, Eq, Structural)]
pub enum PathError {
    /// The input names no file (it is empty, a bare root, or ends in `..`).
    NoFileStem,
}

/// The common ancestor of the parent directories of `paths`.
pub fn find_common_parent_dir(paths: &Vec<FilePath>) -> (r: Option<FilePath>)
    ensures
        opt_view(r) == common_parent_of(views(paths@)),
{
    let ghost vs = views(paths@);
    let mut dirs: Vec<FilePath> = Vec::new();
    let mut i: usize = 0;
    while i < paths.len()
        invariant
            0 <= i <= paths@.len(),
            vs == views(paths@),
            vs.len() == paths@.len(),
            views(dirs@) == parents_of(vs.take(i as int)),
            dirs@.len() == views(dirs@).len(),
        decreases paths@.len() - i,
    {
        let ghost pre = vs.take(i as int);
        assert(vs.take(i + 1).drop_last() =~= pre);
        assert(vs.take(i + 1).last() == paths@[i as int]@);
        let ghost before = dirs@;
        match paths[i].parent() {
            Some(q) => {
                dirs.push(q);
                assert(views(dirs@) =~= views(before).push(q@));
            },
            None => {},
        }
        i = i + 1;
    }
    assert(vs.take(paths@.len() as int) =~= vs);
    let ghost ds = views(dirs@);
    if dirs.len() == 0 {
        return None;
    }
    let mut common: Option<FilePath> = Some(dirs[0].duplicate());
    assert(ds.take(1) =~= seq![ds[0]]);
    let mut j: usize = 1;
    while j < dirs.len()
        invariant
            1 <= j <= dirs@.len(),
            ds == views(dirs@),
            ds.len() == dirs@.len(),
            opt_view(common) == ancestor_of(ds.take(j as int)),
        decreases dirs@.len() - j,
    {
        assert(ds.take(j + 1).drop_last() =~= ds.take(j as int));
        assert(ds.take(j + 1).last() == dirs@[j as int]@);
        common = match common {
            Some(c) => c.common_with(&dirs[j]),
            None => None,
        };
        j = j + 1;
    }
    assert(ds.take(dirs@.len() as int) =~= ds);
    common
}

/// The extension given to outputs.
pub fn output_extension(
    custom_extension: &Option<String>,
    mode: ConversionMode,
    format: OutputFormat,
) -> (r: String)
    ensures
        r@ == output_extension_spec(opt_text(*custom_extension), mode, format),
{
    match custom_extension {
        Some(e) => e.clone(),
        None => String::from_str(mode.default_extension(format)),
    }
}

/// The output file name for a stem.
pub fn output_file_name(stem: &str, suffix: &str, ext: &str) -> (r: String)
    ensures
        r@ == output_name(stem@, suffix@, ext@),
{
    proof {
        reveal_strlit(".");
        reveal_strlit("_");
    }
    let mut r = String::from_str(stem);
    if suffix.unicode_len() > 0 {
        r.append("_");
        r.append(suffix);
    }
    r.append(".");
    r.append(ext);
    assert(r@ =~= output_name(stem@, suffix@, ext@));
    r
}

/// The directory an input's layout is taken relative to, within `batch`.
pub fn reference_dir_of(input: &FilePath, batch: &Vec<FilePath>) -> (r: Option<FilePath>)
    ensures
        opt_view(r) == reference_dir(input@, views(batch@)),
{
    assert(views(batch@).len() == batch@.len());
    if batch.len() == 1 {
        Some(input.parent_or_empty())
    } else {
        find_common_parent_dir(batch)
    }
}

/// The output of `input` with `base` as reference directory.
pub fn output_path_under_dir(
    input: &FilePath,
    output_root: &FilePath,
    base: &Option<FilePath>,
    suffix: &str,
    custom_extension: &Option<String>,
    mode: ConversionMode,
    format: OutputFormat,
) -> (r: Result<FilePath, PathError>)
    ensures
        result_view(r) == output_path_under(
            input@,
            output_root@,
            opt_view(*base),
            suffix@,
            opt_text(*custom_extension),
            mode,
            format,
        ),
{
    let stem = match input.file_stem() {
        Some(s) => s,
        None => {
            return Err(PathError::NoFileStem);
        },
    };
    let ext = output_extension(custom_extension, mode, format);
    let name = output_file_name(stem.as_str(), suffix, ext.as_str());
    let rel = match base {
        Some(b) => match input.parent_or_empty().strip_prefix(b) {
            Some(r) => r,
            None => FilePath::empty(),
        },
        None => FilePath::empty(),
    };
    let dir = output_root.join(&rel);
    Ok(dir.join_text(name.as_str()))
}

/// The output of `input` within `batch`: the output root, the input's
/// directory below the batch's reference directory, then
/// `stem[_suffix].ext`.
pub fn get_output_path(
    input: &FilePath,
    output_root: &FilePath,
    batch: &Vec<FilePath>,
    suffix: &str,
    custom_extension: &Option<String>,
    mode: ConversionMode,
    format: OutputFormat,
) -> (r: Result<FilePath, PathError>)
    ensures
        result_view(r) == output_path_spec(
            input@,
            output_root@,
            views(batch@),
            suffix@,
            opt_text(*custom_extension),
            mode,
            format,
        ),
{
    let base = reference_dir_of(input, batch);
    output_path_under_dir(input, output_root, &base, suffix, custom_extension, mode, format)
}

proof fn lemma_last_dot_dot_free(a: Seq<char>, b: Seq<char>)
    requires
        forall|j: int| 0 <= j < b.len() ==> b[j] != '.',
    ensures
        last_dot(a + b) == last_dot(a),
    decreases b.len(),
{
    if b.len() > 0 {
        assert((a + b).drop_last() =~= a + b.drop_last());
        assert((a + b).last() == b.last());
        lemma_last_dot_dot_free(a, b.drop_last());
    } else {
        assert(a + b =~= a);
    }
}

/// A name `x.e` with `x` non-empty and no dot in `e` has the extension `e`.
proof fn lemma_name_extension(x: Seq<char>, e: Seq<char>)
    requires
        x.len() > 0,
        forall|j: int| 0 <= j < e.len() ==> e[j] != '.',
    ensures
        extension_of(x + seq!['.'] + e) == Some(e),
{
    let xd = x + seq!['.'];
    assert(xd.last() == '.');
    assert(last_dot(xd) == Some(x.len() as int));
    lemma_last_dot_dot_free(xd, e);
    assert((xd + e).subrange(x.len() + 1 as int, (xd + e).len() as int) =~= e);
}

/// No character of `s` is a separator.
pub open spec fn no_sep(s: Seq<char>) -> bool {
    forall|j: int| 0 <= j < s.len() ==> !is_sep(#[trigger] s[j])
}

/// No character of `s` is a dot.
pub open spec fn no_dot(s: Seq<char>) -> bool {
    forall|j: int| 0 <= j < s.len() ==> #[trigger] s[j] != '.'
}

proof fn lemma_last_dot_bound(name: Seq<char>)
    ensures
        last_dot(name) matches Some(k) ==> 0 <= k < name.len(),
    decreases name.len(),
{
    if name.len() > 0 {
        lemma_last_dot_bound(name.drop_last());
    }
}

/// The stem of a well-formed path is a segment.
proof fn lemma_stem_segment(input: PathView)
    requires
        wf_view(input),
        file_stem_of(input) is Some,
    ensures
        is_segment(file_stem_of(input).unwrap()),
{
    let name = input.parts.last();
    assert(is_segment(input.parts[input.parts.len() - 1]));
    lemma_last_dot_bound(name);
    let stem = stem_of(name);
    match last_dot(name) {
        Some(k) => {
            if k > 0 {
                assert forall|j: int| 0 <= j < stem.len() implies !is_sep(#[trigger] stem[j]) by {
                    assert(stem[j] == name[j]);
                }
            }
        },
        None => {},
    }
}

/// What stands before the `.` of an output name: the stem, then `_suffix`
/// for a non-empty suffix.
pub open spec fn name_head(stem: Seq<char>, suffix: Seq<char>) -> Seq<char> {
    if suffix.len() == 0 {
        stem
    } else {
        stem + seq!['_'] + suffix
    }
}

/// The text after the last separator of `x` (all of `x` where it has none).
pub open spec fn after_last_sep(x: Seq<char>) -> Seq<char> {
    x.subrange(split_acc(x).1, x.len() as int)
}

/// The head of the name of a well-formed input with a stem is not empty,
/// holds no separator but those of the suffix, and ends in none where the
/// suffix does not.
proof fn lemma_name_head(input: PathView, suffix: Seq<char>)
    requires
        wf_view(input),
        file_stem_of(input) is Some,
    ensures
        name_head(file_stem_of(input).unwrap(), suffix).len() > 0,
        (suffix.len() == 0 || !is_sep(suffix.last())) ==> !is_sep(
            name_head(file_stem_of(input).unwrap(), suffix).last(),
        ),
        no_sep(suffix) ==> no_sep(name_head(file_stem_of(input).unwrap(), suffix)),
{
    let stem = file_stem_of(input).unwrap();
    lemma_stem_segment(input);
    let x = name_head(stem, suffix);
    assert(!is_sep(stem[stem.len() - 1]));
    if suffix.len() > 0 {
        assert(x.last() == suffix.last());
        if no_sep(suffix) {
            assert forall|j: int| 0 <= j < x.len() implies !is_sep(#[trigger] x[j]) by {
                if j < stem.len() {
                    assert(x[j] == stem[j]);
                } else if j > stem.len() {
                    assert(x[j] == suffix[j - stem.len() - 1]);
                }
            }
        }
    }
}

/// The output of a well-formed input with a stem ends in the segment
/// `after_last_sep(head) + "." + ext`, which carries the extension `ext`.
proof fn lemma_output_named(
    input: PathView,
    output_root: PathView,
    batch: Seq<PathView>,
    suffix: Seq<char>,
    custom: Option<Seq<char>>,
    mode: ConversionMode,
    format: OutputFormat,
    ext: Seq<char>,
)
    requires
        wf_view(input),
        file_stem_of(input) is Some,
        ext == output_extension_spec(custom, mode, format),
        no_dot(ext),
        no_sep(ext),
        suffix.len() == 0 || !is_sep(suffix.last()),
        !(ext.len() == 0 && after_last_sep(name_head(file_stem_of(input).unwrap(), suffix))
            == seq!['.']),
    ensures
        output_path_spec(input, output_root, batch, suffix, custom, mode, format) matches Ok(out)
            && file_extension_of(out) == Some(ext),
{
    let stem = file_stem_of(input).unwrap();
    lemma_name_head(input, suffix);
    let x = name_head(stem, suffix);
    let tail = seq!['.'] + ext;
    assert forall|j: int| 0 <= j < tail.len() implies !is_sep(#[trigger] tail[j]) by {
        if j > 0 {
            assert(tail[j] == ext[j - 1]);
        }
    }
    let name = output_name(stem, suffix, ext);
    assert(name =~= x + tail);
    lemma_split_append(x, tail);
    lemma_split_acc(x.drop_last());
    lemma_split_acc(x);
    let start = split_acc(x).1;
    assert(start < x.len());
    let t = after_last_sep(x);
    assert(t.len() > 0);
    let last = name.subrange(start, name.len() as int);
    assert(last =~= t + seq!['.'] + ext);
    assert(segments(name) == split_acc(x).0.push(last));
    lemma_name_extension(t, ext);
    assert(last.len() == t.len() + 1 + ext.len());
    assert(seq!['.'].len() == 1);
    assert(seq!['.', '.'].len() == 2);
    if ext.len() > 0 {
        assert(last.last() == ext.last());
        assert(last != seq!['.']);
        assert(last != seq!['.', '.']);
    } else {
        assert(last.last() == '.');
        if last == seq!['.', '.'] {
            assert(last.drop_last() =~= seq!['.']);
            assert(t =~= last.drop_last());
        }
        assert(last != seq!['.', '.']);
        assert(last != seq!['.']);
    }
    let out = output_path_spec(input, output_root, batch, suffix, custom, mode, format)->Ok_0;
    assert(out.parts.last() == last);
    assert(out.parts.len() > 0);
    assert(file_name_of(out) == Some(last));
}

/// A well-formed input's output name without separators is one segment.
proof fn lemma_name_single(
    input: PathView,
    suffix: Seq<char>,
    custom: Option<Seq<char>>,
    mode: ConversionMode,
    format: OutputFormat,
)
    requires
        wf_view(input),
        file_stem_of(input) is Some,
        no_sep(suffix),
        custom matches Some(e) ==> no_sep(e),
    ensures
        segments(
            output_name(
                file_stem_of(input).unwrap(),
                suffix,
                output_extension_spec(custom, mode, format),
            ),
        ) == seq![
            output_name(
                file_stem_of(input).unwrap(),
                suffix,
                output_extension_spec(custom, mode, format),
            ),
        ],
{
    reveal_strlit("xml");
    reveal_strlit("hkx");
    reveal_strlit("kf");
    let stem = file_stem_of(input).unwrap();
    lemma_name_head(input, suffix);
    let x = name_head(stem, suffix);
    let ext = output_extension_spec(custom, mode, format);
    let name = output_name(stem, suffix, ext);
    assert(name =~= x + seq!['.'] + ext);
    assert forall|j: int| 0 <= j < name.len() implies !is_sep(#[trigger] name[j]) by {
        if j < x.len() {
            assert(name[j] == x[j]);
        } else if j > x.len() {
            assert(name[j] == ext[j - x.len() - 1]);
        }
    }
    lemma_split_append(Seq::empty(), name);
    assert(Seq::<char>::empty() + name =~= name);
    assert(name.subrange(0, name.len() as int) =~= name);
    assert(segments(name) =~= seq![name]);
}

/// Without a custom extension, every output carries the default extension
/// of the mode and format, unless the suffix ends in a separator (then the
/// file name is `.ext`, which has no extension).
pub proof fn law_default_extension(
    input: PathView,
    output_root: PathView,
    batch: Seq<PathView>,
    suffix: Seq<char>,
    mode: ConversionMode,
    format: OutputFormat,
)
    requires
        wf_view(input),
        file_stem_of(input) is Some,
        suffix.len() == 0 || !is_sep(suffix.last()),
    ensures
        output_path_spec(input, output_root, batch, suffix, None, mode, format) matches Ok(out)
            && file_extension_of(out) == Some(mode.spec_default_extension(format)),
{
    reveal_strlit("xml");
    reveal_strlit("hkx");
    reveal_strlit("kf");
    let ext = mode.spec_default_extension(format);
    assert(ext.len() > 0);
    lemma_output_named(input, output_root, batch, suffix, None, mode, format, ext);
}

/// With a custom extension (one without a dot or a separator), every output
/// carries it, whatever the mode and format; the suffix must not end in a
/// separator, and an empty extension must not leave the file name `..`.
pub proof fn law_custom_extension(
    input: PathView,
    output_root: PathView,
    batch: Seq<PathView>,
    suffix: Seq<char>,
    custom: Seq<char>,
    mode: ConversionMode,
    format: OutputFormat,
)
    requires
        wf_view(input),
        file_stem_of(input) is Some,
        suffix.len() == 0 || !is_sep(suffix.last()),
        no_dot(custom),
        no_sep(custom),
        !(custom.len() == 0 && after_last_sep(name_head(file_stem_of(input).unwrap(), suffix))
            == seq!['.']),
    ensures
        output_path_spec(input, output_root, batch, suffix, Some(custom), mode, format) matches Ok(
            out,
        ) && file_extension_of(out) == Some(custom),
{
    lemma_output_named(input, output_root, batch, suffix, Some(custom), mode, format, custom);
}

proof fn lemma_lcp_from(a: Seq<Seq<char>>, b: Seq<Seq<char>>, k: int)
    requires
        0 <= k <= a.len(),
        k <= b.len(),
    ensures
        k <= lcp_from(a, b, k) <= a.len(),
        lcp_from(a, b, k) <= b.len(),
        forall|j: int| k <= j < lcp_from(a, b, k) ==> a[j] == b[j],
    decreases a.len() - k,
{
    if k < a.len() && k < b.len() && a[k] == b[k] {
        lemma_lcp_from(a, b, k + 1);
    }
}

/// The common ancestor leads every directory it was taken over.
proof fn lemma_ancestor_leads(dirs: Seq<PathView>)
    requires
        ancestor_of(dirs) is Some,
    ensures
        forall|k: int| 0 <= k < dirs.len() ==> starts_with(#[trigger] dirs[k], ancestor_of(dirs).unwrap()),
    decreases dirs.len(),
{
    let c = ancestor_of(dirs).unwrap();
    if dirs.len() == 1 {
        assert(dirs[0].parts.take(dirs[0].parts.len() as int) =~= dirs[0].parts);
    } else {
        let pre = dirs.drop_last();
        let c0 = ancestor_of(pre).unwrap();
        lemma_ancestor_leads(pre);
        let d = dirs.last();
        let l = lcp_from(c0.parts, d.parts, 0);
        lemma_lcp_from(c0.parts, d.parts, 0);
        assert(c.parts == c0.parts.take(l));
        assert forall|k: int| 0 <= k < dirs.len() implies starts_with(#[trigger] dirs[k], c) by {
            if k < dirs.len() - 1 {
                assert(dirs[k] == pre[k]);
                assert(starts_with(pre[k], c0));
                assert(dirs[k].parts.take(c.parts.len() as int) =~= c.parts);
            } else {
                assert(d.parts.take(c.parts.len() as int) =~= c.parts);
            }
        }
    }
}

/// The parent of each input that has one is among `parents_of`.
proof fn lemma_parent_listed(ps: Seq<PathView>, i: int)
    requires
        0 <= i < ps.len(),
        parent_of(ps[i]) is Some,
    ensures
        parents_of(ps).contains(parent_of(ps[i]).unwrap()),
    decreases ps.len(),
{
    let pre = ps.drop_last();
    let rest = parents_of(pre);
    if i < ps.len() - 1 {
        assert(ps[i] == pre[i]);
        lemma_parent_listed(pre, i);
        let q = parent_of(ps[i]).unwrap();
        let w = choose|w: int| 0 <= w < rest.len() && rest[w] == q;
        match parent_of(ps.last()) {
            Some(p) => {
                assert(rest.push(p)[w] == q);
            },
            None => {},
        }
    } else {
        let q = parent_of(ps[i]).unwrap();
        assert(rest.push(q)[rest.len() as int] == q);
    }
}

/// In a batch of several files whose parent directories share an
/// ancestor, each output lies in the output root joined with that file's
/// directory relative to the ancestor (for a suffix and extension without
/// separators, which would open subdirectories of their own).
pub proof fn law_layout_below_ancestor(
    batch: Seq<PathView>,
    i: int,
    output_root: PathView,
    suffix: Seq<char>,
    custom: Option<Seq<char>>,
    mode: ConversionMode,
    format: OutputFormat,
)
    requires
        batch.len() > 1,
        0 <= i < batch.len(),
        wf_view(batch[i]),
        common_parent_of(batch) is Some,
        file_stem_of(batch[i]) is Some,
        no_sep(suffix),
        custom matches Some(e) ==> no_sep(e),
    ensures
        strip_prefix(parent_or_empty(batch[i]), common_parent_of(batch).unwrap()) is Some,
        output_path_spec(batch[i], output_root, batch, suffix, custom, mode, format) matches Ok(out)
            && parent_of(out) == Some(
            join(
                output_root,
                strip_prefix(parent_or_empty(batch[i]), common_parent_of(batch).unwrap()).unwrap(),
            ),
        ),
{
    let input = batch[i];
    let anc = common_parent_of(batch).unwrap();
    let q = parent_of(input).unwrap();
    lemma_parent_listed(batch, i);
    let ps = parents_of(batch);
    lemma_ancestor_leads(ps);
    let w = choose|w: int| 0 <= w < ps.len() && ps[w] == q;
    assert(starts_with(ps[w], anc));
    lemma_name_single(input, suffix, custom, mode, format);
    let out = output_path_spec(input, output_root, batch, suffix, custom, mode, format)->Ok_0;
    let rel = strip_prefix(q, anc).unwrap();
    let dir = join(output_root, rel);
    assert(out.parts.drop_last() =~= dir.parts);
}

/// In a batch of several files whose parent directories share no
/// ancestor, every output lies directly in the output root (for a suffix
/// and extension without separators).
pub proof fn law_no_ancestor_flat(
    batch: Seq<PathView>,
    i: int,
    output_root: PathView,
    suffix: Seq<char>,
    custom: Option<Seq<char>>,
    mode: ConversionMode,
    format: OutputFormat,
)
    requires
        batch.len() > 1,
        0 <= i < batch.len(),
        wf_view(batch[i]),
        common_parent_of(batch) is None,
        file_stem_of(batch[i]) is Some,
        no_sep(suffix),
        custom matches Some(e) ==> no_sep(e),
    ensures
        output_path_spec(batch[i], output_root, batch, suffix, custom, mode, format) matches Ok(out)
            && parent_of(out) == Some(output_root),
{
    lemma_name_single(batch[i], suffix, custom, mode, format);
    let out = output_path_spec(batch[i], output_root, batch, suffix, custom, mode, format)->Ok_0;
    assert(out.parts.drop_last() =~= output_root.parts);
}

/// A batch of one file keeps no directory layout: its output lies directly
/// in the output root (for a suffix and extension without separators).
pub proof fn law_single_input_flat(
    input: PathView,
    output_root: PathView,
    suffix: Seq<char>,
    custom: Option<Seq<char>>,
    mode: ConversionMode,
    format: OutputFormat,
)
    requires
        wf_view(input),
        file_stem_of(input) is Some,
        no_sep(suffix),
        custom matches Some(e) ==> no_sep(e),
    ensures
        output_path_spec(input, output_root, seq![input], suffix, custom, mode, format) matches Ok(
            out,
        ) && parent_of(out) == Some(output_root),
{
    let q = parent_or_empty(input);
    assert(q.parts.take(q.parts.len() as int) =~= q.parts);
    assert(q.parts.skip(q.parts.len() as int) =~= Seq::<Seq<char>>::empty());
    lemma_name_single(input, suffix, custom, mode, format);
    let out = output_path_spec(input, output_root, seq![input], suffix, custom, mode, format)->Ok_0;
    assert(out.parts.drop_last() =~= output_root.parts);
}

/// Resolving the same input under the same settings twice gives the same
/// path.
pub proof fn law_resolution_idempotent(
    input: PathView,
    output_root: PathView,
    batch: Seq<PathView>,
    suffix: Seq<char>,
    custom: Option<Seq<char>>,
    mode: ConversionMode,
    format: OutputFormat,
    first: PathView,
    second: PathView,
)
    requires
        output_path_spec(input, output_root, batch, suffix, custom, mode, format) == Ok::<
            PathView,
            PathError,
        >(first),
        output_path_spec(input, output_root, batch, suffix, custom, mode, format) == Ok::<
            PathView,
            PathError,
        >(second),
    ensures
        first == second,
{
}

} // verus!
