//! The queue of input files: ordered, free of duplicates, and filtered by
//! the file types the selected tool reads.

use vstd::prelude::*;
use crate::path::{FilePath, PathView, file_extension_of, opt_view, parent_or_empty};
use crate::tools::{ConverterTool, InputFileExtension};

verus! {

/// Whether a file with extension `ext` passes `filter` for `tool`. "All"
/// means every type the tool reads.
pub open spec fn filter_accepts(
    filter: InputFileExtension,
    tool: ConverterTool,
    ext: Option<Seq<char>>,
) -> bool {
    match ext {
        None => false,
        Some(e) => match filter {
            InputFileExtension::All => e == "hkx"@ || (e == "xml"@ && tool.spec_reads(
                InputFileExtension::Xml,
            )) || (e == "kf"@ && tool.spec_reads(InputFileExtension::Kf)),
            InputFileExtension::Hkx => e == "hkx"@,
            InputFileExtension::Xml => e == "xml"@,
            InputFileExtension::Kf => e == "kf"@,
        },
    }
}

/// Whether `path` passes `filter` for `tool`.
pub fn accepts_file(filter: InputFileExtension, tool: ConverterTool, path: &FilePath) -> (r: bool)
    ensures
        r == filter_accepts(filter, tool, file_extension_of(path@)),
{
    let ext = match path.extension() {
        Some(e) => e,
        None => {
            return false;
        },
    };
    let hkx = String::from_str("hkx");
    let xml = String::from_str("xml");
    let kf = String::from_str("kf");
    match filter {
        InputFileExtension::All => ext == hkx || (ext == xml && tool.reads(InputFileExtension::Xml))
            || (ext == kf && tool.reads(InputFileExtension::Kf)),
        InputFileExtension::Hkx => ext == hkx,
        InputFileExtension::Xml => ext == xml,
        InputFileExtension::Kf => ext == kf,
    }
}

/// A path found in a folder, and whether it is a regular file.
#[derive(Debug)]
pub struct FileEntry {
    pub path: FilePath,
    pub is_file: bool,
}

pub open spec fn entry_views(es: Seq<FileEntry>) -> Seq<(PathView, bool)> {
    es.map_values(|e: FileEntry| (e.path@, e.is_file))
}

/// The list after offering one path: it is added at the end when it is a
/// file, passes the filter, and is not listed yet.
pub open spec fn after_offer(
    list: Seq<PathView>,
    p: PathView,
    is_file: bool,
    filter: InputFileExtension,
    tool: ConverterTool,
) -> Seq<PathView> {
    if is_file && filter_accepts(filter, tool, file_extension_of(p)) && !list.contains(p) {
        list.push(p)
    } else {
        list
    }
}

/// The list after offering each entry in turn.
pub open spec fn after_offers(
    list: Seq<PathView>,
    es: Seq<(PathView, bool)>,
    filter: InputFileExtension,
    tool: ConverterTool,
) -> Seq<PathView>
    decreases es.len(),
{
    if es.len() == 0 {
        list
    } else {
        let prev = after_offers(list, es.drop_last(), filter, tool);
        after_offer(prev, es.last().0, es.last().1, filter, tool)
    }
}

/// The list after appending each path that is not listed yet, unfiltered.
pub open spec fn after_appends(list: Seq<PathView>, ps: Seq<PathView>) -> Seq<PathView>
    decreases ps.len(),
{
    if ps.len() == 0 {
        list
    } else {
        let prev = after_appends(list, ps.drop_last());
        if prev.contains(ps.last()) {
            prev
        } else {
            prev.push(ps.last())
        }
    }
}

/// The input files, in the order they were added, each once.
#[derive(Debug)]
pub struct InputList {
    paths: Vec<FilePath>,
}

impl View for InputList {
    type V = Seq<PathView>;

    closed spec fn view(&self) -> Seq<PathView> {
        self.paths@.map_values(|p: FilePath| p@)
    }
}

impl InputList {
    /// The list's invariant: no file is listed twice.
    pub closed spec fn wf(&self) -> bool {
        self@.no_duplicates() && self@.len() == self.paths@.len()
    }

    /// An empty list.
    pub fn new() -> (r: InputList)
        ensures
            r.wf(),
            r@ == Seq::<PathView>::empty(),
            r@.no_duplicates(),
    {
        let r = InputList { paths: Vec::new() };
        assert(r@ =~= Seq::<PathView>::empty());
        r
    }

    /// The listed files, in order.
    pub fn paths(&self) -> (r: &Vec<FilePath>)
        requires
            self.wf(),
        ensures
            r@.len() == self@.len(),
            forall|i: int| 0 <= i < r@.len() ==> (#[trigger] r@[i])@ == self@[i],
    {
        &self.paths
    }

    pub fn len(&self) -> (r: usize)
        requires
            self.wf(),
        ensures
            r == self@.len(),
    {
        self.paths.len()
    }

    /// Whether `p` is listed.
    pub fn contains(&self, p: &FilePath) -> (r: bool)
        requires
            self.wf(),
        ensures
            r == self@.contains(p@),
    {
        let mut i: usize = 0;
        while i < self.paths.len()
            invariant
                self.wf(),
                0 <= i <= self.paths@.len(),
                forall|j: int| 0 <= j < i ==> self@[j] != p@,
            decreases self.paths@.len() - i,
        {
            if self.paths[i].same_as(p) {
                assert(self@[i as int] == p@);
                return true;
            }
            i = i + 1;
        }
        false
    }

    fn push_new(&mut self, p: FilePath)
        requires
            old(self).wf(),
            !old(self)@.contains(p@),
        ensures
            final(self).wf(),
            final(self)@.no_duplicates(),
            final(self)@ == old(self)@.push(p@),
    {
        let ghost before = self@;
        self.paths.push(p);
        assert(self@ =~= before.push(p@));
        assert(self@.no_duplicates()) by {
            assert forall|a: int, b: int|
                0 <= a < self@.len() && 0 <= b < self@.len() && a != b implies self@[a]
                != self@[b] by {
                if a < before.len() && b < before.len() {
                } else if a < before.len() {
                    assert(before.contains(before[a]));
                } else {
                    assert(before.contains(before[b]));
                }
            }
        }
    }

    /// Offers one path: it is added at the end when it is a file, passes
    /// the filter for the tool, and is not listed yet.
    pub fn add_file(
        &mut self,
        path: FilePath,
        is_file: bool,
        filter: InputFileExtension,
        tool: ConverterTool,
    ) -> (added: bool)
        requires
            old(self).wf(),
        ensures
            final(self).wf(),
            final(self)@.no_duplicates(),
            final(self)@ == after_offer(old(self)@, path@, is_file, filter, tool),
            added == (final(self)@.len() > old(self)@.len()),
    {
        if !is_file || !accepts_file(filter, tool, &path) || self.contains(&path) {
            return false;
        }
        self.push_new(path);
        true
    }

    /// Offers each entry in turn; returns how many were added.
    pub fn add_files(
        &mut self,
        entries: &Vec<FileEntry>,
        filter: InputFileExtension,
        tool: ConverterTool,
    ) -> (added: usize)
        requires
            old(self).wf(),
        ensures
            final(self).wf(),
            final(self)@.no_duplicates(),
            final(self)@ == after_offers(old(self)@, entry_views(entries@), filter, tool),
            added == final(self)@.len() - old(self)@.len(),
    {
        let ghost es = entry_views(entries@);
        let ghost start = self@;
        let mut added: usize = 0;
        let mut i: usize = 0;
        while i < entries.len()
            invariant
                self.wf(),
                0 <= i <= entries@.len(),
                es == entry_views(entries@),
                es.len() == entries@.len(),
                self@ == after_offers(start, es.take(i as int), filter, tool),
                self@.len() >= start.len(),
                added == self@.len() - start.len(),
                added <= i,
            decreases entries@.len() - i,
        {
            assert(es.take(i + 1).drop_last() =~= es.take(i as int));
            assert(es.take(i + 1).last() == (entries@[i as int].path@, entries@[i as int].is_file));
            let entry = &entries[i];
            if self.add_file(entry.path.duplicate(), entry.is_file, filter, tool) {
                added = added + 1;
            }
            i = i + 1;
        }
        assert(es.take(entries@.len() as int) =~= es);
        added
    }

    /// Lists `paths` in place of the current files, each once, in order.
    pub fn replace(&mut self, paths: &Vec<FilePath>)
        ensures
            final(self).wf(),
            final(self)@.no_duplicates(),
            final(self)@ == after_appends(Seq::empty(), paths@.map_values(|p: FilePath| p@)),
    {
        let ghost ps = paths@.map_values(|p: FilePath| p@);
        *self = InputList::new();
        let mut i: usize = 0;
        while i < paths.len()
            invariant
                self.wf(),
                0 <= i <= paths@.len(),
                ps == paths@.map_values(|p: FilePath| p@),
                ps.len() == paths@.len(),
                self@ == after_appends(Seq::empty(), ps.take(i as int)),
            decreases paths@.len() - i,
        {
            assert(ps.take(i + 1).drop_last() =~= ps.take(i as int));
            assert(ps.take(i + 1).last() == paths@[i as int]@);
            if !self.contains(&paths[i]) {
                self.push_new(paths[i].duplicate());
            }
            i = i + 1;
        }
        assert(ps.take(paths@.len() as int) =~= ps);
    }

    /// Removes the file at `index`.
    pub fn remove(&mut self, index: usize)
        requires
            old(self).wf(),
            index < old(self)@.len(),
        ensures
            final(self).wf(),
            final(self)@.no_duplicates(),
            final(self)@ == old(self)@.remove(index as int),
    {
        let ghost before = self@;
        let ghost raw = self.paths@;
        self.paths.remove(index);
        assert(self@ =~= before.remove(index as int));
        assert(self@.no_duplicates()) by {
            assert forall|a: int, b: int|
                0 <= a < self@.len() && 0 <= b < self@.len() && a != b implies self@[a]
                != self@[b] by {
                let a0 = if a < index { a } else { a + 1 };
                let b0 = if b < index { b } else { b + 1 };
                assert(self@[a] == before[a0]);
                assert(self@[b] == before[b0]);
            }
        }
    }

    /// Empties the list.
    pub fn clear(&mut self)
        ensures
            final(self).wf(),
            final(self)@.no_duplicates(),
            final(self)@ == Seq::<PathView>::empty(),
    {
        *self = InputList::new();
    }

    /// The folder outputs go to by default: the parent of the first file
    /// (the empty path where it has none); none for an empty list.
    pub fn default_output_folder(&self) -> (r: Option<FilePath>)
        requires
            self.wf(),
        ensures
            opt_view(r) == if self@.len() == 0 {
                None
            } else {
                Some(parent_or_empty(self@[0]))
            },
    {
        if self.paths.len() == 0 {
            None
        } else {
            Some(self.paths[0].parent_or_empty())
        }
    }
}

} // verus!
