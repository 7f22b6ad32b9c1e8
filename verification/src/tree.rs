//! The directory tree: files and subdirectories by name, in the order in
//! which they were met.

use vstd::prelude::*;
use vstd::slice::slice_subrange;
use crate::codec::{file_result, stored, File, FileView};
use crate::error::DataError;
use crate::path::texts;

verus! {

broadcast use vstd::std_specs::vec::axiom_vec_index_decreases;

/// A directory of the tree.
#[derive(Debug)]
pub struct Dir {
    files: Vec<(String, File)>,
    dirs: Vec<(String, Dir)>,
}

/// What a directory holds: its files and its subdirectories, each with its
/// name, in order.
pub struct DirView {
    /// The files.
    pub files: Seq<(Seq<char>, FileView)>,
    /// The subdirectories.
    pub dirs: Seq<(Seq<char>, DirView)>,
}

/// What `dir` holds.
pub closed spec fn dir_view(dir: Dir) -> DirView
    decreases dir,
{
    DirView {
        files: Seq::new(dir.files@.len(), |i: int| (dir.files@[i].0@, dir.files@[i].1@)),
        dirs: Seq::new(
            dir.dirs@.len(),
            |i: int|
                if 0 <= i < dir.dirs.len() {
                    (dir.dirs[i].0@, dir_view(dir.dirs[i].1))
                } else {
                    arbitrary()
                },
        ),
    }
}

impl View for Dir {
    type V = DirView;

    open spec fn view(&self) -> DirView {
        dir_view(*self)
    }
}

/// Whether every file and every directory of the tree has a name that is
/// not empty.
pub open spec fn names_not_empty(dir: DirView) -> bool
    decreases dir,
{
    &&& forall|i: int| 0 <= i < dir.files.len() ==> (#[trigger] dir.files[i]).0.len() > 0
    &&& forall|j: int|
        0 <= j < dir.dirs.len() ==> (#[trigger] dir.dirs[j]).0.len() > 0 && names_not_empty(
            dir.dirs[j].1,
        )
}

/// An entry of a source directory, as it was met when the directory was
/// read. A name is `None` where it is not valid text.
#[derive(Debug)]
pub enum SourceEntry {
    /// A regular file and its bytes.
    File { name: Option<String>, content: Vec<u8> },
    /// A directory and its entries, in the order in which they were met.
    Directory { name: Option<String>, entries: Vec<SourceEntry> },
    /// Anything else: a symbolic link, a device, a socket.
    Other,
}

/// The name under which an entry is taken in: its name, if it has one and
/// that is not empty.
pub open spec fn taken_name(name: Option<String>) -> Option<Seq<char>> {
    match name {
        Some(name) => if name@.len() > 0 {
            Some(name@)
        } else {
            None
        },
        None => None,
    }
}

/// What becomes of `dir` when `entry` is taken in: a regular file is stored
/// behind the files, a directory is built and put behind the subdirectories;
/// an entry without a name and one that is neither file nor directory leave
/// no trace. Names are not compared: entries of one name are all taken in,
/// and a walk finds the first.
pub open spec fn with_entry(dir: DirView, entry: SourceEntry) -> Result<DirView, DataError>
    decreases entry,
{
    match entry {
        SourceEntry::File { name, content } => match taken_name(name) {
            Some(name) => match stored(name, content@) {
                Ok(file) => Ok(DirView { files: dir.files.push((name, file)), dirs: dir.dirs }),
                Err(e) => Err(e),
            },
            None => Ok(dir),
        },
        SourceEntry::Directory { name, entries } => match taken_name(name) {
            Some(name) => match with_entries(empty_dir(), entries@) {
                Ok(sub) => Ok(DirView { files: dir.files, dirs: dir.dirs.push((name, sub)) }),
                Err(e) => Err(e),
            },
            None => Ok(dir),
        },
        SourceEntry::Other => Ok(dir),
    }
}

/// What becomes of `dir` when `entries` are taken in one after the other.
pub open spec fn with_entries(dir: DirView, entries: Seq<SourceEntry>) -> Result<
    DirView,
    DataError,
>
    decreases entries,
{
    if entries.len() == 0 {
        Ok(dir)
    } else {
        match with_entries(dir, entries.drop_last()) {
            Ok(sofar) => with_entry(sofar, entries.last()),
            Err(e) => Err(e),
        }
    }
}

/// Once taking in entries has failed, taking in more fails in the same way.
pub proof fn lemma_failure_lasts(dir: DirView, entries: Seq<SourceEntry>, k: int)
    requires
        0 <= k <= entries.len(),
        with_entries(dir, entries.take(k)) is Err,
    ensures
        with_entries(dir, entries) == with_entries(dir, entries.take(k)),
    decreases entries.len(),
{
    if k < entries.len() {
        assert(entries.drop_last().take(k) =~= entries.take(k));
        lemma_failure_lasts(dir, entries.drop_last(), k);
    } else {
        assert(entries.take(k) =~= entries);
    }
}

/// The tree that mirrors a source directory with the given entries.
pub open spec fn built(entries: Seq<SourceEntry>) -> Result<DirView, DataError> {
    with_entries(empty_dir(), entries)
}

/// What the first of `entries` that is called `name` holds, if any is
/// called so.
pub open spec fn first_named<T>(entries: Seq<(Seq<char>, T)>, name: Seq<char>) -> Option<T>
    decreases entries.len(),
{
    if entries.len() == 0 {
        None
    } else if entries[0].0 == name {
        Some(entries[0].1)
    } else {
        first_named(entries.drop_first(), name)
    }
}

/// The file that `names` lead to from `dir`. At each directory the first
/// name is looked up among the files, and a file so called is the answer,
/// whatever names remain; failing that it is looked up among the
/// subdirectories, and the remaining names lead on from the first so called.
pub open spec fn lookup(dir: DirView, names: Seq<Seq<char>>) -> Option<FileView>
    decreases names.len(),
{
    if names.len() == 0 {
        None
    } else {
        match first_named(dir.files, names[0]) {
            Some(file) => Some(file),
            None => match first_named(dir.dirs, names[0]) {
                Some(sub) => lookup(sub, names.drop_first()),
                None => None,
            },
        }
    }
}

/// What walking along `names` from `dir` returns: the file found, or
/// [`DataError::NotFound`].
pub open spec fn walk(dir: DirView, names: Seq<Seq<char>>) -> Result<FileView, DataError> {
    match lookup(dir, names) {
        Some(file) => Ok(file),
        None => Err(DataError::NotFound),
    }
}

/// The directory without files and subdirectories.
pub open spec fn empty_dir() -> DirView {
    DirView { files: Seq::empty(), dirs: Seq::empty() }
}

impl Dir {
    /// No file and no directory of a tree has an empty name.
    #[verifier::type_invariant]
    closed spec fn well_formed(self) -> bool {
        names_not_empty(dir_view(self))
    }

    /// A directory without files and subdirectories.
    pub fn new() -> (dir: Dir)
        ensures
            dir@ == empty_dir(),
    {
        let dir = Dir { files: Vec::new(), dirs: Vec::new() };
        assert(dir@.files =~= Seq::empty());
        assert(dir@.dirs =~= Seq::empty());
        dir
    }

    /// Adds `file` under `name` behind the files that are there.
    pub fn push_file(&mut self, name: String, file: File)
        requires
            name@.len() > 0,
        ensures
            final(self)@ == (DirView {
                files: old(self)@.files.push((name@, file@)),
                dirs: old(self)@.dirs,
            }),
    {
        proof {
            use_type_invariant(&*self);
        }
        // The directory is taken apart and put together again, so that it
        // is well-formed whenever it is whole.
        let mut taken = Dir::new();
        core::mem::swap(self, &mut taken);
        let Dir { mut files, dirs } = taken;
        files.push((name, file));
        proof {
            let grown = dir_view(Dir { files, dirs });
            assert(grown.files =~= old(self)@.files.push((name@, file@)));
            assert(grown.dirs =~= old(self)@.dirs);
            assert(names_not_empty(grown));
        }
        *self = Dir { files, dirs };
    }

    /// Adds `dir` under `name` behind the subdirectories that are there.
    pub fn push_dir(&mut self, name: String, dir: Dir)
        requires
            name@.len() > 0,
        ensures
            final(self)@ == (DirView {
                files: old(self)@.files,
                dirs: old(self)@.dirs.push((name@, dir@)),
            }),
    {
        proof {
            use_type_invariant(&*self);
            use_type_invariant(&dir);
        }
        let mut taken = Dir::new();
        core::mem::swap(self, &mut taken);
        let Dir { files, mut dirs } = taken;
        dirs.push((name, dir));
        proof {
            let grown = dir_view(Dir { files, dirs });
            assert(grown.files =~= old(self)@.files);
            assert(grown.dirs =~= old(self)@.dirs.push((name@, dir@)));
            assert(names_not_empty(grown));
        }
        *self = Dir { files, dirs };
    }

    /// Takes in the entries of a source directory, one after the other, as
    /// [`with_entries`] says. Where the compressor fails on a file, that
    /// error is returned, and the directory holds what the entries before
    /// that one made of it.
    pub fn fill_with(&mut self, entries: &Vec<SourceEntry>) -> (r: Result<(), DataError>)
        ensures
            match with_entries(old(self)@, entries@) {
                Ok(dir) => r is Ok && final(self)@ == dir,
                Err(e) => r == Err::<(), DataError>(e) && exists|k: int|
                    0 <= k < entries@.len() && #[trigger] with_entries(
                        old(self)@,
                        entries@.take(k),
                    ) == Ok::<DirView, DataError>(final(self)@),
            },
        decreases entries,
    {
        let count = entries.len();
        let mut k: usize = 0;
        assert(entries@.take(0) =~= Seq::<SourceEntry>::empty());
        while k < count
            invariant
                k <= count == entries@.len(),
                with_entries(old(self)@, entries@.take(k as int)) == Ok::<DirView, DataError>(
                    self@,
                ),
            decreases count - k,
        {
            let ghost upto = entries@.take(k + 1);
            let ghost before = self@;
            assert(upto.drop_last() =~= entries@.take(k as int));
            assert(upto.last() == entries@[k as int]);
            assert(with_entries(old(self)@, upto) == with_entry(before, entries@[k as int]));
            let outcome = match &entries[k] {
                SourceEntry::File { name: Some(name), content } => {
                    if name.as_str().is_empty() {
                        Ok(())
                    } else {
                        match File::from_source(name.as_str(), content.as_slice()) {
                            Ok(file) => {
                                self.push_file(name.clone(), file);
                                Ok(())
                            },
                            Err(e) => Err(e),
                        }
                    }
                },
                SourceEntry::Directory { name: Some(name), entries: inner } => {
                    if name.as_str().is_empty() {
                        Ok(())
                    } else {
                        let mut sub = Dir::new();
                        match sub.fill_with(inner) {
                            Ok(()) => {
                                self.push_dir(name.clone(), sub);
                                Ok(())
                            },
                            Err(e) => Err(e),
                        }
                    }
                },
                _ => Ok(()),
            };
            assert(match outcome {
                Ok(_) => with_entry(before, entries@[k as int]) == Ok::<DirView, DataError>(self@),
                Err(e) => with_entry(before, entries@[k as int]) == Err::<DirView, DataError>(e)
                    && self@ == before,
            });
            if let Err(e) = outcome {
                proof {
                    lemma_failure_lasts(old(self)@, entries@, k + 1);
                }
                return Err(e);
            }
            k += 1;
        }
        assert(entries@.take(count as int) =~= entries@);
        Ok(())
    }

    /// Number of files. No name in the tree is empty.
    pub fn file_count(&self) -> (n: usize)
        ensures
            n == self@.files.len(),
            names_not_empty(self@),
    {
        proof {
            use_type_invariant(self);
        }
        self.files.len()
    }

    /// Name of the file at `index`.
    pub fn file_name(&self, index: usize) -> (name: &String)
        requires
            index < self@.files.len(),
        ensures
            name@ == self@.files[index as int].0,
    {
        &self.files[index].0
    }

    /// The file at `index`.
    pub fn file(&self, index: usize) -> (file: &File)
        requires
            index < self@.files.len(),
        ensures
            file@ == self@.files[index as int].1,
    {
        &self.files[index].1
    }

    /// Number of subdirectories. No name in the tree is empty.
    pub fn dir_count(&self) -> (n: usize)
        ensures
            n == self@.dirs.len(),
            names_not_empty(self@),
    {
        proof {
            use_type_invariant(self);
        }
        self.dirs.len()
    }

    /// Name of the subdirectory at `index`.
    pub fn dir_name(&self, index: usize) -> (name: &String)
        requires
            index < self@.dirs.len(),
        ensures
            name@ == self@.dirs[index as int].0,
    {
        &self.dirs[index].0
    }

    /// The subdirectory at `index`.
    pub fn dir(&self, index: usize) -> (dir: &Dir)
        requires
            index < self@.dirs.len(),
        ensures
            dir@ == self@.dirs[index as int].1,
    {
        &self.dirs[index].1
    }

    /// The first file called `name`.
    fn find_file(&self, name: &String) -> (found: Option<&File>)
        ensures
            match found {
                Some(file) => first_named(self@.files, name@) == Some(file@),
                None => first_named(self@.files, name@) is None,
            },
    {
        let count = self.files.len();
        let mut i: usize = 0;
        assert(self@.files.skip(0) =~= self@.files);
        while i < count
            invariant
                i <= count == self.files.len() == self@.files.len(),
                first_named(self@.files, name@) == first_named(self@.files.skip(i as int), name@),
            decreases count - i,
        {
            assert(self@.files.skip(i as int).drop_first() =~= self@.files.skip(i + 1));
            if self.files[i].0 == *name {
                return Some(&self.files[i].1);
            }
            i += 1;
        }
        None
    }

    /// The first subdirectory called `name`.
    fn find_dir(&self, name: &String) -> (found: Option<&Dir>)
        ensures
            match found {
                Some(dir) => first_named(self@.dirs, name@) == Some(dir@),
                None => first_named(self@.dirs, name@) is None,
            },
    {
        let count = self.dirs.len();
        let mut i: usize = 0;
        assert(self@.dirs.skip(0) =~= self@.dirs);
        while i < count
            invariant
                i <= count == self.dirs.len() == self@.dirs.len(),
                first_named(self@.dirs, name@) == first_named(self@.dirs.skip(i as int), name@),
            decreases count - i,
        {
            assert(self@.dirs.skip(i as int).drop_first() =~= self@.dirs.skip(i + 1));
            if self.dirs[i].0 == *name {
                return Some(&self.dirs[i].1);
            }
            i += 1;
        }
        None
    }

    /// Walks along `names` from this directory and returns a copy of the
    /// file that they lead to.
    pub fn open_file(&self, names: &[String]) -> (r: Result<File, DataError>)
        ensures
            file_result(r) == walk(self@, texts(names@)),
        decreases names@.len(),
    {
        if names.len() == 0 {
            return Err(DataError::NotFound);
        }
        let name = &names[0];
        if let Some(file) = self.find_file(name) {
            return Ok(file.clone());
        }
        match self.find_dir(name) {
            Some(sub) => {
                let rest = slice_subrange(names, 1, names.len());
                assert(texts(rest@) =~= texts(names@).drop_first());
                sub.open_file(rest)
            },
            None => Err(DataError::NotFound),
        }
    }
}

} // verus!
