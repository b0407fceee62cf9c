//! The plain form of a tree: a list of files, each with its content or
//! without. A file that is given content is a text file, and one that is
//! given none is an empty file; there are no directories of their own, no
//! settings, and the tree is never deleted.

use crate::builder::{Config, TreeBuilder};
use crate::materializer::{MachineView, Materializer};
use crate::path::joined;
use crate::tree::{is_random_name, temp_dir, Entry, EntryView, Kind, KindView, TEMP_NAME_LEN};
use vstd::prelude::*;

verus! {

/// Represents metadata for a file in the tree.
#[derive(Debug, PartialEq, Eq)]
pub struct FileMetadata {
    /// Path of the file relative to the root folder.
    pub path: String,
    /// Optional content to be written to the file.
    pub content: Option<String>,
}

/// A [`FileMetadata`] as a mathematical value.
pub struct FileView {
    pub path: Seq<char>,
    pub content: Option<Seq<char>>,
}

impl View for FileMetadata {
    type V = FileView;

    open spec fn view(&self) -> FileView {
        FileView {
            path: self.path@,
            content: match self.content {
                Some(text) => Some(text@),
                None => None,
            },
        }
    }
}

impl FileView {
    /// The file as an entry of a tree: a text file where it has content, an
    /// empty file where it has none.
    pub open spec fn entry(self) -> EntryView {
        EntryView {
            path: self.path,
            kind: match self.content {
                Some(text) => KindView::TextFile { content: text },
                None => KindView::EmptyFile,
            },
            settings: None,
        }
    }
}

/// Represents a file tree structure.
#[derive(Debug, PartialEq, Eq)]
pub struct Tree {
    /// Root folder where the tree will be created.
    pub root_folder: String,
    /// Flag indicating whether existing files should be overridden.
    pub override_file: bool,
    /// List of file metadata entries in the tree.
    pub files: Vec<FileMetadata>,
}

/// A [`Tree`] as a mathematical value.
pub struct FlatView {
    pub root_folder: Seq<char>,
    pub override_file: bool,
    pub files: Seq<FileView>,
}

impl FlatView {
    /// The tree at `root_folder` without files, which leaves existing files
    /// alone.
    pub open spec fn empty(root_folder: Seq<char>) -> FlatView {
        FlatView { root_folder, override_file: false, files: Seq::empty() }
    }

    /// The same tree with one more file at the end.
    pub open spec fn with(self, path: Seq<char>, content: Option<Seq<char>>) -> FlatView {
        FlatView { files: self.files.push(FileView { path, content }), ..self }
    }

    /// The tree as the builder describes it: the same root and files in the
    /// same order, never strict, and not deleted in the end.
    pub open spec fn config(self) -> Config {
        Config {
            root: self.root_folder,
            override_file: self.override_file,
            strict: false,
            drop: false,
            entries: self.files.map_values(|f: FileView| f.entry()),
        }
    }
}

impl View for Tree {
    type V = FlatView;

    open spec fn view(&self) -> FlatView {
        FlatView {
            root_folder: self.root_folder@,
            override_file: self.override_file,
            files: self.files@.map_values(|f: FileMetadata| f@),
        }
    }
}

impl Tree {
    /// A tree at `root_folder` without files, which leaves existing files
    /// alone.
    #[must_use]
    pub fn new(root_folder: &str) -> (r: Self)
        ensures
            r@ == FlatView::empty(root_folder@),
    {
        let r = Tree {
            root_folder: root_folder.to_owned(),
            override_file: false,
            files: Vec::new(),
        };
        assert(r@.files =~= Seq::empty());
        r
    }

    /// A tree in a new directory with a random name below `base`, which is
    /// meant to be the system's directory for temporary files.
    #[must_use]
    pub fn in_temp_dir(base: &str) -> (r: Self)
        ensures
            exists|name: Seq<char>|
                is_random_name(name, TEMP_NAME_LEN as nat) && r@ == FlatView::empty(
                    #[trigger] joined(base@, name),
                ),
    {
        let root = temp_dir(base);
        Tree::new(root.as_str())
    }

    /// Sets the root folder where the tree will be created.
    #[must_use]
    pub fn root_folder(self, dir: &str) -> (r: Self)
        ensures
            r@ == (FlatView { root_folder: dir@, ..self@ }),
    {
        let mut r = self;
        r.root_folder = dir.to_owned();
        r
    }

    /// Sets the `override_file` flag, indicating whether existing files should be overridden.
    #[must_use]
    pub fn override_file(self, yes: bool) -> (r: Self)
        ensures
            r@ == (FlatView { override_file: yes, ..self@ }),
    {
        let mut r = self;
        r.override_file = yes;
        r
    }

    /// Adds a file with content to the tree.
    #[must_use]
    pub fn add(self, path: &str, content: &str) -> (r: Self)
        ensures
            r@ == self@.with(path@, Some(content@)),
    {
        let mut r = self;
        let file = FileMetadata { path: path.to_owned(), content: Some(content.to_owned()) };
        r.files.push(file);
        assert(r@.files =~= self@.files.push(file@));
        r
    }

    /// Adds a file with empty content.
    #[must_use]
    pub fn add_empty(self, path: &str) -> (r: Self)
        ensures
            r@ == self@.with(path@, None),
    {
        let mut r = self;
        let file = FileMetadata { path: path.to_owned(), content: None };
        r.files.push(file);
        assert(r@.files =~= self@.files.push(file@));
        r
    }

    /// The tree as a builder: each file becomes a text file or an empty
    /// file, in the same order.
    pub fn builder(&self) -> (r: TreeBuilder)
        ensures
            r@ == self@.config(),
    {
        let mut r = TreeBuilder::new(self.root_folder.as_str()).override_file(
            self.override_file,
        ).drop(false);
        let mut i: usize = 0;
        assert(self@.config().entries.take(0) =~= Seq::empty());
        while i < self.files.len()
            invariant
                i <= self.files.len(),
                r@ == (Config { entries: self@.config().entries.take(i as int), ..self@.config() }),
            decreases self.files.len() - i,
        {
            let file = &self.files[i];
            let kind = match &file.content {
                Some(text) => Kind::TextFile { content: text.clone() },
                None => Kind::EmptyFile,
            };
            let entry = Entry { path: file.path.clone(), kind, settings: None };
            assert(entry@ == self@.files[i as int].entry());
            assert(self@.config().entries.take(i + 1) =~= self@.config().entries.take(
                i as int,
            ).push(entry@));
            r = r.add_entry(entry);
            i += 1;
        }
        assert(self@.config().entries.take(i as int) =~= self@.config().entries);
        r
    }

    /// Starts building the tree. Nothing is touched yet; the caller drives
    /// the [`Materializer`] that is returned.
    pub fn create(&self) -> (m: Materializer)
        ensures
            m@ == MachineView::start(self@.config()),
            m@.wf(),
    {
        self.builder().create()
    }
}

} // verus!
