//! The builder: an ordered list of entries and the settings of the tree as a
//! whole. Building it up touches nothing and checks nothing; an invalid
//! builder can be kept, inspected with [`TreeBuilder::validate`], or thrown
//! away.

use crate::error::{Error, ErrorView};
use crate::materializer::{MachineView, Materializer};
use crate::path::{absolute, admits, is_absolute, joined, locate, render, target};
use crate::tree::{
    is_random_name, temp_dir, Entry, EntryView, Kind, KindView, Settings, TEMP_NAME_LEN,
};
use vstd::prelude::*;

verus! {

/// Whether a tree is deleted when its handle is closed, unless the caller
/// says otherwise.
pub fn default_drop() -> (r: bool)
    ensures
        r,
{
    true
}

/// Describes a tree to build: where it stands, what to do with files that
/// are already there, whether to delete it in the end, and its entries in
/// the order in which they were added.
#[derive(Debug, PartialEq, Eq)]
pub struct TreeBuilder {
    /// Root folder where the tree will be created.
    pub root: String,
    /// Whether entries that exist already are written again.
    override_file: bool,
    /// Whether an entry that exists already, and is not to be written again,
    /// is an error.
    strict: bool,
    /// The entries, in the order in which they are created.
    entries: Vec<Entry>,
    /// Whether the root folder is deleted when the tree's handle is closed.
    drop: bool,
}

/// A [`TreeBuilder`] as a mathematical value.
pub struct Config {
    pub root: Seq<char>,
    pub override_file: bool,
    pub strict: bool,
    pub drop: bool,
    pub entries: Seq<EntryView>,
}

/// The entries of a list as mathematical values.
pub open spec fn entry_views(entries: Seq<Entry>) -> Seq<EntryView> {
    entries.map_values(|e: Entry| e@)
}

impl Config {
    /// The tree at `root` with no entries and every setting at its default:
    /// existing files are left alone without complaint, and the tree is
    /// deleted in the end.
    pub open spec fn empty(root: Seq<char>) -> Config {
        Config { root, override_file: false, strict: false, drop: true, entries: Seq::empty() }
    }

    /// The same tree with one more entry at the end.
    pub open spec fn with(
        self,
        path: Seq<char>,
        kind: KindView,
        settings: Option<Settings>,
    ) -> Config {
        Config { entries: self.entries.push(EntryView { path, kind, settings }), ..self }
    }

    /// The text of the place that entry `i` leads to.
    pub open spec fn place(self, i: int) -> Seq<char> {
        render(target(self.root, self.entries[i].path))
    }

    /// Entry `i` leads to the same place as an entry before it.
    pub open spec fn repeats(self, i: int) -> bool {
        exists|j: int| 0 <= j < i && #[trigger] self.place(j) == self.place(i)
    }

    /// What is wrong with entry `i` on the face of it, if anything: its path
    /// is empty, or leads out of the root, or, in a tree that does not write
    /// over what is there, leads where an earlier entry leads, or it is a
    /// copy of a file whose path is not absolute.
    pub open spec fn fault(self, i: int) -> Option<ErrorView> {
        let path = self.entries[i].path;
        if path.len() == 0 {
            Some(ErrorView::EmptyEntryName(i as nat))
        } else if !admits(self.root, path) {
            Some(ErrorView::EntryOutsideDirectory(path))
        } else if !self.override_file && self.repeats(i) {
            Some(ErrorView::DuplicateEntry(path))
        } else if self.entries[i].kind is CopiedFile && !is_absolute(
            self.entries[i].kind.source(),
        ) {
            Some(ErrorView::FailedToCopyFile(self.entries[i].kind.source()))
        } else {
            None
        }
    }
}

impl View for TreeBuilder {
    type V = Config;

    closed spec fn view(&self) -> Config {
        Config {
            root: self.root@,
            override_file: self.override_file,
            strict: self.strict,
            drop: self.drop,
            entries: entry_views(self.entries@),
        }
    }
}

impl Clone for TreeBuilder {
    fn clone(&self) -> (r: Self)
        ensures
            r@ == self@,
    {
        let mut entries: Vec<Entry> = Vec::new();
        let mut i: usize = 0;
        while i < self.entries.len()
            invariant
                i <= self.entries.len(),
                entries.len() == i,
                forall|k: int| 0 <= k < i ==> (#[trigger] entries[k])@ == self.entries[k]@,
            decreases self.entries.len() - i,
        {
            entries.push(self.entries[i].clone());
            i += 1;
        }
        assert(entry_views(entries@) =~= entry_views(self.entries@));
        TreeBuilder {
            root: self.root.clone(),
            override_file: self.override_file,
            strict: self.strict,
            entries,
            drop: self.drop,
        }
    }
}

/// Tells whether `text` is among `seen`.
fn holds(seen: &Vec<String>, text: &String) -> (r: bool)
    ensures
        r == exists|j: int| 0 <= j < seen.len() && seen[j]@ == text@,
{
    let mut j: usize = 0;
    while j < seen.len()
        invariant
            j <= seen.len(),
            forall|k: int| 0 <= k < j ==> seen[k]@ != text@,
        decreases seen.len() - j,
    {
        if seen[j] == *text {
            return true;
        }
        j += 1;
    }
    false
}

impl TreeBuilder {
    /// A builder for a tree at `root`, without entries. By default the tree
    /// leaves existing files alone and is deleted when its handle is closed.
    #[must_use]
    pub fn new(root: &str) -> (r: Self)
        ensures
            r@ == Config::empty(root@),
    {
        let r = TreeBuilder {
            root: root.to_owned(),
            override_file: false,
            strict: false,
            entries: Vec::new(),
            drop: default_drop(),
        };
        assert(r@.entries =~= Seq::empty());
        r
    }

    /// A builder for a tree in a new directory with a random name below
    /// `base`, which is meant to be the system's directory for temporary
    /// files.
    #[must_use]
    pub fn in_temp_dir(base: &str) -> (r: Self)
        ensures
            exists|name: Seq<char>|
                is_random_name(name, TEMP_NAME_LEN as nat) && r@ == Config::empty(
                    #[trigger] joined(base@, name),
                ),
    {
        let root = temp_dir(base);
        TreeBuilder::new(root.as_str())
    }

    /// Sets the root folder where the tree will be created.
    #[must_use]
    pub fn root_folder(self, dir: &str) -> (r: Self)
        ensures
            r@ == (Config { root: dir@, ..self@ }),
    {
        let mut r = self;
        r.root = dir.to_owned();
        r
    }

    /// Sets whether the root folder is deleted when the tree's handle is
    /// closed.
    #[must_use]
    pub fn drop(self, yes: bool) -> (r: Self)
        ensures
            r@ == (Config { drop: yes, ..self@ }),
    {
        let mut r = self;
        r.drop = yes;
        r
    }

    /// Sets whether entries that exist already are written again.
    #[must_use]
    pub fn override_file(self, yes: bool) -> (r: Self)
        ensures
            r@ == (Config { override_file: yes, ..self@ }),
    {
        let mut r = self;
        r.override_file = yes;
        r
    }

    /// Sets what happens to an entry that exists already in a tree that does
    /// not write over what is there: it is an error if `yes`, and is passed
    /// over in silence if not.
    #[must_use]
    pub fn strict(self, yes: bool) -> (r: Self)
        ensures
            r@ == (Config { strict: yes, ..self@ }),
    {
        let mut r = self;
        r.strict = yes;
        r
    }

    /// Adds an entry as it stands.
    #[must_use]
    pub fn add_entry(self, entry: Entry) -> (r: Self)
        ensures
            r@ == self@.with(entry@.path, entry@.kind, entry@.settings),
    {
        let mut r = self;
        r.entries.push(entry);
        assert(r@.entries =~= self@.entries.push(entry@));
        r
    }

    /// Adds a file with content to the tree.
    #[must_use]
    pub fn add(self, path: &str, content: &str) -> (r: Self)
        ensures
            r@ == self@.with(path@, KindView::TextFile { content: content@ }, None),
    {
        self.add_entry(
            Entry {
                path: path.to_owned(),
                kind: Kind::TextFile { content: content.to_owned() },
                settings: None,
            },
        )
    }

    /// Adds a file with content to the tree.
    ///
    /// This is an alias for `add`.
    #[must_use]
    pub fn add_file(self, path: &str, content: &str) -> (r: Self)
        ensures
            r@ == self@.with(path@, KindView::TextFile { content: content@ }, None),
    {
        self.add(path, content)
    }

    /// Adds a file with empty content.
    ///
    /// This is an alias for `add_empty_file`.
    #[must_use]
    pub fn add_empty(self, path: &str) -> (r: Self)
        ensures
            r@ == self@.with(path@, KindView::EmptyFile, None),
    {
        self.add_empty_file(path)
    }

    /// Adds a file with empty content.
    #[must_use]
    pub fn add_empty_file(self, path: &str) -> (r: Self)
        ensures
            r@ == self@.with(path@, KindView::EmptyFile, None),
    {
        self.add_entry(Entry { path: path.to_owned(), kind: Kind::EmptyFile, settings: None })
    }

    /// Adds a directory to the tree.
    #[must_use]
    pub fn add_directory(self, path: &str) -> (r: Self)
        ensures
            r@ == self@.with(path@, KindView::Directory, None),
    {
        self.add_entry(Entry { path: path.to_owned(), kind: Kind::Directory, settings: None })
    }

    /// Adds a file that holds `bytes`.
    #[must_use]
    pub fn add_binary_file(self, path: &str, bytes: Vec<u8>) -> (r: Self)
        ensures
            r@ == self@.with(path@, KindView::BinaryFile { bytes: bytes@ }, None),
    {
        self.add_entry(
            Entry { path: path.to_owned(), kind: Kind::BinaryFile { bytes }, settings: None },
        )
    }

    /// Adds a file that holds what the file at the absolute path `source`
    /// holds when the tree is built.
    #[must_use]
    pub fn add_copied_file(self, path: &str, source: &str) -> (r: Self)
        ensures
            r@ == self@.with(path@, KindView::CopiedFile { source: source@ }, None),
    {
        self.add_entry(
            Entry {
                path: path.to_owned(),
                kind: Kind::CopiedFile { source: source.to_owned() },
                settings: None,
            },
        )
    }

    /// Adds a file with content and custom settings to the tree.
    #[must_use]
    pub fn add_file_with_settings(self, path: &str, content: &str, settings: Settings) -> (r: Self)
        ensures
            r@ == self@.with(path@, KindView::TextFile { content: content@ }, Some(settings)),
    {
        self.add_entry(
            Entry {
                path: path.to_owned(),
                kind: Kind::TextFile { content: content.to_owned() },
                settings: Some(settings),
            },
        )
    }

    /// Adds an empty file with custom settings to the tree.
    #[must_use]
    pub fn add_empty_file_with_settings(self, path: &str, settings: Settings) -> (r: Self)
        ensures
            r@ == self@.with(path@, KindView::EmptyFile, Some(settings)),
    {
        self.add_entry(
            Entry { path: path.to_owned(), kind: Kind::EmptyFile, settings: Some(settings) },
        )
    }

    /// Adds a directory with custom settings to the tree. A directory takes
    /// no settings: they are kept with the entry and have no effect.
    #[must_use]
    pub fn add_directory_with_settings(self, path: &str, settings: Settings) -> (r: Self)
        ensures
            r@ == self@.with(path@, KindView::Directory, Some(settings)),
    {
        self.add_entry(
            Entry { path: path.to_owned(), kind: Kind::Directory, settings: Some(settings) },
        )
    }

    /// Adds a file that holds `bytes`, with custom settings.
    #[must_use]
    pub fn add_binary_file_with_settings(
        self,
        path: &str,
        bytes: Vec<u8>,
        settings: Settings,
    ) -> (r: Self)
        ensures
            r@ == self@.with(path@, KindView::BinaryFile { bytes: bytes@ }, Some(settings)),
    {
        self.add_entry(
            Entry {
                path: path.to_owned(),
                kind: Kind::BinaryFile { bytes },
                settings: Some(settings),
            },
        )
    }

    /// Adds a copy of the file at the absolute path `source`, with custom
    /// settings.
    #[must_use]
    pub fn add_copied_file_with_settings(
        self,
        path: &str,
        source: &str,
        settings: Settings,
    ) -> (r: Self)
        ensures
            r@ == self@.with(path@, KindView::CopiedFile { source: source@ }, Some(settings)),
    {
        self.add_entry(
            Entry {
                path: path.to_owned(),
                kind: Kind::CopiedFile { source: source.to_owned() },
                settings: Some(settings),
            },
        )
    }

    /// Convenience method for adding a read-only file.
    #[must_use]
    pub fn add_readonly_file(self, path: &str, content: &str) -> (r: Self)
        ensures
            r@ == self@.with(
                path@,
                KindView::TextFile { content: content@ },
                Some(Settings { readonly: true }),
            ),
    {
        self.add_file_with_settings(path, content, Settings::new().readonly(true))
    }

    /// Convenience method for adding a read-only empty file.
    #[must_use]
    pub fn add_readonly_empty_file(self, path: &str) -> (r: Self)
        ensures
            r@ == self@.with(path@, KindView::EmptyFile, Some(Settings { readonly: true })),
    {
        self.add_empty_file_with_settings(path, Settings::new().readonly(true))
    }

    /// The root folder where the tree will be created.
    pub fn root(&self) -> (r: &String)
        ensures
            r@ == self@.root,
    {
        &self.root
    }

    /// Tells whether entries that exist already are written again.
    pub fn overrides(&self) -> (r: bool)
        ensures
            r == self@.override_file,
    {
        self.override_file
    }

    /// Tells whether an entry that exists already, and is not to be written
    /// again, is an error.
    pub fn is_strict(&self) -> (r: bool)
        ensures
            r == self@.strict,
    {
        self.strict
    }

    /// Tells whether the root folder is deleted when the tree's handle is
    /// closed.
    pub fn deletes_on_close(&self) -> (r: bool)
        ensures
            r == self@.drop,
    {
        self.drop
    }

    /// The entries, in the order in which they were added.
    pub fn entries(&self) -> (r: &Vec<Entry>)
        ensures
            entry_views(r@) == self@.entries,
    {
        &self.entries
    }

    /// Checks the entries on the face of it, in order and without looking at
    /// the disk, and reports what is wrong with the first that has a fault:
    /// `EmptyEntryName` with its position, `EntryOutsideDirectory` with its
    /// path, `DuplicateEntry` with its path where it leads to the place of
    /// an earlier entry in a tree that does not write over what is there, or
    /// `FailedToCopyFile` with the source where that is not an absolute
    /// path.
    pub fn validate(&self) -> (r: Result<(), Error>)
        ensures
            match r {
                Ok(_) => forall|i: int| 0 <= i < self@.entries.len() ==> self@.fault(i) is None,
                Err(e) => exists|i: int|
                    {
                        &&& 0 <= i < self@.entries.len()
                        &&& #[trigger] self@.fault(i) == Some(e@)
                        &&& forall|j: int| 0 <= j < i ==> self@.fault(j) is None
                    },
            },
    {
        let mut seen: Vec<String> = Vec::new();
        let mut i: usize = 0;
        while i < self.entries.len()
            invariant
                i <= self.entries.len(),
                seen.len() == i,
                forall|j: int| 0 <= j < i ==> self@.fault(j) is None,
                forall|j: int| 0 <= j < i ==> (#[trigger] seen[j])@ == self@.place(j),
            decreases self.entries.len() - i,
        {
            let entry = &self.entries[i];
            assert(self@.entries[i as int] == entry@);
            match locate(self.root.as_str(), entry.path.as_str()) {
                None => {
                    let e = if entry.path.as_str().is_empty() {
                        Error::EmptyEntryName(i)
                    } else {
                        Error::EntryOutsideDirectory(entry.path.clone())
                    };
                    assert(self@.fault(i as int) == Some(e@));
                    return Err(e);
                },
                Some(place) => {
                    if !self.override_file && holds(&seen, &place.path) {
                        let e = Error::DuplicateEntry(entry.path.clone());
                        let ghost j = choose|j: int| 0 <= j < i && seen[j]@ == place.path@;
                        assert(self@.place(j) == self@.place(i as int));
                        assert(self@.fault(i as int) == Some(e@));
                        return Err(e);
                    }
                    assert(!self@.override_file ==> !self@.repeats(i as int)) by {
                        if !self@.override_file && self@.repeats(i as int) {
                            let j = choose|j: int|
                                0 <= j < i && #[trigger] self@.place(j) == self@.place(i as int);
                            assert(seen[j]@ == place.path@);
                        }
                    }
                    match &entry.kind {
                        Kind::CopiedFile { source } => {
                            if !absolute(source.as_str()) {
                                let e = Error::FailedToCopyFile(source.clone());
                                assert(self@.fault(i as int) == Some(e@));
                                return Err(e);
                            }
                        },
                        _ => {},
                    }
                    assert(self@.fault(i as int) is None);
                    seen.push(place.path);
                },
            }
            i += 1;
        }
        Ok(())
    }

    /// Starts building the tree. The builder is copied, not used up: it can
    /// be changed and built again. Nothing is touched yet; the caller drives
    /// the [`Materializer`] that is returned.
    pub fn create(&self) -> (m: Materializer)
        ensures
            m@ == MachineView::start(self@),
            m@.wf(),
    {
        Materializer::new(self.clone())
    }
}

} // verus!
