//! What a tree is made of, and the handle to a tree that was built.

use crate::error::{Error, ErrorView};
use crate::path::{join, joined};
use rand::Rng;
use vstd::prelude::*;

verus! {

/// Settings of one entry. Only files take them; a directory ignores them.
#[derive(Debug, PartialEq, Eq)]
pub struct Settings {
    /// Whether the file is made read-only once its content is written.
    pub readonly: bool,
}

impl Clone for Settings {
    fn clone(&self) -> (r: Self)
        ensures
            r == *self,
    {
        Settings { readonly: self.readonly }
    }
}

impl Default for Settings {
    fn default() -> (r: Self)
        ensures
            !r.readonly,
    {
        Settings { readonly: false }
    }
}

impl Settings {
    /// Settings with every field at its default: the file stays writable.
    #[must_use]
    pub fn new() -> (r: Self)
        ensures
            !r.readonly,
    {
        Settings { readonly: false }
    }

    /// Sets whether the file is read-only.
    #[must_use]
    pub fn readonly(self, value: bool) -> (r: Self)
        ensures
            r.readonly == value,
    {
        Settings { readonly: value }
    }
}

/// What an entry creates.
#[derive(Debug, PartialEq, Eq)]
pub enum Kind {
    /// A directory.
    Directory,
    /// A file of length zero.
    EmptyFile,
    /// A file that holds `content`, encoded as UTF-8.
    TextFile { content: String },
    /// A file that holds `bytes`.
    BinaryFile { bytes: Vec<u8> },
    /// A file that holds what the file at the absolute path `source` holds.
    CopiedFile { source: String },
}

/// A [`Kind`] as a mathematical value.
pub enum KindView {
    Directory,
    EmptyFile,
    TextFile { content: Seq<char> },
    BinaryFile { bytes: Seq<u8> },
    CopiedFile { source: Seq<char> },
}

impl View for Kind {
    type V = KindView;

    open spec fn view(&self) -> KindView {
        match self {
            Kind::Directory => KindView::Directory,
            Kind::EmptyFile => KindView::EmptyFile,
            Kind::TextFile { content } => KindView::TextFile { content: content@ },
            Kind::BinaryFile { bytes } => KindView::BinaryFile { bytes: bytes@ },
            Kind::CopiedFile { source } => KindView::CopiedFile { source: source@ },
        }
    }
}

impl KindView {
    /// The path that a copied file is copied from; empty for any other kind.
    pub open spec fn source(self) -> Seq<char> {
        match self {
            KindView::CopiedFile { source } => source,
            _ => Seq::empty(),
        }
    }
}

impl Clone for Kind {
    fn clone(&self) -> (r: Self)
        ensures
            r@ == self@,
    {
        match self {
            Kind::Directory => Kind::Directory,
            Kind::EmptyFile => Kind::EmptyFile,
            Kind::TextFile { content } => Kind::TextFile { content: content.clone() },
            Kind::BinaryFile { bytes } => {
                let copy = bytes.clone();
                assert(copy@ =~= bytes@);
                Kind::BinaryFile { bytes: copy }
            },
            Kind::CopiedFile { source } => Kind::CopiedFile { source: source.clone() },
        }
    }
}

/// One thing to create: a file or a directory at `path`, which is relative
/// to the root of the tree.
#[derive(Debug, PartialEq, Eq)]
pub struct Entry {
    /// Path of the entry relative to the root folder.
    pub path: String,
    /// The kind of the entry.
    pub kind: Kind,
    /// Optional settings for the entry.
    pub settings: Option<Settings>,
}

/// An [`Entry`] as a mathematical value.
pub struct EntryView {
    pub path: Seq<char>,
    pub kind: KindView,
    pub settings: Option<Settings>,
}

impl View for Entry {
    type V = EntryView;

    open spec fn view(&self) -> EntryView {
        EntryView { path: self.path@, kind: self.kind@, settings: self.settings }
    }
}

impl Clone for Entry {
    fn clone(&self) -> (r: Self)
        ensures
            r@ == self@,
    {
        let settings = match &self.settings {
            Some(s) => Some(s.clone()),
            None => None,
        };
        Entry { path: self.path.clone(), kind: self.kind.clone(), settings }
    }
}

impl EntryView {
    /// Whether the entry is to be made read-only once it is written.
    /// Settings never apply to a directory.
    pub open spec fn sealed(self) -> bool {
        &&& self.kind !is Directory
        &&& self.settings matches Some(s)
        &&& s.readonly
    }
}

/// The handle to a tree that was built. It stands for the directory `root`
/// and everything below it, and says whether that directory is to be deleted
/// when the handle's scope ends.
#[derive(Debug, PartialEq, Eq)]
pub struct Tree {
    /// Root folder where the tree was created.
    pub root: String,
    /// Whether to delete the root folder when the handle is closed.
    pub(crate) drop: bool,
    /// Whether the handle was closed before.
    closed: bool,
}

/// A [`Tree`] as a mathematical value.
pub struct TreeView {
    pub root: Seq<char>,
    pub drop: bool,
    pub closed: bool,
}

impl View for Tree {
    type V = TreeView;

    closed spec fn view(&self) -> TreeView {
        TreeView { root: self.root@, drop: self.drop, closed: self.closed }
    }
}

impl TreeView {
    /// The handle that a successful build returns.
    pub open spec fn fresh(root: Seq<char>, drop: bool) -> TreeView {
        TreeView { root, drop, closed: false }
    }

    /// The directory that closing the handle now asks to delete, if any.
    pub open spec fn due(self) -> Option<Seq<char>> {
        if self.drop && !self.closed {
            Some(self.root)
        } else {
            None
        }
    }

    /// The handle after it was closed.
    pub open spec fn shut(self) -> TreeView {
        TreeView { closed: true, ..self }
    }
}

impl Tree {
    /// The handle to a tree that was just built at `root`.
    pub(crate) fn new(root: String, drop: bool) -> (tree: Tree)
        ensures
            tree@ == TreeView::fresh(root@, drop),
    {
        Tree { root, drop, closed: false }
    }

    /// The root folder of the tree.
    pub fn root(&self) -> (root: &String)
        ensures
            root@ == self@.root,
    {
        &self.root
    }

    /// Tells whether the root folder is deleted when the handle is closed.
    pub fn deletes_on_close(&self) -> (r: bool)
        ensures
            r == self@.drop,
    {
        self.drop
    }

    /// Tells whether the handle was closed.
    pub fn is_closed(&self) -> (r: bool)
        ensures
            r == self@.closed,
    {
        self.closed
    }

    /// Ends the handle's scope. Returns the directory that the caller is to
    /// delete with everything below it: the root, the first time a handle
    /// that deletes on close is closed, and nothing on every later call or
    /// for a handle that keeps its tree. Whether the deletion succeeds is of
    /// no concern to the handle.
    pub fn close(&mut self) -> (due: Option<String>)
        ensures
            final(self)@ == old(self)@.shut(),
            due is Some <==> old(self)@.due() is Some,
            due matches Some(path) ==> old(self)@.due() == Some(path@),
    {
        let due = if self.drop && !self.closed {
            Some(self.root.clone())
        } else {
            None
        };
        self.closed = true;
        due
    }

    /// The error to report where the caller asked for the root folder to be
    /// deleted and wants to know that it could not be.
    pub fn delete_failed(&self) -> (e: Error)
        ensures
            e@ == ErrorView::FailedToDeleteDirectory(self@.root),
    {
        Error::FailedToDeleteDirectory(self.root.clone())
    }
}

/// A handle deletes its root at most once: whatever the handle, closing it
/// a second time asks for nothing, and a handle that is closed stays as it
/// is.
pub proof fn lemma_close_once(tree: TreeView)
    ensures
        tree.shut().due() is None,
        tree.shut().shut() == tree.shut(),
{
}

/// Closing the handle of a fresh tree asks for the root to be deleted exactly
/// when the tree was built to be deleted, and then for that root.
pub proof fn lemma_close_fresh(root: Seq<char>, drop: bool)
    ensures
        drop ==> TreeView::fresh(root, drop).due() == Some(root),
        !drop ==> TreeView::fresh(root, drop).due() is None,
{
}

/// The characters that a generated directory name is made of: the ASCII
/// letters and digits.
pub open spec fn is_alphanumeric(c: char) -> bool {
    ('a' <= c && c <= 'z') || ('A' <= c && c <= 'Z') || ('0' <= c && c <= '9')
}

/// A sequence of `len` ASCII letters and digits.
pub open spec fn is_random_name(name: Seq<char>, len: nat) -> bool {
    &&& name.len() == len
    &&& forall|i: int| 0 <= i < name.len() ==> is_alphanumeric(#[trigger] name[i])
}

/// How long the name of a generated directory is.
pub const TEMP_NAME_LEN: usize = 5;

/// Draws `len` characters from `rand`'s thread-local generator with
/// `Rng::sample_iter` over the `Alphanumeric` distribution, which yields
/// ASCII letters and digits and never ends. Which characters come is left
/// open: two calls may differ.
#[verifier::external_body]
fn random_name(len: usize) -> (name: String)
    ensures
        is_random_name(name@, len as nat),
{
    rand::rng().sample_iter(&rand::distr::Alphanumeric).take(len).map(char::from).collect()
}

/// A path for a new temporary directory: `base` with a random name of five
/// letters and digits joined to it. Nothing is created, and nothing says
/// that the path is free.
pub fn temp_dir(base: &str) -> (dir: String)
    ensures
        exists|name: Seq<char>|
            is_random_name(name, TEMP_NAME_LEN as nat) && dir@ == #[trigger] joined(base@, name),
{
    let name = random_name(TEMP_NAME_LEN);
    join(base, name.as_str())
}

} // verus!
