//! The materializer: what to do on disk, step by step, to build a tree.
//!
//! The materializer touches nothing itself. It is a machine that the caller
//! drives: each call of [`Materializer::step`] takes the outcome of the
//! action before and returns the next [`Action`] for the caller to carry
//! out, until it returns `Finish` with the handle to the tree, or `Abort`
//! with the error. Entries are taken in the order in which they were added.
//! What was created before a failure stays: nothing is rolled back.
//!
//! [`next`] is the machine as a function from state and reply to state and
//! action; `step` computes exactly that.

use crate::builder::{entry_views, Config, TreeBuilder};
use crate::error::{Error, ErrorView};
use crate::path::{
    absolute, admits, below, is_absolute, locate, parent, render, resolution, resolve, target,
    Place,
};
use crate::tree::{Entry, Kind, KindView, Tree, TreeView};
use vstd::prelude::*;
use vstd::string::*;
use vstd::utf8::encode_utf8;

verus! {

/// Where the machine stands: which action it asked for last.
#[derive(Debug, Clone, Copy, PartialEq, Eq, Structural)]
pub enum Phase {
    /// Nothing was asked for yet.
    Start,
    /// Whether the root exists.
    RootProbe,
    /// To create the root.
    RootCreate,
    /// Whether the place of the current entry exists.
    EntryProbe,
    /// To create the directory that holds the current entry.
    Parent,
    /// To create the current entry itself, empty.
    Leaf,
    /// To read the file that the current entry is a copy of.
    Source,
    /// To write the content of the current entry.
    Content,
    /// To make the current entry read-only.
    Seal,
    /// `Finish` or `Abort` was returned: there is nothing more to do.
    Finished,
}

/// What the caller is to do next.
#[derive(Debug, PartialEq, Eq)]
pub enum Action {
    /// Tell whether anything exists at this path: reply `Exists`.
    Exists(String),
    /// Create the directory at this path and every directory above it that
    /// is missing; a directory that is there already is no failure.
    CreateDirAll(String),
    /// Create the directory at this path, whose parent exists; a directory
    /// that is there already is no failure.
    CreateDir(String),
    /// Create an empty file at this path, or empty the file that is there.
    CreateFile(String),
    /// Write these bytes to the file at this path, which was just created.
    WriteFile(String, Vec<u8>),
    /// Read the file at this path: reply `Bytes` with all that it holds.
    ReadFile(String),
    /// Make the file at this path read-only.
    SetReadonly(String),
    /// The tree stands: here is its handle.
    Finish(Tree),
    /// The tree could not be built.
    Abort(Error),
    /// The machine was stepped after it had finished.
    Halt,
}

/// An [`Action`] as a mathematical value.
pub enum ActionView {
    Exists(Seq<char>),
    CreateDirAll(Seq<char>),
    CreateDir(Seq<char>),
    CreateFile(Seq<char>),
    WriteFile(Seq<char>, Seq<u8>),
    ReadFile(Seq<char>),
    SetReadonly(Seq<char>),
    Finish(TreeView),
    Abort(ErrorView),
    Halt,
}

impl View for Action {
    type V = ActionView;

    open spec fn view(&self) -> ActionView {
        match self {
            Action::Exists(p) => ActionView::Exists(p@),
            Action::CreateDirAll(p) => ActionView::CreateDirAll(p@),
            Action::CreateDir(p) => ActionView::CreateDir(p@),
            Action::CreateFile(p) => ActionView::CreateFile(p@),
            Action::WriteFile(p, bytes) => ActionView::WriteFile(p@, bytes@),
            Action::ReadFile(p) => ActionView::ReadFile(p@),
            Action::SetReadonly(p) => ActionView::SetReadonly(p@),
            Action::Finish(tree) => ActionView::Finish(tree@),
            Action::Abort(e) => ActionView::Abort(e@),
            Action::Halt => ActionView::Halt,
        }
    }
}

/// How the action before went.
#[derive(Debug, PartialEq, Eq)]
pub enum Reply {
    /// There was no action before: this is the first step.
    Start,
    /// Whether the path exists.
    Exists(bool),
    /// The action was carried out.
    Done,
    /// The action could not be carried out.
    Failed,
    /// What the file holds.
    Bytes(Vec<u8>),
}

/// A [`Reply`] as a mathematical value.
pub enum ReplyView {
    Start,
    Exists(bool),
    Done,
    Failed,
    Bytes(Seq<u8>),
}

impl View for Reply {
    type V = ReplyView;

    open spec fn view(&self) -> ReplyView {
        match self {
            Reply::Start => ReplyView::Start,
            Reply::Exists(b) => ReplyView::Exists(*b),
            Reply::Done => ReplyView::Done,
            Reply::Failed => ReplyView::Failed,
            Reply::Bytes(bytes) => ReplyView::Bytes(bytes@),
        }
    }
}

/// The state of the machine: the tree it builds, the position of the current
/// entry, the action it asked for last, and the bytes of a copied file that
/// were read and are not yet written.
pub struct MachineView {
    pub config: Config,
    pub index: nat,
    pub phase: Phase,
    pub pending: Seq<u8>,
}

impl Phase {
    /// The machine is at work on the current entry.
    pub open spec fn on_entry(self) -> bool {
        self == Phase::EntryProbe || self == Phase::Parent || self == Phase::Leaf || self
            == Phase::Source || self == Phase::Content || self == Phase::Seal
    }
}

impl MachineView {
    /// The machine at entry `index` in `phase`, holding no bytes.
    pub open spec fn at(config: Config, index: nat, phase: Phase) -> MachineView {
        MachineView { config, index, phase, pending: Seq::empty() }
    }

    /// The machine before its first step.
    pub open spec fn start(config: Config) -> MachineView {
        MachineView::at(config, 0, Phase::Start)
    }

    /// What holds of every state that the machine gets into: the entries
    /// before the current one passed the path policy, and so did the current
    /// one while the machine is at work on it.
    pub open spec fn wf(self) -> bool {
        &&& self.index <= self.config.entries.len()
        &&& forall|j: int|
            0 <= j < self.index ==> admits(self.config.root, #[trigger] self.config.entries[j].path)
        &&& self.phase.on_entry() ==> {
            &&& self.index < self.config.entries.len()
            &&& admits(self.config.root, self.config.entries[self.index as int].path)
        }
        &&& self.phase == Phase::Parent ==> below(
            self.config.root,
            self.config.entries[self.index as int].path,
        )
        &&& self.phase == Phase::Start || self.phase == Phase::RootProbe || self.phase
            == Phase::RootCreate ==> self.index == 0
    }
}

/// The machine stops at entry `i` with `action` as its last word.
pub open spec fn stop(c: Config, i: nat, action: ActionView) -> (MachineView, ActionView) {
    (MachineView::at(c, i, Phase::Finished), action)
}

/// The directory that holds entry `i`.
pub open spec fn holder(c: Config, i: int) -> Seq<char> {
    render(parent(target(c.root, c.entries[i].path)))
}

/// The first move on entry `i`. After the last entry the tree stands, and
/// the machine hands out the handle. An entry that the path policy refuses
/// ends the build with the policy's error, before anything is asked for on
/// its behalf. For any other entry the machine asks whether its place is
/// taken.
pub open spec fn begin(c: Config, i: nat) -> (MachineView, ActionView) {
    if i >= c.entries.len() {
        stop(c, i, ActionView::Finish(TreeView::fresh(c.root, c.drop)))
    } else {
        match resolution(c.root, c.entries[i as int].path, i) {
            Err(e) => stop(c, i, ActionView::Abort(e)),
            Ok(place) => (MachineView::at(c, i, Phase::EntryProbe), ActionView::Exists(place)),
        }
    }
}

/// Entry `i` is to be created: the directory that holds it comes first,
/// unless the entry's place is the root itself, which exists by then.
pub open spec fn settle(c: Config, i: nat) -> (MachineView, ActionView) {
    if below(c.root, c.entries[i as int].path) {
        (MachineView::at(c, i, Phase::Parent), ActionView::CreateDirAll(holder(c, i as int)))
    } else {
        fill(c, i)
    }
}

/// The directory that holds entry `i` exists: the entry itself is created,
/// a file empty at first. The source of a copied file is read before that;
/// a source that is not an absolute path is not even tried.
pub open spec fn fill(c: Config, i: nat) -> (MachineView, ActionView) {
    let kind = c.entries[i as int].kind;
    match kind {
        KindView::Directory => (
            MachineView::at(c, i, Phase::Leaf),
            ActionView::CreateDir(c.place(i as int)),
        ),
        KindView::CopiedFile { source } => if is_absolute(source) {
            (MachineView::at(c, i, Phase::Source), ActionView::ReadFile(source))
        } else {
            stop(c, i, ActionView::Abort(ErrorView::FailedToCopyFile(source)))
        },
        _ => (MachineView::at(c, i, Phase::Leaf), ActionView::CreateFile(c.place(i as int))),
    }
}

/// The bytes that an entry of this kind is to hold, if it is to hold any:
/// a text file its text in UTF-8, a binary file its bytes, a copied file the
/// bytes that were read from its source.
pub open spec fn content(kind: KindView, pending: Seq<u8>) -> Option<Seq<u8>> {
    match kind {
        KindView::TextFile { content } => Some(encode_utf8(content)),
        KindView::BinaryFile { bytes } => Some(bytes),
        KindView::CopiedFile { source } => Some(pending),
        _ => None,
    }
}

/// Entry `i` exists: its content is written, if it has any.
pub open spec fn written(c: Config, i: nat, pending: Seq<u8>) -> (MachineView, ActionView) {
    match content(c.entries[i as int].kind, pending) {
        Some(bytes) => (
            MachineView::at(c, i, Phase::Content),
            ActionView::WriteFile(c.place(i as int), bytes),
        ),
        None => seal(c, i),
    }
}

/// Entry `i` holds what it is to hold: it is made read-only if its settings
/// say so and it is no directory, and then the next entry's turn comes.
pub open spec fn seal(c: Config, i: nat) -> (MachineView, ActionView) {
    if c.entries[i as int].sealed() {
        (MachineView::at(c, i, Phase::Seal), ActionView::SetReadonly(c.place(i as int)))
    } else {
        begin(c, i + 1)
    }
}

/// The error for an entry that could not be created: one for a directory,
/// another for a file.
pub open spec fn leaf_failure(c: Config, i: int) -> ErrorView {
    if c.entries[i].kind is Directory {
        ErrorView::FailedToCreateDirectory(c.place(i))
    } else {
        ErrorView::FailedToCreateFile(c.place(i))
    }
}

/// The machine: the state after `reply` arrives in state `s`, and the action
/// that the machine then asks for.
///
/// The root comes first: it is created, with the directories above it, if
/// it does not exist. Then each entry in turn: the path policy is applied;
/// if the entry's place is taken, the entry is written again where the tree
/// overrides, is an error where the tree is strict, and is passed over
/// otherwise; then the directory that holds it, the entry itself, its
/// content and its read-only mark. A reply other than the one that reports
/// success counts as a failure, and a failure ends the build at once.
pub open spec fn next(s: MachineView, reply: ReplyView) -> (MachineView, ActionView) {
    let c = s.config;
    let i = s.index;
    let done = reply == ReplyView::Done;
    match s.phase {
        Phase::Start => (MachineView::at(c, 0, Phase::RootProbe), ActionView::Exists(c.root)),
        Phase::RootProbe => if reply == ReplyView::Exists(true) {
            begin(c, 0)
        } else {
            (MachineView::at(c, 0, Phase::RootCreate), ActionView::CreateDirAll(c.root))
        },
        Phase::RootCreate => if done {
            begin(c, 0)
        } else {
            stop(c, 0, ActionView::Abort(ErrorView::FailedToCreateRootDirectory(c.root)))
        },
        Phase::EntryProbe => if reply == ReplyView::Exists(true) {
            if c.override_file {
                settle(c, i)
            } else if c.strict {
                stop(c, i, ActionView::Abort(ErrorView::DuplicateEntry(c.entries[i as int].path)))
            } else {
                begin(c, i + 1)
            }
        } else {
            settle(c, i)
        },
        Phase::Parent => if done {
            fill(c, i)
        } else {
            stop(c, i, ActionView::Abort(ErrorView::FailedToCreateDirectory(holder(c, i as int))))
        },
        Phase::Leaf => if done {
            written(c, i, s.pending)
        } else {
            stop(c, i, ActionView::Abort(leaf_failure(c, i as int)))
        },
        Phase::Source => match reply {
            ReplyView::Bytes(bytes) => (
                MachineView { pending: bytes, ..MachineView::at(c, i, Phase::Leaf) },
                ActionView::CreateFile(c.place(i as int)),
            ),
            _ => stop(
                c,
                i,
                ActionView::Abort(ErrorView::FailedToCopyFile(c.entries[i as int].kind.source())),
            ),
        },
        Phase::Content => if done {
            seal(c, i)
        } else {
            stop(c, i, ActionView::Abort(ErrorView::FailedToWriteFile(c.place(i as int))))
        },
        Phase::Seal => if done {
            begin(c, i + 1)
        } else {
            stop(c, i, ActionView::Abort(ErrorView::FailedToWriteFile(c.place(i as int))))
        },
        Phase::Finished => stop(c, i, ActionView::Halt),
    }
}

/// The machine that builds one tree.
#[derive(Debug)]
pub struct Materializer {
    config: TreeBuilder,
    index: usize,
    phase: Phase,
    pending: Vec<u8>,
}

impl View for Materializer {
    type V = MachineView;

    closed spec fn view(&self) -> MachineView {
        MachineView {
            config: self.config@,
            index: self.index as nat,
            phase: self.phase,
            pending: self.pending@,
        }
    }
}

/// A move of the machine before it is made: where it leads and what it
/// asks for.
struct Move {
    index: usize,
    phase: Phase,
    action: Action,
}

impl Move {
    spec fn leads(self, c: Config, to: (MachineView, ActionView)) -> bool {
        &&& to.0 == MachineView::at(c, self.index as nat, self.phase)
        &&& to.1 == self.action@
    }
}

impl Materializer {
    #[verifier::type_invariant]
    spec fn valid(self) -> bool {
        self@.wf()
    }

    /// The machine for the tree that `config` describes, before its first
    /// step.
    pub(crate) fn new(config: TreeBuilder) -> (m: Materializer)
        ensures
            m@ == MachineView::start(config@),
            m@.wf(),
    {
        Materializer { config, index: 0, phase: Phase::Start, pending: Vec::new() }
    }

    /// Tells whether the machine has handed out the handle or the error.
    pub fn is_finished(&self) -> (r: bool)
        ensures
            r == (self@.phase == Phase::Finished),
    {
        match self.phase {
            Phase::Finished => true,
            _ => false,
        }
    }

    fn count(&self) -> (n: usize)
        ensures
            n == self@.config.entries.len(),
    {
        let entries = self.config.entries();
        assert(entry_views(entries@).len() == entries@.len());
        entries.len()
    }

    fn entry(&self, i: usize) -> (e: &Entry)
        requires
            i < self@.config.entries.len(),
        ensures
            e@ == self@.config.entries[i as int],
            i < usize::MAX,
    {
        let entries = self.config.entries();
        assert(i < entries.len()) by {
            assert(entry_views(entries@).len() == entries@.len());
        }
        assert(entry_views(entries@)[i as int] == entries@[i as int]@);
        &entries[i]
    }

    fn place(&self, i: usize) -> (p: Place)
        requires
            i < self@.config.entries.len(),
            admits(self@.config.root, self@.config.entries[i as int].path),
        ensures
            p.path@ == self@.config.place(i as int),
            p.parent is Some <==> below(self@.config.root, self@.config.entries[i as int].path),
            p.parent matches Some(dir) ==> dir@ == holder(self@.config, i as int),
    {
        let entry = self.entry(i);
        locate(self.config.root().as_str(), entry.path.as_str()).unwrap()
    }

    fn halt(&self, i: usize, action: Action) -> (m: Move)
        ensures
            m.leads(self@.config, stop(self@.config, i as nat, action@)),
    {
        Move { index: i, phase: Phase::Finished, action }
    }

    fn begin(&self, i: usize) -> (m: Move)
        requires
            i <= self@.config.entries.len(),
        ensures
            m.leads(self@.config, begin(self@.config, i as nat)),
    {
        if i >= self.count() {
            let root = self.config.root().clone();
            self.halt(i, Action::Finish(Tree::new(root, self.config.deletes_on_close())))
        } else {
            let entry = self.entry(i);
            match resolve(self.config.root().as_str(), entry.path.as_str(), i) {
                Err(e) => self.halt(i, Action::Abort(e)),
                Ok(place) => Move {
                    index: i,
                    phase: Phase::EntryProbe,
                    action: Action::Exists(place),
                },
            }
        }
    }

    fn settle(&self, i: usize) -> (m: Move)
        requires
            i < self@.config.entries.len(),
            admits(self@.config.root, self@.config.entries[i as int].path),
        ensures
            m.leads(self@.config, settle(self@.config, i as nat)),
    {
        match self.place(i).parent {
            Some(dir) => Move { index: i, phase: Phase::Parent, action: Action::CreateDirAll(dir) },
            None => self.fill(i),
        }
    }

    fn fill(&self, i: usize) -> (m: Move)
        requires
            i < self@.config.entries.len(),
            admits(self@.config.root, self@.config.entries[i as int].path),
        ensures
            m.leads(self@.config, fill(self@.config, i as nat)),
    {
        let entry = self.entry(i);
        match &entry.kind {
            Kind::Directory => Move {
                index: i,
                phase: Phase::Leaf,
                action: Action::CreateDir(self.place(i).path),
            },
            Kind::CopiedFile { source } => {
                if absolute(source.as_str()) {
                    Move {
                        index: i,
                        phase: Phase::Source,
                        action: Action::ReadFile(source.clone()),
                    }
                } else {
                    self.halt(i, Action::Abort(Error::FailedToCopyFile(source.clone())))
                }
            },
            _ => Move {
                index: i,
                phase: Phase::Leaf,
                action: Action::CreateFile(self.place(i).path),
            },
        }
    }

    fn seal(&self, i: usize) -> (m: Move)
        requires
            i < self@.config.entries.len(),
            admits(self@.config.root, self@.config.entries[i as int].path),
        ensures
            m.leads(self@.config, seal(self@.config, i as nat)),
    {
        let entry = self.entry(i);
        let readonly = match &entry.settings {
            Some(settings) => settings.readonly,
            None => false,
        };
        let directory = match &entry.kind {
            Kind::Directory => true,
            _ => false,
        };
        if readonly && !directory {
            Move { index: i, phase: Phase::Seal, action: Action::SetReadonly(self.place(i).path) }
        } else {
            self.begin(i + 1)
        }
    }

    fn written(&self, i: usize, pending: Vec<u8>) -> (m: Move)
        requires
            i < self@.config.entries.len(),
            admits(self@.config.root, self@.config.entries[i as int].path),
        ensures
            m.leads(self@.config, written(self@.config, i as nat, pending@)),
    {
        let entry = self.entry(i);
        let bytes = match &entry.kind {
            Kind::TextFile { content } => Some(content.as_str().as_bytes_vec()),
            Kind::BinaryFile { bytes } => {
                let copy = bytes.clone();
                assert(copy@ =~= bytes@);
                Some(copy)
            },
            Kind::CopiedFile { source } => Some(pending),
            _ => None,
        };
        match bytes {
            Some(bytes) => Move {
                index: i,
                phase: Phase::Content,
                action: Action::WriteFile(self.place(i).path, bytes),
            },
            None => self.seal(i),
        }
    }

    fn failed_leaf(&self, i: usize) -> (e: Error)
        requires
            i < self@.config.entries.len(),
            admits(self@.config.root, self@.config.entries[i as int].path),
        ensures
            e@ == leaf_failure(self@.config, i as int),
    {
        let entry = self.entry(i);
        match &entry.kind {
            Kind::Directory => Error::FailedToCreateDirectory(self.place(i).path),
            _ => Error::FailedToCreateFile(self.place(i).path),
        }
    }

    fn source(&self, i: usize) -> (s: String)
        requires
            i < self@.config.entries.len(),
        ensures
            s@ == self@.config.entries[i as int].kind.source(),
    {
        let entry = self.entry(i);
        match &entry.kind {
            Kind::CopiedFile { source } => source.clone(),
            _ => String::new(),
        }
    }

    /// Takes the outcome of the action that the step before asked for, and
    /// returns the action to carry out next. The first step takes
    /// `Reply::Start`. The machine moves as [`next`] says.
    pub fn step(&mut self, reply: Reply) -> (action: Action)
        ensures
            (final(self)@, action@) == next(old(self)@, reply@),
            old(self)@.wf(),
            final(self)@.wf(),
    {
        proof {
            use_type_invariant(&*self);
        }
        let i = self.index;
        let count: usize = self.count();
        assert(i <= count);
        let done = match &reply {
            Reply::Done => true,
            _ => false,
        };
        let taken = match &reply {
            Reply::Exists(b) => *b,
            _ => false,
        };
        let mut pending: Vec<u8> = Vec::new();
        let m = match self.phase {
            Phase::Start => Move {
                index: 0,
                phase: Phase::RootProbe,
                action: Action::Exists(self.config.root().clone()),
            },
            Phase::RootProbe => {
                if taken {
                    self.begin(0)
                } else {
                    Move {
                        index: 0,
                        phase: Phase::RootCreate,
                        action: Action::CreateDirAll(self.config.root().clone()),
                    }
                }
            },
            Phase::RootCreate => {
                if done {
                    self.begin(0)
                } else {
                    self.halt(
                        0,
                        Action::Abort(
                            Error::FailedToCreateRootDirectory(self.config.root().clone()),
                        ),
                    )
                }
            },
            Phase::EntryProbe => {
                if taken {
                    if self.config.overrides() {
                        self.settle(i)
                    } else if self.config.is_strict() {
                        self.halt(
                            i,
                            Action::Abort(Error::DuplicateEntry(self.entry(i).path.clone())),
                        )
                    } else {
                        self.begin(i + 1)
                    }
                } else {
                    self.settle(i)
                }
            },
            Phase::Parent => {
                if done {
                    self.fill(i)
                } else {
                    let dir = self.place(i).parent.unwrap();
                    self.halt(i, Action::Abort(Error::FailedToCreateDirectory(dir)))
                }
            },
            Phase::Leaf => {
                if done {
                    let mut bytes: Vec<u8> = Vec::new();
                    core::mem::swap(&mut self.pending, &mut bytes);
                    self.written(i, bytes)
                } else {
                    self.halt(i, Action::Abort(self.failed_leaf(i)))
                }
            },
            Phase::Source => {
                match reply {
                    Reply::Bytes(bytes) => {
                        pending = bytes;
                        Move {
                            index: i,
                            phase: Phase::Leaf,
                            action: Action::CreateFile(self.place(i).path),
                        }
                    },
                    _ => self.halt(i, Action::Abort(Error::FailedToCopyFile(self.source(i)))),
                }
            },
            Phase::Content => {
                if done {
                    self.seal(i)
                } else {
                    self.halt(i, Action::Abort(Error::FailedToWriteFile(self.place(i).path)))
                }
            },
            Phase::Seal => {
                if done {
                    self.begin(i + 1)
                } else {
                    self.halt(i, Action::Abort(Error::FailedToWriteFile(self.place(i).path)))
                }
            },
            Phase::Finished => self.halt(i, Action::Halt),
        };
        proof {
            lemma_next_wf(old(self)@, reply@);
        }
        self.phase = Phase::Finished;
        self.index = m.index;
        self.pending = pending;
        self.phase = m.phase;
        m.action
    }
}

/// The machine starts in a well-formed state, whatever the tree.
pub proof fn lemma_start_wf(c: Config)
    ensures
        MachineView::start(c).wf(),
{
}

/// Each move leads from a well-formed state to a well-formed state, and
/// leaves the tree as it is.
pub proof fn lemma_next_wf(s: MachineView, reply: ReplyView)
    requires
        s.wf(),
    ensures
        next(s, reply).0.wf(),
        next(s, reply).0.config == s.config,
{
}

} // verus!
