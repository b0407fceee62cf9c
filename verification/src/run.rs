//! What holds of the materializer whatever the disk replies: it stays within
//! the root, leaves alone what it is to leave alone, writes what it was
//! given, and hands out a handle only for a tree whose entries all passed
//! the path policy.

use crate::builder::Config;
use crate::error::ErrorView;
use crate::materializer::{
    begin, content, holder, lemma_next_wf, lemma_start_wf, next, stop, ActionView, MachineView,
    Phase, ReplyView,
};
use crate::normal_form::{lemma_clean_normal, lemma_clean_render, lemma_parent_normal};
use crate::path::{admits, below, clean, joined, parent, target, within};
use crate::tree::{KindView, TreeView};
use vstd::prelude::*;
use vstd::utf8::{decode_utf8, encode_utf8, encode_utf8_decode_utf8};

verus! {

/// The state of the machine after it took `replies` one by one, starting in
/// state `s`.
pub open spec fn state_after(s: MachineView, replies: Seq<ReplyView>) -> MachineView
    decreases replies.len(),
{
    if replies.len() == 0 {
        s
    } else {
        next(state_after(s, replies.drop_last()), replies.last()).0
    }
}

/// The action that the machine asks for when the last of `replies` arrives.
pub open spec fn asked(s: MachineView, replies: Seq<ReplyView>) -> ActionView
    recommends
        replies.len() > 0,
{
    next(state_after(s, replies.drop_last()), replies.last()).1
}

/// The path that an action changes on disk, if it changes any. To ask
/// whether a path exists and to read a file changes nothing.
pub open spec fn touched(action: ActionView) -> Option<Seq<char>> {
    match action {
        ActionView::CreateDirAll(p) => Some(p),
        ActionView::CreateDir(p) => Some(p),
        ActionView::CreateFile(p) => Some(p),
        ActionView::WriteFile(p, _) => Some(p),
        ActionView::SetReadonly(p) => Some(p),
        _ => None,
    }
}

/// `p` is the place of entry `i`, which passed the path policy, or the
/// directory that holds that place where the place lies strictly below the
/// root.
pub open spec fn serves(c: Config, i: int, p: Seq<char>) -> bool {
    &&& 0 <= i < c.entries.len()
    &&& admits(c.root, c.entries[i].path)
    &&& (c.place(i) == p || (below(c.root, c.entries[i].path) && holder(c, i) == p))
}

/// The paths that building the tree `c` may change: the root, the place of
/// an entry that passed the path policy, and the directory that holds such a
/// place.
pub open spec fn allowed(c: Config, p: Seq<char>) -> bool {
    p == c.root || exists|i: int| serves(c, i, p)
}

/// Every path that is allowed, read as a path of its own, lies within the
/// root.
pub proof fn lemma_allowed_within(c: Config, p: Seq<char>)
    requires
        allowed(c, p),
    ensures
        within(clean(c.root), clean(p)),
{
    if p != c.root {
        let i = choose|i: int| serves(c, i, p);
        let place = target(c.root, c.entries[i].path);
        lemma_clean_normal(joined(c.root, c.entries[i].path));
        if c.place(i) == p {
            lemma_clean_render(place);
        } else {
            lemma_parent_normal(place);
            lemma_clean_render(parent(place));
            assert(clean(c.root).names =~= parent(place).names.subrange(
                0,
                clean(c.root).names.len() as int,
            ));
        }
    }
}

/// One step never leaves the root: whatever the reply, the path that the
/// next action changes, if it changes any, is an allowed one, and so lies
/// within the root.
pub proof fn lemma_step_stays_within_root(s: MachineView, reply: ReplyView)
    requires
        s.wf(),
    ensures
        touched(next(s, reply).1) matches Some(p) ==> allowed(s.config, p) && within(
            clean(s.config.root),
            clean(p),
        ),
{
    let c = s.config;
    let after = next(s, reply);
    lemma_next_wf(s, reply);
    if let Some(p) = touched(after.1) {
        if p != c.root {
            let i = after.0.index as int;
            assert(after.0.phase.on_entry());
            assert(serves(c, i, p));
        }
        lemma_allowed_within(c, p);
    }
}

/// Every state that the machine reaches from its start is well-formed, and
/// the tree that it builds stays the same.
pub proof fn lemma_run_wf(c: Config, replies: Seq<ReplyView>)
    ensures
        state_after(MachineView::start(c), replies).wf(),
        state_after(MachineView::start(c), replies).config == c,
    decreases replies.len(),
{
    lemma_start_wf(c);
    if replies.len() > 0 {
        lemma_run_wf(c, replies.drop_last());
        lemma_next_wf(state_after(MachineView::start(c), replies.drop_last()), replies.last());
    }
}

/// Path containment, of a whole build: whatever the disk replies and however
/// long the build goes on, every path that the machine asks to change lies
/// within the root.
pub proof fn lemma_run_stays_within_root(c: Config, replies: Seq<ReplyView>)
    requires
        replies.len() > 0,
    ensures
        touched(asked(MachineView::start(c), replies)) matches Some(p) ==> allowed(c, p) && within(
            clean(c.root),
            clean(p),
        ),
{
    lemma_run_wf(c, replies.drop_last());
    lemma_step_stays_within_root(
        state_after(MachineView::start(c), replies.drop_last()),
        replies.last(),
    );
}

/// An entry that the path policy refuses ends the build when its turn comes,
/// with `EmptyEntryName` and its position for an empty path and with
/// `EntryOutsideDirectory` and its path for one that leaves the root. Nothing
/// is asked for on its behalf, and every later step asks for nothing.
pub proof fn lemma_refused_entry_ends_build(c: Config, i: nat, reply: ReplyView)
    requires
        i < c.entries.len(),
        !admits(c.root, c.entries[i as int].path),
    ensures
        c.entries[i as int].path.len() == 0 ==> begin(c, i) == stop(
            c,
            i,
            ActionView::Abort(ErrorView::EmptyEntryName(i)),
        ),
        c.entries[i as int].path.len() > 0 ==> begin(c, i) == stop(
            c,
            i,
            ActionView::Abort(ErrorView::EntryOutsideDirectory(c.entries[i as int].path)),
        ),
        next(begin(c, i).0, reply) == stop(c, i, ActionView::Halt),
{
}

/// A handle is handed out only for a tree whose entries all passed the path
/// policy, and it is the handle to the root of that tree, deleting on close
/// as the tree says.
pub proof fn lemma_finish_means_admitted(c: Config, replies: Seq<ReplyView>)
    requires
        replies.len() > 0,
    ensures
        asked(MachineView::start(c), replies) matches ActionView::Finish(tree) ==> {
            &&& tree == TreeView::fresh(c.root, c.drop)
            &&& forall|i: int|
                0 <= i < c.entries.len() ==> admits(c.root, #[trigger] c.entries[i].path)
        },
{
    let before = state_after(MachineView::start(c), replies.drop_last());
    lemma_run_wf(c, replies.drop_last());
    lemma_next_wf(before, replies.last());
}

/// A tree without entries is built by making sure of the root. The machine
/// asks whether the root exists. If it does, the tree stands. If not, the
/// machine asks for it to be created with the directories above it, and the
/// tree stands when that is done.
pub proof fn lemma_empty_tree(c: Config, first: ReplyView, second: ReplyView)
    requires
        c.entries.len() == 0,
    ensures
        next(MachineView::start(c), first) == (
            MachineView::at(c, 0, Phase::RootProbe),
            ActionView::Exists(c.root),
        ),
        next(MachineView::at(c, 0, Phase::RootProbe), ReplyView::Exists(true)) == stop(
            c,
            0,
            ActionView::Finish(TreeView::fresh(c.root, c.drop)),
        ),
        second != ReplyView::Exists(true) ==> next(MachineView::at(c, 0, Phase::RootProbe), second)
            == (MachineView::at(c, 0, Phase::RootCreate), ActionView::CreateDirAll(c.root)),
        next(MachineView::at(c, 0, Phase::RootCreate), ReplyView::Done) == stop(
            c,
            0,
            ActionView::Finish(TreeView::fresh(c.root, c.drop)),
        ),
{
}

/// Building a tree without entries changes nothing but the root, and that
/// only by creating it: whatever the disk replies.
pub proof fn lemma_empty_tree_touches_root_only(c: Config, replies: Seq<ReplyView>)
    requires
        c.entries.len() == 0,
        replies.len() > 0,
    ensures
        touched(asked(MachineView::start(c), replies)) is Some ==> asked(
            MachineView::start(c),
            replies,
        ) == ActionView::CreateDirAll(c.root),
{
    let before = state_after(MachineView::start(c), replies.drop_last());
    lemma_run_wf(c, replies.drop_last());
    lemma_next_wf(before, replies.last());
}

/// A tree without a fault on the face of it fails on the disk only: the
/// build never ends on an empty path or on a path that leaves the root, and
/// where it ends on a copy, the source was tried and could not be read.
pub proof fn lemma_sound_tree_fails_on_disk_only(c: Config, replies: Seq<ReplyView>)
    requires
        replies.len() > 0,
        forall|i: int| 0 <= i < c.entries.len() ==> c.fault(i) is None,
    ensures
        asked(MachineView::start(c), replies) matches ActionView::Abort(e) ==> {
            &&& !(e is EmptyEntryName)
            &&& !(e is EntryOutsideDirectory)
            &&& e is FailedToCopyFile ==> state_after(
                MachineView::start(c),
                replies.drop_last(),
            ).phase == Phase::Source
        },
{
    let before = state_after(MachineView::start(c), replies.drop_last());
    lemma_run_wf(c, replies.drop_last());
    lemma_next_wf(before, replies.last());
    let after = next(before, replies.last());
    if after.1 is Abort {
        let i = after.0.index as int;
        if i < c.entries.len() {
            assert(c.fault(i) is None);
        }
    }
}

/// An upper bound on the steps that the machine has yet to make: seven for
/// each entry that is not done, less what is done of the current one, and
/// three at most for the root.
pub open spec fn steps_left(s: MachineView) -> int {
    let all = s.config.entries.len() as int;
    let rest = all - s.index;
    match s.phase {
        Phase::Start => 7 * all + 3,
        Phase::RootProbe => 7 * all + 2,
        Phase::RootCreate => 7 * all + 1,
        Phase::EntryProbe => 7 * rest,
        Phase::Parent => 7 * rest - 1,
        Phase::Source => 7 * rest - 2,
        Phase::Leaf => 7 * rest - 3,
        Phase::Content => 7 * rest - 4,
        Phase::Seal => 7 * rest - 5,
        Phase::Finished => 0,
    }
}

/// Every step brings the end nearer: whatever the reply, a machine that has
/// not finished has fewer steps left after the step than before.
pub proof fn lemma_step_progress(s: MachineView, reply: ReplyView)
    requires
        s.wf(),
        s.phase != Phase::Finished,
    ensures
        0 <= steps_left(next(s, reply).0) < steps_left(s),
{
}

/// A machine that has finished stays finished and asks for nothing more.
pub proof fn lemma_finished_stays(s: MachineView, reply: ReplyView)
    requires
        s.phase == Phase::Finished,
    ensures
        next(s, reply).0.phase == Phase::Finished,
        next(s, reply).1 == ActionView::Halt,
{
}

/// Every build ends: whatever the disk replies, a tree of `n` entries is
/// finished after `7 * n + 3` steps at most.
pub proof fn lemma_build_ends(c: Config, replies: Seq<ReplyView>)
    ensures
        steps_left(state_after(MachineView::start(c), replies)) <= 7 * c.entries.len() + 3
            - replies.len() || state_after(MachineView::start(c), replies).phase
            == Phase::Finished,
        replies.len() >= 7 * c.entries.len() + 3 ==> state_after(
            MachineView::start(c),
            replies,
        ).phase == Phase::Finished,
    decreases replies.len(),
{
    lemma_run_wf(c, replies);
    if replies.len() > 0 {
        let before = state_after(MachineView::start(c), replies.drop_last());
        lemma_build_ends(c, replies.drop_last());
        lemma_run_wf(c, replies.drop_last());
        if before.phase != Phase::Finished {
            lemma_step_progress(before, replies.last());
        }
    }
}

/// The handle is handed out once at most, and so is the error: after
/// `Finish` or `Abort` the machine only ever answers `Halt`.
pub proof fn lemma_last_word(c: Config, replies: Seq<ReplyView>, reply: ReplyView)
    requires
        replies.len() > 0,
        asked(MachineView::start(c), replies) is Finish || asked(MachineView::start(c), replies)
            is Abort,
    ensures
        asked(MachineView::start(c), replies.push(reply)) == ActionView::Halt,
{
    assert(replies.push(reply).drop_last() =~= replies);
    lemma_run_wf(c, replies.drop_last());
}

/// The replies of a disk on which everything exists already: each reply
/// after the first says that the path asked about is there.
pub open spec fn all_taken(replies: Seq<ReplyView>) -> bool {
    forall|k: int| 0 < k < replies.len() ==> #[trigger] replies[k] == ReplyView::Exists(true)
}

/// Building a second time changes nothing: in a tree that does not override,
/// as long as the root and every entry are reported to exist, the machine
/// asks for no change at all. It only asks whether the next place exists,
/// until it hands out the handle or ends on an entry that is refused, or,
/// where the tree is strict, on the first entry.
pub proof fn lemma_rebuild_changes_nothing(c: Config, replies: Seq<ReplyView>)
    requires
        !c.override_file,
        all_taken(replies),
    ensures
        replies.len() > 0 ==> touched(asked(MachineView::start(c), replies)) is None,
        ({
            let s = state_after(MachineView::start(c), replies);
            s.phase == Phase::Start || s.phase == Phase::RootProbe || s.phase == Phase::EntryProbe
                || s.phase == Phase::Finished
        }),
    decreases replies.len(),
{
    if replies.len() > 0 {
        assert(all_taken(replies.drop_last())) by {
            let shorter = replies.drop_last();
            assert forall|k: int| 0 < k < shorter.len() implies #[trigger] shorter[k]
                == ReplyView::Exists(true) by {
                assert(shorter[k] == replies[k]);
            }
        }
        lemma_rebuild_changes_nothing(c, replies.drop_last());
        lemma_run_wf(c, replies.drop_last());
        if replies.len() > 1 {
            assert(replies.last() == replies[replies.len() - 1]);
        } else {
            assert(replies.drop_last() =~= Seq::<ReplyView>::empty());
        }
    }
}

/// An entry whose place is taken is left alone in a tree that does not
/// override: the machine goes on to the next entry, or, where the tree is
/// strict, ends the build with `DuplicateEntry`; either way it asks for no
/// change.
pub proof fn lemma_taken_entry_left_alone(s: MachineView)
    requires
        s.wf(),
        s.phase == Phase::EntryProbe,
        !s.config.override_file,
    ensures
        next(s, ReplyView::Exists(true)) == if s.config.strict {
            stop(
                s.config,
                s.index,
                ActionView::Abort(
                    ErrorView::DuplicateEntry(s.config.entries[s.index as int].path),
                ),
            )
        } else {
            begin(s.config, s.index + 1)
        },
        touched(next(s, ReplyView::Exists(true)).1) is None,
{
}

/// What is written is what was given: a write always goes to the place of
/// the current entry and carries the bytes that the entry is to hold. For a
/// text file these are the bytes that decode to its text again.
pub proof fn lemma_written_as_given(s: MachineView, reply: ReplyView)
    requires
        s.wf(),
    ensures
        next(s, reply).1 matches ActionView::WriteFile(p, bytes) ==> {
            &&& s.phase == Phase::Leaf
            &&& reply == ReplyView::Done
            &&& p == s.config.place(s.index as int)
            &&& content(s.config.entries[s.index as int].kind, s.pending) == Some(bytes)
            &&& s.config.entries[s.index as int].kind matches KindView::TextFile { content: text }
                ==> decode_utf8(bytes) == text
        },
        s.phase == Phase::Leaf && reply == ReplyView::Done ==> match s.config.entries[s.index
            as int].kind {
            KindView::TextFile { content: text } => next(s, reply).1 == ActionView::WriteFile(
                s.config.place(s.index as int),
                encode_utf8(text),
            ),
            KindView::BinaryFile { bytes } => next(s, reply).1 == ActionView::WriteFile(
                s.config.place(s.index as int),
                bytes,
            ),
            KindView::CopiedFile { source } => next(s, reply).1 == ActionView::WriteFile(
                s.config.place(s.index as int),
                s.pending,
            ),
            _ => !(next(s, reply).1 is WriteFile),
        },
{
    if let KindView::TextFile { content: text } = s.config.entries[s.index as int].kind {
        encode_utf8_decode_utf8(text);
    }
}

/// The read-only mark comes last and never on a directory: the machine asks
/// for it only when the entry was created and its content, if it has any,
/// was written, and only for an entry that is no directory and whose
/// settings ask for it. And for every such entry it does ask.
pub proof fn lemma_readonly_after_content(s: MachineView, reply: ReplyView)
    requires
        s.wf(),
    ensures
        next(s, reply).1 matches ActionView::SetReadonly(p) ==> {
            &&& reply == ReplyView::Done
            &&& s.phase == Phase::Content || (s.phase == Phase::Leaf && content(
                s.config.entries[s.index as int].kind,
                s.pending,
            ) is None)
            &&& p == s.config.place(s.index as int)
            &&& s.config.entries[s.index as int].sealed()
            &&& !(s.config.entries[s.index as int].kind is Directory)
        },
        s.phase == Phase::Content && reply == ReplyView::Done && s.config.entries[s.index
            as int].sealed() ==> next(s, reply).1 == ActionView::SetReadonly(
            s.config.place(s.index as int),
        ),
        s.phase.on_entry() && s.config.entries[s.index as int].kind is Directory ==> !(next(
            s,
            reply,
        ).1 is SetReadonly),
{
}

} // verus!
