//! The path policy: where an entry's path leads, decided on the text of the
//! path alone.
//!
//! Paths are sequences of characters with `/` as the separator. A path is
//! brought into a normal form without looking at the disk: empty segments and
//! `.` are dropped, and `..` takes back the name before it. An entry is
//! accepted when the normal form of its path, joined to the root, still
//! starts with the normal form of the root. Symbolic links are not followed,
//! so a link that is already on disk can lead elsewhere.

use crate::error::{Error, ErrorView};
use vstd::prelude::*;

verus! {

/// The normal form of a path: whether it starts at the file system's root,
/// how many levels it climbs above its starting point, and the names it then
/// descends through.
pub struct Lexical {
    pub absolute: bool,
    pub ups: nat,
    pub names: Seq<Seq<char>>,
}

/// The separator between the segments of a path.
pub open spec fn sep() -> char {
    '/'
}

/// The segment that stands for the directory itself.
pub open spec fn dot() -> Seq<char> {
    seq!['.']
}

/// The segment that stands for the parent directory.
pub open spec fn dotdot() -> Seq<char> {
    seq!['.', '.']
}

/// A path is absolute when it starts with the separator.
pub open spec fn is_absolute(path: Seq<char>) -> bool {
    path.len() > 0 && path[0] == sep()
}

/// The pieces of `path` between separators, empty pieces included: `a//b`
/// has the three segments `a`, the empty one, and `b`.
pub open spec fn segments(path: Seq<char>) -> Seq<Seq<char>>
    decreases path.len(),
{
    if path.len() == 0 {
        seq![Seq::<char>::empty()]
    } else {
        let before = segments(path.drop_last());
        if path.last() == sep() {
            before.push(Seq::<char>::empty())
        } else {
            before.drop_last().push(before.last().push(path.last()))
        }
    }
}

/// The normal form of the empty path.
pub open spec fn origin(absolute: bool) -> Lexical {
    Lexical { absolute, ups: 0, names: Seq::empty() }
}

/// One segment further from `at`. An empty segment and `.` stay in place.
/// `..` takes back the last name; where no name is left it stays at the file
/// system's root, or climbs one level above a relative starting point.
pub open spec fn enter(at: Lexical, segment: Seq<char>) -> Lexical {
    if segment.len() == 0 || segment == dot() {
        at
    } else if segment == dotdot() {
        if at.names.len() > 0 {
            Lexical { names: at.names.drop_last(), ..at }
        } else if at.absolute {
            at
        } else {
            Lexical { ups: at.ups + 1, ..at }
        }
    } else {
        Lexical { names: at.names.push(segment), ..at }
    }
}

/// All of `segments` in turn, starting at `from`.
pub open spec fn walk(from: Lexical, segments: Seq<Seq<char>>) -> Lexical
    decreases segments.len(),
{
    if segments.len() == 0 {
        from
    } else {
        enter(walk(from, segments.drop_last()), segments.last())
    }
}

/// The normal form of `path`.
pub open spec fn clean(path: Seq<char>) -> Lexical {
    walk(origin(is_absolute(path)), segments(path))
}

/// `relative` seen from `base`: an absolute `relative` replaces `base`,
/// any other is appended to it, after a separator where `base` does not end
/// with one.
pub open spec fn joined(base: Seq<char>, relative: Seq<char>) -> Seq<char> {
    if is_absolute(relative) {
        relative
    } else if base.len() == 0 || base.last() == sep() {
        base + relative
    } else {
        base + seq![sep()] + relative
    }
}

/// `parts` written one after the other with a separator between neighbours.
pub open spec fn glue(parts: Seq<Seq<char>>) -> Seq<char>
    decreases parts.len(),
{
    if parts.len() == 0 {
        Seq::empty()
    } else if parts.len() == 1 {
        parts[0]
    } else {
        glue(parts.drop_last()) + seq![sep()] + parts.last()
    }
}

/// What a normal form is made of, from left to right: one `..` for each
/// level it climbs, then its names.
pub open spec fn parts(p: Lexical) -> Seq<Seq<char>> {
    Seq::new(p.ups, |i: int| dotdot()) + p.names
}

/// The text of a normal form. The file system's root is `/`, and the
/// relative path that leads nowhere is `.`.
pub open spec fn render(p: Lexical) -> Seq<char> {
    if p.absolute {
        seq![sep()] + glue(parts(p))
    } else if parts(p).len() == 0 {
        dot()
    } else {
        glue(parts(p))
    }
}

/// `p` is `base` or lies below it.
pub open spec fn within(base: Lexical, p: Lexical) -> bool {
    &&& p.absolute == base.absolute
    &&& p.ups == base.ups
    &&& base.names.is_prefix_of(p.names)
}

/// The directory that holds `p`, for a `p` that has a name to take back.
pub open spec fn parent(p: Lexical) -> Lexical {
    Lexical { names: p.names.drop_last(), ..p }
}

/// Where the entry path `relative` leads when the tree stands at `root`.
pub open spec fn target(root: Seq<char>, relative: Seq<char>) -> Lexical {
    clean(joined(root, relative))
}

/// The policy's verdict on an entry path: it is not empty and does not lead
/// out of `root`.
pub open spec fn admits(root: Seq<char>, relative: Seq<char>) -> bool {
    relative.len() > 0 && within(clean(root), target(root, relative))
}

/// The entry path leads to a place strictly below `root`, not to `root`
/// itself.
pub open spec fn below(root: Seq<char>, relative: Seq<char>) -> bool {
    target(root, relative).names.len() > clean(root).names.len()
}

/// The policy as a function: the text of the place that `relative` leads to,
/// or the reason for which it is refused. `index` is the entry's position in
/// its tree, which the error for an empty path reports.
pub open spec fn resolution(root: Seq<char>, relative: Seq<char>, index: nat) -> Result<
    Seq<char>,
    ErrorView,
> {
    if relative.len() == 0 {
        Err(ErrorView::EmptyEntryName(index))
    } else if !within(clean(root), target(root, relative)) {
        Err(ErrorView::EntryOutsideDirectory(relative))
    } else {
        Ok(render(target(root, relative)))
    }
}

/// `String::push` of the standard library appends one character to the string
/// and leaves the characters before it as they were.
pub assume_specification[ String::push ](s: &mut String, c: char)
    ensures
        final(s)@ == old(s)@.push(c),
;

/// A normal form under construction.
struct Trail {
    absolute: bool,
    ups: usize,
    names: Vec<Vec<char>>,
}

impl View for Trail {
    type V = Lexical;

    closed spec fn view(&self) -> Lexical {
        Lexical {
            absolute: self.absolute,
            ups: self.ups as nat,
            names: self.names@.map_values(|name: Vec<char>| name@),
        }
    }
}

/// A located entry: the text of its place, and of the directory that holds
/// it where the place lies strictly below the root.
pub(crate) struct Place {
    pub path: String,
    pub parent: Option<String>,
}

proof fn lemma_segments_nonempty(path: Seq<char>)
    ensures
        segments(path).len() > 0,
    decreases path.len(),
{
    if path.len() > 0 {
        lemma_segments_nonempty(path.drop_last());
    }
}

proof fn lemma_glue_take(parts: Seq<Seq<char>>, k: int)
    requires
        0 <= k < parts.len(),
    ensures
        glue(parts.take(k + 1)) == if k == 0 {
            parts[0]
        } else {
            glue(parts.take(k)) + seq![sep()] + parts[k]
        },
{
    assert(parts.take(k + 1).drop_last() =~= parts.take(k));
}

/// The characters of `s`.
fn letters(s: &str) -> (v: Vec<char>)
    ensures
        v@ == s@,
{
    let mut v: Vec<char> = Vec::new();
    for c in it: s.chars()
        invariant
            v@ == it.seq().take(it.index() as int),
            it.seq() == s@,
    {
        v.push(c);
    }
    v
}

fn append(out: &mut String, name: &Vec<char>)
    ensures
        final(out)@ == old(out)@ + name@,
{
    let mut i: usize = 0;
    while i < name.len()
        invariant
            i <= name.len(),
            out@ == old(out)@ + name@.take(i as int),
        decreases name.len() - i,
    {
        out.push(name[i]);
        i += 1;
    }
    assert(name@.take(name.len() as int) =~= name@);
}

fn same(a: &Vec<char>, b: &Vec<char>) -> (r: bool)
    ensures
        r == (a@ == b@),
{
    if a.len() != b.len() {
        return false;
    }
    let mut i: usize = 0;
    while i < a.len()
        invariant
            i <= a.len(),
            a.len() == b.len(),
            a@.take(i as int) == b@.take(i as int),
        decreases a.len() - i,
    {
        if a[i] != b[i] {
            return false;
        }
        assert(a@.take(i + 1) =~= a@.take(i as int).push(a@[i as int]));
        assert(b@.take(i + 1) =~= b@.take(i as int).push(b@[i as int]));
        i += 1;
    }
    assert(a@.take(a.len() as int) =~= a@);
    assert(b@.take(b.len() as int) =~= b@);
    true
}

fn step_into(trail: &mut Trail, segment: Vec<char>)
    requires
        old(trail).ups + segment.len() <= usize::MAX,
    ensures
        final(trail)@ == enter(old(trail)@, segment@),
        final(trail).ups <= old(trail).ups + segment.len(),
{
    let n = segment.len();
    if n == 0 || (n == 1 && segment[0] == '.') {
        assert(n == 1 ==> segment@ =~= dot());
    } else if n == 2 && segment[0] == '.' && segment[1] == '.' {
        assert(segment@ =~= dotdot());
        if trail.names.len() > 0 {
            trail.names.pop();
            assert(trail@.names =~= old(trail)@.names.drop_last());
        } else if !trail.absolute {
            trail.ups = trail.ups + 1;
        }
    } else {
        assert(segment@ != dot()) by {
            if segment@ == dot() {
                assert(dot().len() == 1);
                assert(dot()[0] == '.');
            }
        }
        assert(segment@ != dotdot()) by {
            if segment@ == dotdot() {
                assert(dotdot().len() == 2);
                assert(dotdot()[0] == '.');
                assert(dotdot()[1] == '.');
            }
        }
        trail.names.push(segment);
        assert(trail@.names =~= old(trail)@.names.push(segment@));
    }
}

fn tidy(path: &Vec<char>) -> (trail: Trail)
    ensures
        trail@ == clean(path@),
{
    let absolute = path.len() > 0 && path[0] == '/';
    let mut trail = Trail { absolute, ups: 0, names: Vec::new() };
    let mut current: Vec<char> = Vec::new();
    let mut i: usize = 0;
    let ghost start = origin(is_absolute(path@));
    assert(trail@.names =~= start.names);
    assert(path@.take(0) =~= Seq::<char>::empty());
    assert(segments(path@.take(0)).drop_last() =~= Seq::<Seq<char>>::empty());
    while i < path.len()
        invariant
            i <= path.len(),
            start == origin(is_absolute(path@)),
            segments(path@.take(i as int)).len() > 0,
            trail@ == walk(start, segments(path@.take(i as int)).drop_last()),
            current@ == segments(path@.take(i as int)).last(),
            trail.ups + current.len() <= i,
        decreases path.len() - i,
    {
        let c = path[i];
        let ghost before = segments(path@.take(i as int));
        proof {
            assert(path@.take(i + 1).drop_last() =~= path@.take(i as int));
            assert(path@.take(i + 1).last() == c);
            lemma_segments_nonempty(path@.take(i + 1));
        }
        if c == '/' {
            step_into(&mut trail, current);
            current = Vec::new();
            proof {
                let after = segments(path@.take(i + 1));
                assert(after == before.push(Seq::<char>::empty()));
                assert(after.drop_last() =~= before);
            }
        } else {
            current.push(c);
            proof {
                let after = segments(path@.take(i + 1));
                assert(after == before.drop_last().push(before.last().push(c)));
                assert(after.drop_last() =~= before.drop_last());
            }
        }
        i += 1;
    }
    assert(path@.take(path.len() as int) =~= path@);
    step_into(&mut trail, current);
    trail
}

fn write_out(trail: &Trail) -> (out: String)
    ensures
        out@ == render(trail@),
{
    let mut out = String::new();
    if trail.absolute {
        out.push('/');
    } else if trail.ups == 0 && trail.names.len() == 0 {
        out.push('.');
        assert(parts(trail@).len() == 0);
        assert(out@ =~= dot());
        return out;
    }
    let ghost lead = out@;
    let ghost all = parts(trail@);
    assert(all.take(0) =~= Seq::<Seq<char>>::empty());
    assert(out@ =~= lead + glue(all.take(0)));
    let mut k: usize = 0;
    while k < trail.ups
        invariant
            k <= trail.ups,
            all == parts(trail@),
            out@ == lead + glue(all.take(k as int)),
        decreases trail.ups - k,
    {
        proof {
            lemma_glue_take(all, k as int);
            assert(all[k as int] == dotdot());
        }
        let ghost was = out@;
        if k > 0 {
            out.push('/');
        }
        out.push('.');
        out.push('.');
        assert(out@ =~= lead + glue(all.take(k + 1))) by {
            if k > 0 {
                assert(out@ =~= was + seq![sep()] + dotdot());
            } else {
                assert(glue(all.take(0)) =~= Seq::<char>::empty());
                assert(out@ =~= was + dotdot());
            }
        }
        k += 1;
    }
    let mut j: usize = 0;
    while j < trail.names.len()
        invariant
            j <= trail.names.len(),
            all == parts(trail@),
            out@ == lead + glue(all.take(trail.ups + j)),
        decreases trail.names.len() - j,
    {
        proof {
            lemma_glue_take(all, trail.ups + j);
            assert(all[trail.ups + j] == trail.names[j as int]@);
        }
        let ghost was = out@;
        if trail.ups > 0 || j > 0 {
            out.push('/');
        }
        append(&mut out, &trail.names[j]);
        assert(out@ =~= lead + glue(all.take(trail.ups + j + 1))) by {
            if trail.ups + j > 0 {
                assert(out@ =~= was + seq![sep()] + trail.names[j as int]@);
            } else {
                assert(glue(all.take(0)) =~= Seq::<char>::empty());
                assert(out@ =~= was + trail.names[j as int]@);
            }
        }
        j += 1;
    }
    assert(all.take(all.len() as int) =~= all);
    assert(!trail.absolute ==> all.len() > 0);
    out
}

fn starts_with(base: &Trail, trail: &Trail) -> (r: bool)
    ensures
        r == within(base@, trail@),
{
    if base.absolute != trail.absolute || base.ups != trail.ups || base.names.len()
        > trail.names.len() {
        return false;
    }
    let mut i: usize = 0;
    while i < base.names.len()
        invariant
            i <= base.names.len(),
            base.names.len() <= trail.names.len(),
            forall|k: int| 0 <= k < i ==> base@.names[k] == trail@.names[k],
        decreases base.names.len() - i,
    {
        if !same(&base.names[i], &trail.names[i]) {
            assert(base@.names[i as int] != trail@.names[i as int]);
            return false;
        }
        i += 1;
    }
    assert(base@.names =~= trail@.names.subrange(0, base@.names.len() as int));
    true
}

fn glued(base: &Vec<char>, relative: &Vec<char>) -> (whole: Vec<char>)
    ensures
        whole@ == joined(base@, relative@),
{
    let mut whole: Vec<char> = Vec::new();
    if !(relative.len() > 0 && relative[0] == '/') {
        let mut i: usize = 0;
        while i < base.len()
            invariant
                i <= base.len(),
                whole@ == base@.take(i as int),
            decreases base.len() - i,
        {
            whole.push(base[i]);
            i += 1;
        }
        assert(base@.take(base.len() as int) =~= base@);
        if base.len() > 0 && base[base.len() - 1] != '/' {
            whole.push('/');
        }
    }
    let ghost lead = whole@;
    let mut j: usize = 0;
    while j < relative.len()
        invariant
            j <= relative.len(),
            whole@ == lead + relative@.take(j as int),
        decreases relative.len() - j,
    {
        whole.push(relative[j]);
        j += 1;
    }
    assert(relative@.take(relative.len() as int) =~= relative@);
    assert(whole@ =~= joined(base@, relative@));
    whole
}

/// Locates the entry path `relative` in the tree at `root`.
pub(crate) fn locate(root: &str, relative: &str) -> (r: Option<Place>)
    ensures
        r is Some <==> admits(root@, relative@),
        r matches Some(place) ==> {
            &&& place.path@ == render(target(root@, relative@))
            &&& place.parent is Some <==> below(root@, relative@)
            &&& place.parent matches Some(dir) ==> dir@ == render(
                parent(target(root@, relative@)),
            )
        },
{
    let root_letters = letters(root);
    let relative_letters = letters(relative);
    if relative_letters.len() == 0 {
        return None;
    }
    let base = tidy(&root_letters);
    let whole = glued(&root_letters, &relative_letters);
    let mut trail = tidy(&whole);
    if !starts_with(&base, &trail) {
        return None;
    }
    let path = write_out(&trail);
    if trail.names.len() > base.names.len() {
        trail.names.pop();
        assert(trail@ == parent(target(root@, relative@))) by {
            assert(trail@.names =~= target(root@, relative@).names.drop_last());
        }
        let dir = write_out(&trail);
        Some(Place { path, parent: Some(dir) })
    } else {
        Some(Place { path, parent: None })
    }
}

/// Tells whether `path` is absolute.
pub fn absolute(path: &str) -> (r: bool)
    ensures
        r == is_absolute(path@),
{
    let v = letters(path);
    v.len() > 0 && v[0] == '/'
}

/// Joins `relative` to `base`, as [`joined`] says.
pub fn join(base: &str, relative: &str) -> (r: String)
    ensures
        r@ == joined(base@, relative@),
{
    let whole = glued(&letters(base), &letters(relative));
    let mut out = String::new();
    append(&mut out, &whole);
    out
}

/// Brings `path` into its normal form, without looking at the disk.
pub fn normalize(path: &str) -> (r: String)
    ensures
        r@ == render(clean(path@)),
{
    let trail = tidy(&letters(path));
    write_out(&trail)
}

/// Applies the path policy to the entry path `relative` of a tree at `root`.
///
/// Returns the place that the path leads to, in normal form. An empty path
/// is refused with `EmptyEntryName(index)`, and a path that leads out of
/// `root` with `EntryOutsideDirectory`, which carries the path as the caller
/// wrote it.
pub fn resolve(root: &str, relative: &str, index: usize) -> (r: Result<String, Error>)
    ensures
        match r {
            Ok(path) => resolution(root@, relative@, index as nat) == Ok::<Seq<char>, ErrorView>(
                path@,
            ),
            Err(e) => resolution(root@, relative@, index as nat) == Err::<Seq<char>, ErrorView>(
                e@,
            ),
        },
{
    match locate(root, relative) {
        Some(place) => Ok(place.path),
        None => {
            if relative.is_empty() {
                Err(Error::EmptyEntryName(index))
            } else {
                Err(Error::EntryOutsideDirectory(relative.to_owned()))
            }
        },
    }
}

} // verus!
