//! Facts about the normal form of paths: cleaning a path always ends in a
//! normal form, and writing a normal form out and cleaning it again gives
//! the normal form back. So the text that the path policy hands out says
//! exactly where it leads.

use crate::path::{
    clean, dot, dotdot, enter, glue, is_absolute, origin, parent, parts, render, resolution,
    segments, sep, target, walk, within, Lexical,
};
use vstd::prelude::*;

verus! {

/// A name proper: it is not empty, holds no separator, and is neither `.`
/// nor `..`.
pub open spec fn is_name(s: Seq<char>) -> bool {
    &&& s.len() > 0
    &&& !s.contains(sep())
    &&& s != dot()
    &&& s != dotdot()
}

/// A normal form: only a relative path climbs, and every name is a name
/// proper.
pub open spec fn is_normal(p: Lexical) -> bool {
    &&& p.absolute ==> p.ups == 0
    &&& forall|i: int| 0 <= i < p.names.len() ==> is_name(#[trigger] p.names[i])
}

/// No segment in the list holds a separator.
pub open spec fn plain(list: Seq<Seq<char>>) -> bool {
    forall|i: int| 0 <= i < list.len() ==> !(#[trigger] list[i]).contains(sep())
}

proof fn lemma_dots_are_plain()
    ensures
        !dot().contains(sep()),
        !dotdot().contains(sep()),
        dot().len() == 1,
        dotdot().len() == 2,
        dot() != dotdot(),
{
    assert forall|i: int| 0 <= i < dot().len() implies dot()[i] != sep() by {}
    assert forall|i: int| 0 <= i < dotdot().len() implies dotdot()[i] != sep() by {}
}

/// A path always has a segment, and none of its segments holds a separator.
pub proof fn lemma_segments_plain(path: Seq<char>)
    ensures
        segments(path).len() > 0,
        plain(segments(path)),
    decreases path.len(),
{
    if path.len() > 0 {
        let before = segments(path.drop_last());
        lemma_segments_plain(path.drop_last());
        if path.last() == sep() {
            assert forall|i: int| 0 <= i < segments(path).len() implies !(
            #[trigger] segments(path)[i]).contains(sep()) by {
                if i < before.len() {
                    assert(segments(path)[i] == before[i]);
                }
            }
        } else {
            let grown = before.last().push(path.last());
            assert(!grown.contains(sep())) by {
                if grown.contains(sep()) {
                    let k = choose|k: int| 0 <= k < grown.len() && grown[k] == sep();
                    if k < before.last().len() {
                        assert(before.last()[k] == sep());
                        assert(before.last().contains(sep()));
                    }
                }
            }
            assert forall|i: int| 0 <= i < segments(path).len() implies !(
            #[trigger] segments(path)[i]).contains(sep()) by {
                if i < before.len() - 1 {
                    assert(segments(path)[i] == before[i]);
                }
            }
        }
    }
}

/// One segment further from a normal form is a normal form again.
pub proof fn lemma_enter_normal(at: Lexical, segment: Seq<char>)
    requires
        is_normal(at),
        !segment.contains(sep()),
    ensures
        is_normal(enter(at, segment)),
{
    let after = enter(at, segment);
    assert forall|i: int| 0 <= i < after.names.len() implies is_name(
        #[trigger] after.names[i],
    ) by {
        if i < at.names.len() {
            assert(after.names[i] == at.names[i]);
        }
    }
}

/// Any number of segments further from a normal form is a normal form.
pub proof fn lemma_walk_normal(from: Lexical, list: Seq<Seq<char>>)
    requires
        is_normal(from),
        plain(list),
    ensures
        is_normal(walk(from, list)),
    decreases list.len(),
{
    if list.len() > 0 {
        lemma_walk_normal(from, list.drop_last());
        lemma_enter_normal(walk(from, list.drop_last()), list.last());
    }
}

/// Cleaning a path ends in a normal form, whatever the path.
pub proof fn lemma_clean_normal(path: Seq<char>)
    ensures
        is_normal(clean(path)),
{
    lemma_segments_plain(path);
    lemma_walk_normal(origin(is_absolute(path)), segments(path));
}

/// The directory that holds a normal form is a normal form.
pub proof fn lemma_parent_normal(p: Lexical)
    requires
        is_normal(p),
        p.names.len() > 0,
    ensures
        is_normal(parent(p)),
{
    assert forall|i: int| 0 <= i < parent(p).names.len() implies is_name(
        #[trigger] parent(p).names[i],
    ) by {
        assert(parent(p).names[i] == p.names[i]);
    }
}

/// The segments of two paths with a separator between them are the segments
/// of the first followed by those of the second.
pub proof fn lemma_segments_join(a: Seq<char>, b: Seq<char>)
    ensures
        segments(a + seq![sep()] + b) == segments(a) + segments(b),
    decreases b.len(),
{
    let whole = a + seq![sep()] + b;
    if b.len() == 0 {
        assert(whole.drop_last() =~= a);
        assert(segments(b) =~= seq![Seq::<char>::empty()]);
        assert(segments(whole) =~= segments(a) + segments(b));
    } else {
        lemma_segments_join(a, b.drop_last());
        lemma_segments_plain(b.drop_last());
        assert(whole.drop_last() =~= a + seq![sep()] + b.drop_last());
        assert(whole.last() == b.last());
        let before = segments(whole.drop_last());
        assert(before == segments(a) + segments(b.drop_last()));
        assert(before.last() == segments(b.drop_last()).last());
        assert(before.drop_last() =~= segments(a) + segments(b.drop_last()).drop_last());
        assert(segments(whole) =~= segments(a) + segments(b));
    }
}

/// A path without a separator is its own single segment.
pub proof fn lemma_segments_single(s: Seq<char>)
    requires
        !s.contains(sep()),
    ensures
        segments(s) == seq![s],
    decreases s.len(),
{
    if s.len() == 0 {
        assert(s =~= Seq::<char>::empty());
    } else {
        assert(s.last() != sep()) by {
            assert(s[s.len() - 1] == s.last());
        }
        assert(!s.drop_last().contains(sep())) by {
            if s.drop_last().contains(sep()) {
                let k = choose|k: int| 0 <= k < s.drop_last().len() && s.drop_last()[k] == sep();
                assert(s[k] == sep());
            }
        }
        lemma_segments_single(s.drop_last());
        assert(s.drop_last().push(s.last()) =~= s);
        assert(segments(s) =~= seq![s]);
    }
}

/// Parts that hold no separator, glued together, come apart again as they
/// were.
pub proof fn lemma_segments_glue(list: Seq<Seq<char>>)
    requires
        list.len() > 0,
        plain(list),
    ensures
        segments(glue(list)) == list,
    decreases list.len(),
{
    if list.len() == 1 {
        lemma_segments_single(list[0]);
        assert(list =~= seq![list[0]]);
    } else {
        assert(plain(list.drop_last())) by {
            assert forall|i: int| 0 <= i < list.drop_last().len() implies !(
            #[trigger] list.drop_last()[i]).contains(sep()) by {
                assert(list.drop_last()[i] == list[i]);
            }
        }
        lemma_segments_glue(list.drop_last());
        lemma_segments_join(glue(list.drop_last()), list.last());
        lemma_segments_single(list.last());
        assert(list.drop_last() + seq![list.last()] =~= list);
    }
}

/// The glued text of a list that starts with a part that is not empty
/// starts as that part does.
pub proof fn lemma_glue_first(list: Seq<Seq<char>>)
    requires
        list.len() > 0,
        list[0].len() > 0,
    ensures
        glue(list).len() > 0,
        glue(list)[0] == list[0][0],
    decreases list.len(),
{
    if list.len() > 1 {
        assert(list.drop_last()[0] == list[0]);
        lemma_glue_first(list.drop_last());
    }
}

/// Walking a single segment is entering it.
pub proof fn lemma_walk_one(from: Lexical, segment: Seq<char>)
    ensures
        walk(from, seq![segment]) == enter(from, segment),
{
    reveal_with_fuel(walk, 2);
    assert(seq![segment].drop_last() =~= Seq::<Seq<char>>::empty());
}

/// Walking a list is walking its first part and going on from there with
/// the rest.
pub proof fn lemma_walk_concat(from: Lexical, a: Seq<Seq<char>>, b: Seq<Seq<char>>)
    ensures
        walk(from, a + b) == walk(walk(from, a), b),
    decreases b.len(),
{
    if b.len() == 0 {
        assert(a + b =~= a);
    } else {
        lemma_walk_concat(from, a, b.drop_last());
        assert((a + b).drop_last() =~= a + b.drop_last());
        assert((a + b).last() == b.last());
    }
}

/// From a relative start with nothing to take back, each `..` climbs one
/// level.
pub proof fn lemma_walk_ups(k: nat)
    ensures
        walk(origin(false), Seq::new(k, |i: int| dotdot())) == (Lexical {
            absolute: false,
            ups: k,
            names: Seq::empty(),
        }),
    decreases k,
{
    let list = Seq::new(k, |i: int| dotdot());
    lemma_dots_are_plain();
    if k > 0 {
        lemma_walk_ups((k - 1) as nat);
        assert(list.drop_last() =~= Seq::new((k - 1) as nat, |i: int| dotdot()));
        assert(list.last() == dotdot());
    }
}

/// Names proper are each entered as they stand.
pub proof fn lemma_walk_names(from: Lexical, names: Seq<Seq<char>>)
    requires
        forall|i: int| 0 <= i < names.len() ==> is_name(#[trigger] names[i]),
    ensures
        walk(from, names) == (Lexical { names: from.names + names, ..from }),
    decreases names.len(),
{
    if names.len() == 0 {
        assert(from.names + names =~= from.names);
    } else {
        assert forall|i: int| 0 <= i < names.drop_last().len() implies is_name(
            #[trigger] names.drop_last()[i],
        ) by {
            assert(names.drop_last()[i] == names[i]);
        }
        lemma_walk_names(from, names.drop_last());
        assert(is_name(names.last()));
        assert((from.names + names.drop_last()).push(names.last()) =~= from.names + names);
    }
}

/// Writing a normal form out and cleaning the text gives the normal form
/// back: the text of a normal form says exactly where it leads.
pub proof fn lemma_clean_render(p: Lexical)
    requires
        is_normal(p),
    ensures
        clean(render(p)) == p,
{
    lemma_dots_are_plain();
    let list = parts(p);
    let climbs = Seq::new(p.ups, |i: int| dotdot());
    assert(plain(list)) by {
        assert forall|i: int| 0 <= i < list.len() implies !(#[trigger] list[i]).contains(
            sep(),
        ) by {
            if i < p.ups {
                assert(list[i] == dotdot());
            } else {
                assert(list[i] == p.names[i - p.ups]);
                assert(is_name(p.names[i - p.ups]));
            }
        }
    }
    let none = Seq::<char>::empty();
    if p.absolute {
        assert(list =~= p.names);
        assert(is_absolute(render(p)));
        assert(segments(none) =~= seq![none]);
        if p.names.len() == 0 {
            assert(render(p) =~= seq![sep()]);
            assert(render(p).drop_last() =~= none);
            assert(segments(render(p)) =~= seq![none, none]);
            assert(seq![none, none].drop_last() =~= seq![none]);
            lemma_walk_one(origin(true), none);
            assert(walk(origin(true), seq![none, none]) == origin(true));
            assert(p.names =~= Seq::<Seq<char>>::empty());
        } else {
            assert(render(p) =~= none + seq![sep()] + glue(p.names));
            lemma_segments_join(none, glue(p.names));
            lemma_segments_glue(p.names);
            lemma_walk_concat(origin(true), seq![none], p.names);
            lemma_walk_one(origin(true), none);
            lemma_walk_names(origin(true), p.names);
            assert(origin(true).names + p.names =~= p.names);
        }
    } else if list.len() == 0 {
        assert(p.ups == 0);
        assert(p.names =~= Seq::<Seq<char>>::empty());
        lemma_segments_single(dot());
        lemma_walk_one(origin(false), dot());
        assert(!is_absolute(dot())) by {
            assert(dot()[0] == '.');
        }
    } else {
        assert(list[0].len() > 0) by {
            if p.ups > 0 {
                assert(list[0] == dotdot());
            } else {
                assert(list[0] == p.names[0]);
                assert(is_name(p.names[0]));
            }
        }
        lemma_glue_first(list);
        assert(!is_absolute(render(p))) by {
            assert(list[0][0] != sep()) by {
                if list[0][0] == sep() {
                    assert(list[0].contains(sep()));
                }
            }
        }
        lemma_segments_glue(list);
        lemma_walk_concat(origin(false), climbs, p.names);
        lemma_walk_ups(p.ups);
        lemma_walk_names(walk(origin(false), climbs), p.names);
        assert(Seq::<Seq<char>>::empty() + p.names =~= p.names);
    }
}

/// Cleaning is idempotent: the text of a cleaned path, cleaned again, is the
/// same text.
pub proof fn lemma_normalize_idempotent(path: Seq<char>)
    ensures
        render(clean(render(clean(path)))) == render(clean(path)),
{
    lemma_clean_normal(path);
    lemma_clean_render(clean(path));
}

/// The text of two normal forms is the same only where the normal forms
/// are.
pub proof fn lemma_render_injective(p: Lexical, q: Lexical)
    requires
        is_normal(p),
        is_normal(q),
        render(p) == render(q),
    ensures
        p == q,
{
    lemma_clean_render(p);
    lemma_clean_render(q);
}

/// A separator at the end of a path that is not empty changes nothing of
/// where the path leads.
pub proof fn lemma_clean_trailing_separator(path: Seq<char>)
    requires
        path.len() > 0,
    ensures
        clean(path + seq![sep()]) == clean(path),
{
    let longer = path + seq![sep()];
    assert(longer.drop_last() =~= path);
    assert(longer.last() == sep());
    assert(longer[0] == path[0]);
    assert(segments(longer).drop_last() =~= segments(path));
}

/// The path policy admits every path that is made of names proper: such a
/// path leads to the root's place followed by its names, whatever the root.
pub proof fn lemma_plain_path_admitted(root: Seq<char>, names: Seq<Seq<char>>)
    requires
        names.len() > 0,
        forall|i: int| 0 <= i < names.len() ==> is_name(#[trigger] names[i]),
    ensures
        target(root, glue(names)) == (Lexical {
            names: clean(root).names + names,
            ..clean(root)
        }),
        crate::path::admits(root, glue(names)),
{
    let relative = glue(names);
    assert(plain(names)) by {
        assert forall|i: int| 0 <= i < names.len() implies !(#[trigger] names[i]).contains(
            sep(),
        ) by {
            assert(is_name(names[i]));
        }
    }
    assert(is_name(names[0]));
    lemma_glue_first(names);
    assert(relative[0] != sep()) by {
        if names[0][0] == sep() {
            assert(names[0].contains(sep()));
        }
    }
    lemma_segments_glue(names);
    let whole = crate::path::joined(root, relative);
    let start = origin(is_absolute(root));
    if root.len() == 0 {
        assert(whole =~= relative);
        assert(segments(root) =~= seq![Seq::<char>::empty()]);
        lemma_walk_one(start, Seq::<char>::empty());
        lemma_walk_names(origin(false), names);
    } else if root.last() == sep() {
        let stem = root.drop_last();
        assert(root =~= stem + seq![sep()]);
        assert(whole =~= stem + seq![sep()] + relative);
        assert(is_absolute(whole) == is_absolute(root));
        lemma_segments_join(stem, relative);
        lemma_walk_concat(start, segments(stem), names);
        assert(segments(root).drop_last() =~= segments(stem));
        assert(segments(root).last() =~= Seq::<char>::empty());
        lemma_segments_plain(root);
        assert(clean(root) == walk(start, segments(stem)));
        lemma_walk_names(clean(root), names);
    } else {
        assert(whole =~= root + seq![sep()] + relative);
        assert(is_absolute(whole) == is_absolute(root));
        lemma_segments_join(root, relative);
        lemma_walk_concat(start, segments(root), names);
        lemma_walk_names(clean(root), names);
    }
    assert(clean(root).names =~= (clean(root).names + names).subrange(
        0,
        clean(root).names.len() as int,
    ));
}

/// Path containment: whatever place the path policy hands out, read as a
/// path of its own, lies within the root; and it is handed out for no path
/// that is empty or leads elsewhere.
pub proof fn lemma_resolution_within(root: Seq<char>, relative: Seq<char>, index: nat)
    ensures
        resolution(root, relative, index) matches Ok(place) ==> {
            &&& relative.len() > 0
            &&& clean(place) == target(root, relative)
            &&& within(clean(root), clean(place))
        },
        resolution(root, relative, index) is Err ==> relative.len() == 0 || !within(
            clean(root),
            target(root, relative),
        ),
{
    lemma_clean_normal(crate::path::joined(root, relative));
    lemma_clean_render(target(root, relative));
}

} // verus!
