//! Paths as lists of components, and the rules that keep an archive entry
//! inside the directory it is installed into.
//!
//! A path is the sequence of its components, outermost first. The name that
//! an archive stores for an entry is text from outside: it may use either
//! separator, climb with `..`, name a drive, or hold empty components.
//! `sanitize_zip_path` keeps of it only what names a place below the
//! directory it is joined onto.

use vstd::prelude::*;
use crate::text::{chars_of, clone_strings, eq_ignoring_ascii_case, piece_of, same_ignoring_ascii_case};

verus! {

/// Either of the two characters that separate components in a stored name.
pub open spec fn is_separator(c: char) -> bool {
    c == '/' || c == '\\'
}

/// The pieces of `name` between its separators, empty ones included.
pub open spec fn split_components(name: Seq<char>) -> Seq<Seq<char>>
    decreases name.len(),
{
    if name.len() == 0 {
        seq![Seq::<char>::empty()]
    } else {
        let before = split_components(name.drop_last());
        if is_separator(name.last()) {
            before.push(Seq::<char>::empty())
        } else {
            before.drop_last().push(before.last().push(name.last()))
        }
    }
}

/// The component that refers to the parent directory.
pub open spec fn is_parent_marker(component: Seq<char>) -> bool {
    component == seq!['.', '.']
}

/// The component holds the character that follows a drive letter.
pub open spec fn has_drive_marker(component: Seq<char>) -> bool {
    component.contains(':')
}

/// A component that may be joined onto a directory: not empty, not the
/// parent marker, without drive marker.
pub open spec fn is_kept(component: Seq<char>) -> bool {
    component.len() > 0 && !is_parent_marker(component) && !has_drive_marker(component)
}

/// Those of `components` that are kept, in order.
pub open spec fn kept_of(components: Seq<Seq<char>>) -> Seq<Seq<char>> {
    components.filter(|c: Seq<char>| is_kept(c))
}

/// The components of `name` that are kept, in order.
pub open spec fn kept_components(name: Seq<char>) -> Seq<Seq<char>> {
    kept_of(split_components(name))
}

/// `base` with the kept components of `name` joined onto it.
pub open spec fn sanitized(base: Seq<Seq<char>>, name: Seq<char>) -> Seq<Seq<char>> {
    base + kept_components(name)
}

/// One of the components is `reserved`, but for the case of ASCII letters.
pub open spec fn touches_reserved(path: Seq<Seq<char>>, reserved: Seq<char>) -> bool {
    exists|i: int| 0 <= i < path.len() && same_ignoring_ascii_case(#[trigger] path[i], reserved)
}

/// A component without separator that is kept.
pub open spec fn is_plain_component(component: Seq<char>) -> bool {
    &&& is_kept(component)
    &&& forall|i: int| 0 <= i < component.len() ==> !is_separator(#[trigger] component[i])
}

/// `path` lies below `base`: it begins with the components of `base`, and
/// each component after them is plain.
pub open spec fn is_descendant(path: Seq<Seq<char>>, base: Seq<Seq<char>>) -> bool {
    &&& base.len() <= path.len()
    &&& path.take(base.len() as int) == base
    &&& forall|i: int| base.len() <= i < path.len() ==> is_plain_component(#[trigger] path[i])
}

/// `base` with `name` as one more component.
pub fn child(base: &Vec<String>, name: &str) -> (path: Vec<String>)
    ensures
        path.deep_view() == base.deep_view().push(name@),
{
    let mut path = clone_strings(base);
    path.push(name.to_owned());
    assert(path.deep_view() =~= base.deep_view().push(name@));
    path
}

fn keeps_piece(chars: &Vec<char>, from: usize, to: usize) -> (r: bool)
    requires
        from <= to <= chars@.len(),
    ensures
        r == is_kept(chars@.subrange(from as int, to as int)),
{
    let ghost piece = chars@.subrange(from as int, to as int);
    if from == to {
        return false;
    }
    if to - from == 2 && chars[from] == '.' && chars[from + 1] == '.' {
        assert(piece =~= seq!['.', '.']);
        return false;
    }
    assert(!is_parent_marker(piece)) by {
        if is_parent_marker(piece) {
            assert(piece[0] == '.' && piece[1] == '.');
            assert(piece.len() == 2);
        }
    }
    let mut i: usize = from;
    while i < to
        invariant
            from <= i <= to <= chars@.len(),
            piece == chars@.subrange(from as int, to as int),
            forall|j: int| 0 <= j < i - from ==> piece[j] != ':',
        decreases to - i,
    {
        if chars[i] == ':' {
            assert(piece[i - from] == ':');
            return false;
        }
        i = i + 1;
    }
    true
}

/// Joins onto `base` the components of `name` that can be trusted: `name`
/// is split at `/` and `\`, and every component that is empty, is `..` or
/// holds a `:` is dropped.
pub fn sanitize_zip_path(base: &Vec<String>, name: &str) -> (path: Vec<String>)
    ensures
        path.deep_view() == sanitized(base.deep_view(), name@),
        is_descendant(path.deep_view(), base.deep_view()),
{
    let mut path = clone_strings(base);
    let chars = chars_of(name);
    let n: usize = chars.len();
    // The component being read begins at `start`; `done` are those before it.
    let mut start: usize = 0;
    let mut i: usize = 0;
    let ghost mut done: Seq<Seq<char>> = Seq::empty();
    proof {
        assert(chars@.take(0) == Seq::<char>::empty());
        assert(done.push(chars@.subrange(0, 0)) == seq![Seq::<char>::empty()]);
        lemma_kept_of_empty();
    }
    while i < n
        invariant
            n == chars@.len(),
            chars@ == name@,
            start <= i <= n,
            split_components(chars@.take(i as int)) == done.push(
                chars@.subrange(start as int, i as int),
            ),
            path.deep_view() == base.deep_view() + kept_of(done),
        decreases n - i,
    {
        let c = chars[i];
        let ghost cur = chars@.subrange(start as int, i as int);
        proof {
            assert(chars@.take(i + 1).drop_last() == chars@.take(i as int));
            assert(done.push(cur).drop_last() == done);
        }
        if c == '/' || c == '\\' {
            if keeps_piece(&chars, start, i) {
                let piece = piece_of(name, start, i);
                let ghost before = path.deep_view();
                path.push(piece);
                assert(path.deep_view() == before.push(cur));
            }
            proof {
                lemma_kept_of_push(done, cur);
                done = done.push(cur);
                assert(chars@.subrange(i + 1, i + 1) == Seq::<char>::empty());
            }
            start = i + 1;
        } else {
            assert(cur.push(c) == chars@.subrange(start as int, i + 1));
        }
        i = i + 1;
    }
    let ghost last = chars@.subrange(start as int, n as int);
    if keeps_piece(&chars, start, n) {
        let piece = piece_of(name, start, n);
        let ghost before = path.deep_view();
        path.push(piece);
        assert(path.deep_view() == before.push(last));
    }
    proof {
        assert(chars@.take(n as int) == chars@);
        lemma_kept_of_push(done, last);
        lemma_sanitized_is_descendant(base.deep_view(), name@);
    }
    path
}

/// Whether one of the components of `path` is `reserved`, but for the case
/// of ASCII letters.
pub fn is_reserved(path: &Vec<String>, reserved: &str) -> (r: bool)
    ensures
        r == touches_reserved(path.deep_view(), reserved@),
{
    let wanted = chars_of(reserved);
    let mut i: usize = 0;
    while i < path.len()
        invariant
            i <= path.len(),
            wanted@ == reserved@,
            forall|j: int|
                0 <= j < i ==> !same_ignoring_ascii_case(#[trigger] path.deep_view()[j], reserved@),
        decreases path.len() - i,
    {
        let component = chars_of(path[i].as_str());
        assert(path.deep_view()[i as int] == component@);
        if eq_ignoring_ascii_case(&component, &wanted) {
            return true;
        }
        i = i + 1;
    }
    false
}

proof fn lemma_kept_of_empty()
    ensures
        kept_of(Seq::empty()) == Seq::<Seq<char>>::empty(),
{
    reveal(Seq::filter);
}

proof fn lemma_kept_of_push(done: Seq<Seq<char>>, next: Seq<char>)
    ensures
        kept_of(done.push(next)) == if is_kept(next) {
            kept_of(done).push(next)
        } else {
            kept_of(done)
        },
        forall|base: Seq<Seq<char>>| #[trigger]
            (base + kept_of(done).push(next)) == (base + kept_of(done)).push(next),
{
    reveal(Seq::filter);
    assert(done.push(next).drop_last() == done);
    assert forall|base: Seq<Seq<char>>| #[trigger]
        (base + kept_of(done).push(next)) == (base + kept_of(done)).push(next) by {
        assert((base + kept_of(done).push(next)) =~= (base + kept_of(done)).push(next));
    }
}

/// No piece between separators holds a separator.
pub proof fn lemma_split_has_no_separator(name: Seq<char>)
    ensures
        split_components(name).len() >= 1,
        forall|k: int, i: int|
            0 <= k < split_components(name).len() && 0 <= i < split_components(name)[k].len()
                ==> !is_separator(#[trigger] split_components(name)[k][i]),
    decreases name.len(),
{
    if name.len() > 0 {
        lemma_split_has_no_separator(name.drop_last());
        let before = split_components(name.drop_last());
        let all = split_components(name);
        assert forall|k: int, i: int| 0 <= k < all.len() && 0 <= i < all[k].len() implies !is_separator(
            #[trigger] all[k][i],
        ) by {
            if is_separator(name.last()) {
                if k < before.len() {
                    assert(all[k] == before[k]);
                }
            } else {
                if k < before.len() - 1 {
                    assert(all[k] == before[k]);
                } else {
                    if i < before.last().len() {
                        assert(all[k][i] == before.last()[i]);
                    }
                }
            }
        }
    }
}

/// Whatever the stored name holds, the sanitized path lies below the
/// directory it was joined onto: it begins with that directory's
/// components, and none of the components after them is empty, is `..`,
/// holds a `:` or holds a separator.
pub proof fn lemma_sanitized_is_descendant(base: Seq<Seq<char>>, name: Seq<char>)
    ensures
        is_descendant(sanitized(base, name), base),
{
    let keep = |c: Seq<char>| is_kept(c);
    let pieces = split_components(name);
    let kept = kept_of(pieces);
    let path = sanitized(base, name);
    lemma_filtered_members(pieces, keep);
    lemma_split_has_no_separator(name);
    assert(path.take(base.len() as int) == base);
    assert forall|i: int| base.len() <= i < path.len() implies is_plain_component(
        #[trigger] path[i],
    ) by {
        let c = kept[i - base.len()];
        assert(path[i] == c);
        assert(keep(c));
        assert(pieces.contains(c));
        let k = choose|k: int| 0 <= k < pieces.len() && pieces[k] == c;
        assert forall|j: int| 0 <= j < c.len() implies !is_separator(#[trigger] c[j]) by {
            assert(!is_separator(pieces[k][j]));
        }
    }
}

/// A name whose components are all plain goes through unchanged: the
/// sanitized path is the directory followed by those components.
pub proof fn lemma_plain_name_is_kept_whole(base: Seq<Seq<char>>, name: Seq<char>)
    requires
        forall|k: int|
            0 <= k < split_components(name).len() ==> is_kept(#[trigger] split_components(name)[k]),
    ensures
        sanitized(base, name) == base + split_components(name),
{
    let keep = |c: Seq<char>| is_kept(c);
    lemma_filter_all(split_components(name), keep);
}

proof fn lemma_filtered_members(pieces: Seq<Seq<char>>, keep: spec_fn(Seq<char>) -> bool)
    ensures
        forall|i: int|
            0 <= i < pieces.filter(keep).len() ==> keep(#[trigger] pieces.filter(keep)[i])
                && pieces.contains(pieces.filter(keep)[i]),
    decreases pieces.len(),
{
    reveal(Seq::filter);
    if pieces.len() > 0 {
        let shorter = pieces.drop_last();
        lemma_filtered_members(shorter, keep);
        let out = pieces.filter(keep);
        assert forall|i: int| 0 <= i < out.len() implies keep(#[trigger] out[i])
            && pieces.contains(out[i]) by {
            if i < shorter.filter(keep).len() {
                let c = shorter.filter(keep)[i];
                assert(out[i] == c);
                let k = choose|k: int| 0 <= k < shorter.len() && shorter[k] == c;
                assert(pieces[k] == c);
            } else {
                assert(out[i] == pieces.last());
                assert(pieces[pieces.len() - 1] == pieces.last());
            }
        }
    }
}

proof fn lemma_filter_all(pieces: Seq<Seq<char>>, keep: spec_fn(Seq<char>) -> bool)
    requires
        forall|k: int| 0 <= k < pieces.len() ==> keep(#[trigger] pieces[k]),
    ensures
        pieces.filter(keep) == pieces,
    decreases pieces.len(),
{
    reveal(Seq::filter);
    if pieces.len() > 0 {
        assert forall|k: int| 0 <= k < pieces.drop_last().len() implies keep(
            #[trigger] pieces.drop_last()[k],
        ) by {
            assert(pieces.drop_last()[k] == pieces[k]);
        }
        lemma_filter_all(pieces.drop_last(), keep);
        assert(pieces.drop_last().push(pieces.last()) == pieces);
    }
}

} // verus!
