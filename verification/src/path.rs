//! File paths, compared by what they lead through.

use vstd::prelude::*;

use crate::split::split;
use crate::text::{chars_of, slice_of};

verus! {

/// Whether a path begins at the root.
pub open spec fn is_absolute(path: Seq<char>) -> bool {
    path.len() > 0 && path[0] == '/'
}

/// The parts that a path leads through, out of what stands between its slashes: nothing, and a
/// single dot anywhere but at the very beginning, lead nowhere.
pub open spec fn kept_parts(parts: Seq<Seq<char>>) -> Seq<Seq<char>>
    decreases parts.len(),
{
    if parts.len() == 0 {
        Seq::empty()
    } else if parts.last().len() == 0 || (parts.last() == seq!['.'] && parts.len() > 1) {
        kept_parts(parts.drop_last())
    } else {
        kept_parts(parts.drop_last()).push(parts.last())
    }
}

/// The components of a path.
pub open spec fn components(path: Seq<char>) -> Seq<Seq<char>> {
    kept_parts(crate::split::split_at_each(path, '/'))
}

/// Whether two paths have the same components. They then lead to the same file, however many
/// slashes or single dots they are written with.
pub open spec fn same_path(a: Seq<char>, b: Seq<char>) -> bool {
    is_absolute(a) == is_absolute(b) && components(a) == components(b)
}

/// Whether two lists hold the same characters.
fn same_chars(a: &[char], b: &[char]) -> (r: bool)
    ensures
        r == (a@ == b@),
{
    if a.len() != b.len() {
        return false;
    }
    for i in 0..a.len()
        invariant
            a@.len() == b@.len(),
            forall|k: int| 0 <= k < i ==> a@[k] == b@[k],
    {
        if a[i] != b[i] {
            return false;
        }
    }
    assert(a@ =~= b@);
    true
}

/// Whether a part is a single dot.
fn is_dot(part: &[char]) -> (r: bool)
    ensures
        r == (part@ == seq!['.']),
{
    let r = part.len() == 1 && part[0] == '.';
    assert(r ==> part@ =~= seq!['.']);
    r
}

/// The components of a path.
pub fn components_of(path: &[char]) -> (r: Vec<Vec<char>>)
    ensures
        crate::split::char_seqs(r@) == components(path@),
{
    let parts = split(path, '/');
    let ghost all = crate::split::char_seqs(parts@);
    let mut kept: Vec<Vec<char>> = Vec::new();
    assert(all.take(0) =~= Seq::<Seq<char>>::empty());
    assert(crate::split::char_seqs(kept@) =~= Seq::<Seq<char>>::empty());
    for i in 0..parts.len()
        invariant
            all == crate::split::char_seqs(parts@),
            crate::split::char_seqs(kept@) == kept_parts(all.take(i as int)),
    {
        let part = &parts[i];
        assert(all.take(i + 1).drop_last() =~= all.take(i as int));
        assert(all.take(i + 1).last() == part@);
        if part.len() > 0 && !(is_dot(part) && i > 0) {
            let ghost before = crate::split::char_seqs(kept@);
            let copy = slice_of(part, 0, part.len());
            assert(copy@ =~= part@);
            kept.push(copy);
            assert(crate::split::char_seqs(kept@) =~= before.push(part@));
        }
    }
    assert(all.take(all.len() as int) =~= all);
    kept
}

/// Whether two paths have the same components.
pub fn is_same_path(a: &str, b: &str) -> (r: bool)
    ensures
        r == same_path(a@, b@),
{
    let a_chars = chars_of(a);
    let b_chars = chars_of(b);
    let a_absolute = a_chars.len() > 0 && a_chars[0] == '/';
    let b_absolute = b_chars.len() > 0 && b_chars[0] == '/';
    let a_parts = components_of(&a_chars);
    let b_parts = components_of(&b_chars);
    let ghost a_seqs = crate::split::char_seqs(a_parts@);
    let ghost b_seqs = crate::split::char_seqs(b_parts@);
    if a_absolute != b_absolute || a_parts.len() != b_parts.len() {
        assert(a_seqs.len() == a_parts@.len() && b_seqs.len() == b_parts@.len());
        return false;
    }
    for i in 0..a_parts.len()
        invariant
            a_parts@.len() == b_parts@.len(),
            a_seqs == crate::split::char_seqs(a_parts@),
            b_seqs == crate::split::char_seqs(b_parts@),
            a_seqs == components(a@),
            b_seqs == components(b@),
            forall|k: int| 0 <= k < i ==> a_seqs[k] == b_seqs[k],
    {
        assert(a_seqs[i as int] == a_parts@[i as int]@);
        assert(b_seqs[i as int] == b_parts@[i as int]@);
        if !same_chars(&a_parts[i], &b_parts[i]) {
            return false;
        }
    }
    assert(a_seqs =~= b_seqs);
    true
}

/// Another slash next to one, or a single dot between two, makes no other path.
pub proof fn law_redundant_parts(a: Seq<char>, b: Seq<char>)
    ensures
        same_path(a + seq!['/', '/'] + b, a + seq!['/'] + b),
        same_path(a + seq!['/', '.', '/'] + b, a + seq!['/'] + b),
{
    let before = crate::split::split_at_each(a, '/');
    let behind = crate::split::split_at_each(b, '/');
    let nothing = Seq::<char>::empty();
    let dot = seq!['.'];
    crate::split::law_split_joined(a, '/', b);
    assert(a + seq!['/'] + b =~= a.push('/') + b);
    crate::split::law_split_joined(a, '/', nothing.push('/') + b);
    crate::split::law_split_joined(nothing, '/', b);
    crate::split::law_split_whole(nothing, '/');
    assert(a + seq!['/', '/'] + b =~= a.push('/') + (nothing.push('/') + b));
    crate::split::law_split_joined(a, '/', dot.push('/') + b);
    crate::split::law_split_joined(dot, '/', b);
    crate::split::law_split_whole(dot, '/');
    assert(a + seq!['/', '.', '/'] + b =~= a.push('/') + (dot.push('/') + b));
    crate::split::lemma_split_nonempty(a, '/');
    lemma_kept_without(before, nothing, behind);
    lemma_kept_without(before, dot, behind);
    assert(before + (seq![nothing] + behind) =~= before + seq![nothing] + behind);
    assert(before + (seq![dot] + behind) =~= before + seq![dot] + behind);
}

/// A slash at the end of a path makes no other path, unless there is nothing before it.
pub proof fn law_trailing_slash(a: Seq<char>)
    requires
        a.len() > 0,
    ensures
        same_path(a.push('/'), a),
{
    let before = crate::split::split_at_each(a, '/');
    assert(a.push('/').drop_last() =~= a);
    assert(before.push(Seq::<char>::empty()).drop_last() =~= before);
}

proof fn lemma_kept_without(before: Seq<Seq<char>>, part: Seq<char>, behind: Seq<Seq<char>>)
    requires
        before.len() > 0,
        part.len() == 0 || part == seq!['.'],
    ensures
        kept_parts(before + seq![part] + behind) == kept_parts(before + behind),
    decreases behind.len(),
{
    let with = before + seq![part] + behind;
    let without = before + behind;
    if behind.len() == 0 {
        assert(with.drop_last() =~= before);
        assert(without =~= before);
    } else {
        lemma_kept_without(before, part, behind.drop_last());
        assert(with.drop_last() =~= before + seq![part] + behind.drop_last());
        assert(without.drop_last() =~= before + behind.drop_last());
    }
}

/// A path put together from parts.
pub open spec fn joined_parts(parts: Seq<Seq<char>>) -> Seq<char>
    decreases parts.len(),
{
    if parts.len() == 0 {
        Seq::empty()
    } else {
        joined_parts(parts.drop_last()).push('/') + parts.last()
    }
}

/// The components of an absolute path are the parts that it was put together from, so absolute
/// paths of different parts are different paths.
pub proof fn law_components_of_joined(parts: Seq<Seq<char>>)
    requires
        forall|i: int|
            0 <= i < parts.len() ==> (#[trigger] parts[i]).len() > 0 && !parts[i].contains('/')
                && parts[i] != seq!['.'],
    ensures
        components(joined_parts(parts)) == parts,
        parts.len() > 0 ==> is_absolute(joined_parts(parts)),
    decreases parts.len(),
{
    if parts.len() > 0 {
        let before = parts.drop_last();
        let last = parts.last();
        assert(last == parts[parts.len() - 1]);
        assert forall|i: int| 0 <= i < before.len() implies (#[trigger] before[i]).len() > 0
            && !before[i].contains('/') && before[i] != seq!['.'] by {
            assert(before[i] == parts[i]);
        }
        law_components_of_joined(before);
        let start = joined_parts(before);
        crate::split::law_split_joined(start, '/', last);
        crate::split::law_split_whole(last, '/');
        crate::split::lemma_split_nonempty(start, '/');
        let all = crate::split::split_at_each(start, '/') + seq![last];
        assert(all.drop_last() =~= crate::split::split_at_each(start, '/'));
        assert(all.last() == last);
        assert(before.push(last) =~= parts);
    } else {
        assert(components(Seq::<char>::empty()) =~= parts) by {
            let only = crate::split::split_at_each(Seq::<char>::empty(), '/');
            assert(only.last().len() == 0);
            assert(only.drop_last() =~= Seq::<Seq<char>>::empty());
            assert(kept_parts(only.drop_last()).len() == 0);
        }
    }
}

/// The components of a relative path are the part that it begins with, which may be a single dot,
/// and those that follow.
pub proof fn law_components_of_relative(first: Seq<char>, parts: Seq<Seq<char>>)
    requires
        first.len() > 0,
        !first.contains('/'),
        forall|i: int|
            0 <= i < parts.len() ==> (#[trigger] parts[i]).len() > 0 && !parts[i].contains('/')
                && parts[i] != seq!['.'],
    ensures
        components(first + joined_parts(parts)) == seq![first] + parts,
        !is_absolute(first + joined_parts(parts)),
    decreases parts.len(),
{
    assert((first + joined_parts(parts))[0] == first[0]);
    assert(first.contains(first[0]));
    if parts.len() > 0 {
        let before = parts.drop_last();
        let last = parts.last();
        assert(last == parts[parts.len() - 1]);
        assert forall|i: int| 0 <= i < before.len() implies (#[trigger] before[i]).len() > 0
            && !before[i].contains('/') && before[i] != seq!['.'] by {
            assert(before[i] == parts[i]);
        }
        law_components_of_relative(first, before);
        let start = first + joined_parts(before);
        assert(first + joined_parts(parts) =~= start.push('/') + last);
        crate::split::law_split_joined(start, '/', last);
        crate::split::law_split_whole(last, '/');
        crate::split::lemma_split_nonempty(start, '/');
        let all = crate::split::split_at_each(start, '/') + seq![last];
        assert(all.drop_last() =~= crate::split::split_at_each(start, '/'));
        assert(all.last() == last);
        assert((seq![first] + before).push(last) =~= seq![first] + parts);
    } else {
        assert(first + joined_parts(parts) =~= first);
        crate::split::law_split_whole(first, '/');
        let only = seq![first];
        assert(only.drop_last() =~= Seq::<Seq<char>>::empty());
        assert(kept_parts(only.drop_last()).len() == 0);
        assert(components(first) =~= only);
        assert(only + parts =~= only);
    }
}

/// Two paths of which only one begins at the root are different paths.
pub proof fn law_absolute_paths_differ_from_relative(a: Seq<char>, b: Seq<char>)
    requires
        same_path(a, b),
    ensures
        (a.len() > 0 && a[0] == '/') == (b.len() > 0 && b[0] == '/'),
{
}

/// A single dot at the very beginning of a path counts.
pub proof fn law_leading_dot(a: Seq<char>)
    requires
        a.len() > 0,
        a[0] != '/',
        a[0] != '.',
    ensures
        !same_path(seq!['.', '/'] + a, a),
{
    let dot = seq!['.'];
    crate::split::law_split_joined(dot, '/', a);
    crate::split::law_split_whole(dot, '/');
    assert(seq!['.', '/'] + a =~= dot.push('/') + a);
    let parts = crate::split::split_at_each(a, '/');
    lemma_first_part(a);
    lemma_first_kept(seq![dot] + parts);
    lemma_first_kept(parts);
    assert(components(seq!['.', '/'] + a)[0] == dot);
    assert(components(a)[0] == parts[0]);
    assert(parts[0][0] != dot[0]);
}

/// What stands before the first slash begins as the path does.
proof fn lemma_first_part(a: Seq<char>)
    requires
        a.len() > 0,
        a[0] != '/',
    ensures
        crate::split::split_at_each(a, '/').len() > 0,
        crate::split::split_at_each(a, '/')[0].len() > 0,
        crate::split::split_at_each(a, '/')[0][0] == a[0],
    decreases a.len(),
{
    if a.len() == 1 {
        crate::split::law_split_whole(a, '/');
    } else {
        lemma_first_part(a.drop_last());
    }
}

proof fn lemma_first_kept(parts: Seq<Seq<char>>)
    requires
        parts.len() > 0,
        parts[0].len() > 0,
    ensures
        kept_parts(parts).len() > 0,
        kept_parts(parts)[0] == parts[0],
    decreases parts.len(),
{
    if parts.len() > 1 {
        lemma_first_kept(parts.drop_last());
    } else {
        assert(kept_parts(parts.drop_last()).len() == 0);
    }
}

} // verus!
