//! Taking a text apart at a separator, and finding a word in it.

use vstd::prelude::*;

verus! {

/// The parts of a text between separators: one more part than there are separators.
pub open spec fn split_at_each(s: Seq<char>, sep: char) -> Seq<Seq<char>>
    decreases s.len(),
{
    if s.len() == 0 {
        seq![Seq::<char>::empty()]
    } else {
        let parts = split_at_each(s.drop_last(), sep);
        if s.last() == sep {
            parts.push(Seq::<char>::empty())
        } else {
            parts.drop_last().push(parts.last().push(s.last()))
        }
    }
}

/// Whether a word stands somewhere in a text.
pub open spec fn has_word(s: Seq<char>, word: Seq<char>) -> bool {
    exists|i: int| #[trigger] word_at(s, word, i)
}

/// Whether a word stands at one place of a text.
pub open spec fn word_at(s: Seq<char>, word: Seq<char>, i: int) -> bool {
    0 <= i && i + word.len() <= s.len() && s.subrange(i, i + word.len()) == word
}

/// The first of some texts in which a word stands.
pub open spec fn first_with(parts: Seq<Seq<char>>, word: Seq<char>) -> Option<Seq<char>>
    decreases parts.len(),
{
    if parts.len() == 0 {
        None
    } else if has_word(parts[0], word) {
        Some(parts[0])
    } else {
        first_with(parts.drop_first(), word)
    }
}

/// The character sequences of a list of character lists.
pub open spec fn char_seqs(v: Seq<Vec<char>>) -> Seq<Seq<char>> {
    v.map_values(|p: Vec<char>| p@)
}

/// Splits at each separator.
pub fn split(s: &[char], sep: char) -> (r: Vec<Vec<char>>)
    ensures
        char_seqs(r@) == split_at_each(s@, sep),
{
    let mut done: Vec<Vec<char>> = Vec::new();
    let mut part: Vec<char> = Vec::new();
    assert(s@.take(0) =~= Seq::<char>::empty());
    assert(char_seqs(done@).push(part@) =~= split_at_each(s@.take(0), sep));
    for i in 0..s.len()
        invariant
            char_seqs(done@).push(part@) == split_at_each(s@.take(i as int), sep),
    {
        let c = s[i];
        let ghost before = char_seqs(done@).push(part@);
        assert(s@.take(i + 1).drop_last() =~= s@.take(i as int));
        assert(before.drop_last() =~= char_seqs(done@));
        if c == sep {
            done.push(part);
            part = Vec::new();
            assert(char_seqs(done@) =~= before);
        } else {
            part.push(c);
        }
        assert(char_seqs(done@).push(part@) =~= split_at_each(s@.take(i + 1), sep));
    }
    let ghost all = char_seqs(done@).push(part@);
    done.push(part);
    assert(char_seqs(done@) =~= all);
    assert(s@.take(s@.len() as int) =~= s@);
    done
}

/// Whether a word stands somewhere in a text.
pub fn contains_word(s: &[char], word: &[char]) -> (r: bool)
    ensures
        r == has_word(s@, word@),
{
    let n: usize = s.len();
    let m: usize = word.len();
    if m == 0 {
        assert(s@.subrange(0, 0) =~= word@);
        assert(word_at(s@, word@, 0));
        return true;
    }
    for i in 0..n
        invariant
            n == s@.len(),
            m == word@.len(),
            m > 0,
            forall|k: int| 0 <= k < i ==> !#[trigger] word_at(s@, word@, k),
    {
        if n - i < m {
            return false;
        }
        let mut j: usize = 0;
        while j < m && s[i + j] == word[j]
            invariant
                n == s@.len(),
                m == word@.len(),
                i + m <= n,
                j <= m,
                forall|k: int| 0 <= k < j ==> s@[i + k] == #[trigger] word@[k],
            ensures
                j <= m,
                forall|k: int| 0 <= k < j ==> s@[i + k] == #[trigger] word@[k],
                j == m || s@[i + j] != word@[j as int],
            decreases m - j,
        {
            j += 1;
        }
        if j == m {
            assert(s@.subrange(i as int, i + m) =~= word@);
            assert(word_at(s@, word@, i as int));
            return true;
        }
        assert(s@.subrange(i as int, i + m)[j as int] != word@[j as int]);
    }
    false
}

/// The first of some texts in which a word stands.
pub fn find_with<'a>(parts: &'a [Vec<char>], word: &[char]) -> (r: Option<&'a Vec<char>>)
    ensures
        r is Some <==> first_with(char_seqs(parts@), word@) is Some,
        r matches Some(p) ==> p@ == first_with(char_seqs(parts@), word@)->0,
{
    let ghost all = char_seqs(parts@);
    assert(all.skip(0) =~= all);
    for i in 0..parts.len()
        invariant
            all == char_seqs(parts@),
            first_with(all, word@) == first_with(all.skip(i as int), word@),
    {
        assert(all.skip(i as int)[0] == parts@[i as int]@);
        assert(all.skip(i as int).drop_first() =~= all.skip(i + 1));
        if contains_word(&parts[i], word) {
            return Some(&parts[i]);
        }
    }
    None
}

/// Splitting a text that is put together around one separator gives the parts of what stands
/// before it, then the parts of what stands behind it.
pub proof fn law_split_joined(a: Seq<char>, sep: char, b: Seq<char>)
    ensures
        split_at_each(a.push(sep) + b, sep) == split_at_each(a, sep) + split_at_each(b, sep),
    decreases b.len(),
{
    let whole = a.push(sep) + b;
    if b.len() == 0 {
        assert(whole =~= a.push(sep));
        assert(whole.drop_last() =~= a);
        assert(split_at_each(a, sep).push(Seq::<char>::empty()) =~= split_at_each(a, sep)
            + split_at_each(b, sep));
    } else {
        law_split_joined(a, sep, b.drop_last());
        lemma_split_nonempty(b.drop_last(), sep);
        assert(whole.drop_last() =~= a.push(sep) + b.drop_last());
        assert(whole.last() == b.last());
        let left = split_at_each(a, sep);
        let right = split_at_each(b.drop_last(), sep);
        assert((left + right).last() == right.last());
        assert((left + right).drop_last() =~= left + right.drop_last());
        assert(split_at_each(whole, sep) =~= left + split_at_each(b, sep));
    }
}

/// A text without the separator is its own only part.
pub proof fn law_split_whole(s: Seq<char>, sep: char)
    requires
        !s.contains(sep),
    ensures
        split_at_each(s, sep) == seq![s],
    decreases s.len(),
{
    if s.len() > 0 {
        assert(s[s.len() - 1] == s.last());
        assert forall|c: char| #[trigger] s.drop_last().contains(c) implies s.contains(c) by {
            let i = s.drop_last().index_of(c);
            assert(s[i] == c);
        }
        law_split_whole(s.drop_last(), sep);
        assert(s.drop_last().push(s.last()) =~= s);
        assert(seq![s.drop_last()].drop_last().push(s) =~= seq![s]);
    } else {
        assert(s =~= Seq::<char>::empty());
    }
}

/// There is always a part, if only an empty one.
pub proof fn lemma_split_nonempty(s: Seq<char>, sep: char)
    ensures
        split_at_each(s, sep).len() > 0,
    decreases s.len(),
{
    if s.len() > 0 {
        lemma_split_nonempty(s.drop_last(), sep);
    }
}

/// A word stands in a text exactly where the text is the word with something, or nothing, before
/// and behind it.
pub proof fn law_has_word(a: Seq<char>, word: Seq<char>, b: Seq<char>, s: Seq<char>)
    ensures
        has_word(a + word + b, word),
        has_word(s, word) ==> exists|i: int|
            0 <= i <= s.len() - word.len() && s == #[trigger] s.take(i) + word + s.skip(
                i + word.len(),
            ),
{
    let whole = a + word + b;
    let at = a.len() as int;
    assert(whole.subrange(at, at + word.len()) =~= word);
    assert(word_at(whole, word, at));
    if has_word(s, word) {
        let i = choose|i: int| #[trigger] word_at(s, word, i);
        assert(s =~= s.take(i) + s.subrange(i, i + word.len()) + s.skip(i + word.len()));
    }
}

/// Of some texts, the one found is the first in which the word stands.
pub proof fn law_first_with(
    before: Seq<Seq<char>>,
    part: Seq<char>,
    behind: Seq<Seq<char>>,
    word: Seq<char>,
)
    requires
        forall|i: int| 0 <= i < before.len() ==> !has_word(#[trigger] before[i], word),
        has_word(part, word),
    ensures
        first_with(before + seq![part] + behind, word) == Some(part),
        first_with(before, word) is None,
    decreases before.len(),
{
    let all = before + seq![part] + behind;
    if before.len() == 0 {
        assert(all[0] == part);
    } else {
        assert(all[0] == before[0]);
        assert(all.drop_first() =~= before.drop_first() + seq![part] + behind);
        law_first_with(before.drop_first(), part, behind, word);
    }
}

} // verus!
