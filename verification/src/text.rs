//! Plain text: the few operations on characters that the rest of the library is built from.

use vstd::prelude::*;

verus! {

/// `String::push`: the character is appended to the end of the text.
pub assume_specification[ String::push ](s: &mut String, c: char)
    ensures
        final(s)@ == old(s)@.push(c),
;

/// The `==` of `str`: two texts are equal exactly when they hold the same characters in the
/// same order.
pub assume_specification[ <str as PartialEq>::eq ](a: &str, b: &str) -> (r: bool)
    ensures
        r == (a@ == b@),
;

/// What `String::from_utf8_lossy` makes of bytes that are not valid UTF-8.
pub uninterp spec fn lossy_text(bytes: Seq<u8>) -> Seq<char>;

/// The text that a run of bytes stands for.
pub open spec fn decoded(bytes: Seq<u8>) -> Seq<char> {
    if vstd::utf8::valid_utf8(bytes) {
        vstd::utf8::decode_utf8(bytes)
    } else {
        lossy_text(bytes)
    }
}

/// `String::from_utf8_lossy`: valid UTF-8 is decoded as it stands. Anything else comes out with
/// replacement characters in place of what could not be decoded; where those fall depends on the
/// bytes alone and is only named here, by `lossy_text`.
#[verifier::external_body]
pub(crate) fn decode_lossy(bytes: &[u8]) -> (r: String)
    ensures
        r@ == if vstd::utf8::valid_utf8(bytes@) {
            vstd::utf8::decode_utf8(bytes@)
        } else {
            lossy_text(bytes@)
        },
{
    String::from_utf8_lossy(bytes).into_owned()
}

/// The text behind an optional string.
pub open spec fn opt_text(o: Option<String>) -> Option<Seq<char>> {
    match o {
        Some(s) => Some(s@),
        None => None,
    }
}

/// The texts of a list of strings.
pub open spec fn texts(v: Seq<String>) -> Seq<Seq<char>> {
    v.map_values(|s: String| s@)
}

/// Whether two texts are the same.
pub fn same_text(a: &str, b: &str) -> (r: bool)
    ensures
        r == (a@ == b@),
{
    *a == *b
}

/// Whether an optional string is there and holds the given text.
pub fn is_text(o: &Option<String>, s: &str) -> (r: bool)
    ensures
        r == (opt_text(*o) == Some(s@)),
{
    match o {
        Some(t) => same_text(t.as_str(), s),
        None => false,
    }
}

/// An owned copy of an optional string.
pub fn clone_opt(o: &Option<String>) -> (r: Option<String>)
    ensures
        opt_text(r) == opt_text(*o),
{
    match o {
        Some(s) => Some(s.clone()),
        None => None,
    }
}

/// The characters of a text, in order.
pub fn chars_of(s: &str) -> (r: Vec<char>)
    ensures
        r@ == s@,
{
    let mut out: Vec<char> = Vec::new();
    for c in it: s.chars()
        invariant
            it.seq() == s@,
            out@ == s@.take(it.index() as int),
    {
        out.push(c);
        assert(s@.take(it.index() as int).push(c) =~= s@.take(it.index() + 1));
    }
    assert(s@.take(s@.len() as int) =~= s@);
    out
}

/// The text that holds the given characters.
pub fn text_of(v: &[char]) -> (r: String)
    ensures
        r@ == v@,
{
    let mut out = String::new();
    for i in 0..v.len()
        invariant
            out@ == v@.take(i as int),
    {
        out.push(v[i]);
        assert(v@.take(i as int).push(v@[i as int]) =~= v@.take(i + 1));
    }
    assert(v@.take(v@.len() as int) =~= v@);
    out
}

/// The characters `from..to` of a list.
pub fn slice_of(v: &[char], from: usize, to: usize) -> (r: Vec<char>)
    requires
        from <= to <= v@.len(),
    ensures
        r@ == v@.subrange(from as int, to as int),
{
    let mut out: Vec<char> = Vec::new();
    for i in from..to
        invariant
            from <= i <= to <= v@.len(),
            out@ == v@.subrange(from as int, i as int),
    {
        out.push(v[i]);
        assert(v@.subrange(from as int, i as int).push(v@[i as int]) =~= v@.subrange(
            from as int,
            i + 1,
        ));
    }
    out
}

// ---------------------------------------------------------------------------------------------
// White space
// ---------------------------------------------------------------------------------------------

/// The characters with the Unicode property White_Space.
pub open spec fn is_white(c: char) -> bool {
    let n = c as u32;
    ||| 0x09 <= n <= 0x0d
    ||| n == 0x20
    ||| n == 0x85
    ||| n == 0xa0
    ||| n == 0x1680
    ||| 0x2000 <= n <= 0x200a
    ||| n == 0x2028
    ||| n == 0x2029
    ||| n == 0x202f
    ||| n == 0x205f
    ||| n == 0x3000
}

/// Whether a character is white space.
pub fn is_whitespace(c: char) -> (r: bool)
    ensures
        r == is_white(c),
{
    let n: u32 = c as u32;
    (0x09 <= n && n <= 0x0d) || n == 0x20 || n == 0x85 || n == 0xa0 || n == 0x1680 || (0x2000 <= n
        && n <= 0x200a) || n == 0x2028 || n == 0x2029 || n == 0x202f || n == 0x205f || n == 0x3000
}

/// A text without its leading white space.
pub open spec fn skip_white(s: Seq<char>) -> Seq<char>
    decreases s.len(),
{
    if s.len() > 0 && is_white(s[0]) {
        skip_white(s.drop_first())
    } else {
        s
    }
}

/// A text without its trailing white space.
pub open spec fn drop_white(s: Seq<char>) -> Seq<char>
    decreases s.len(),
{
    if s.len() > 0 && is_white(s.last()) {
        drop_white(s.drop_last())
    } else {
        s
    }
}

/// A text without the white space at either end.
pub open spec fn trimmed(s: Seq<char>) -> Seq<char> {
    drop_white(skip_white(s))
}

/// How many characters stand before the first white space.
pub open spec fn word_len(s: Seq<char>) -> nat
    decreases s.len(),
{
    if s.len() > 0 && !is_white(s[0]) {
        1 + word_len(s.drop_first())
    } else {
        0
    }
}

/// The first run of characters that are not white space.
pub open spec fn first_word(s: Seq<char>) -> Option<Seq<char>> {
    let t = skip_white(s);
    if t.len() == 0 {
        None
    } else {
        Some(t.take(word_len(t) as int))
    }
}

/// Where the text without its leading white space begins.
fn white_prefix(v: &[char]) -> (r: usize)
    ensures
        r <= v@.len(),
        skip_white(v@) == v@.skip(r as int),
{
    let mut i: usize = 0;
    assert(v@.skip(0) =~= v@);
    while i < v.len() && is_whitespace(v[i])
        invariant
            i <= v@.len(),
            skip_white(v@) == skip_white(v@.skip(i as int)),
        ensures
            i <= v@.len(),
            skip_white(v@) == skip_white(v@.skip(i as int)),
            i == v@.len() || !is_white(v@[i as int]),
        decreases v@.len() - i,
    {
        assert(v@.skip(i as int).drop_first() =~= v@.skip(i + 1));
        i += 1;
    }
    i
}

/// The text without the white space at either end.
pub fn trim(s: &str) -> (r: String)
    ensures
        r@ == trimmed(s@),
{
    let v = chars_of(s);
    let start = white_prefix(&v);
    let mut end = v.len();
    assert(v@.subrange(start as int, end as int) =~= v@.skip(start as int));
    while end > start && is_whitespace(v[end - 1])
        invariant
            start <= end <= v@.len(),
            trimmed(v@) == drop_white(v@.subrange(start as int, end as int)),
        ensures
            start <= end <= v@.len(),
            trimmed(v@) == drop_white(v@.subrange(start as int, end as int)),
            start == end || !is_white(v@[end - 1]),
        decreases end,
    {
        assert(v@.subrange(start as int, end as int).drop_last() =~= v@.subrange(
            start as int,
            end - 1,
        ));
        end -= 1;
    }
    text_of(&slice_of(&v, start, end))
}

/// The first run of characters that are not white space.
pub fn find_word(v: &[char]) -> (r: Option<Vec<char>>)
    ensures
        r is Some <==> first_word(v@) is Some,
        r matches Some(w) ==> w@ == first_word(v@)->0,
{
    let start = white_prefix(v);
    if start == v.len() {
        return None;
    }
    let mut end = start;
    let ghost t = v@.skip(start as int);
    assert(t.skip(0) =~= t);
    while end < v.len() && !is_whitespace(v[end])
        invariant
            start <= end <= v@.len(),
            t == v@.skip(start as int),
            word_len(t) == end - start + word_len(t.skip(end - start)),
        ensures
            start <= end <= v@.len(),
            word_len(t) == end - start + word_len(t.skip(end - start)),
            end == v@.len() || is_white(v@[end as int]),
        decreases v@.len() - end,
    {
        assert(t.skip(end - start).drop_first() =~= t.skip(end - start + 1));
        end += 1;
    }
    assert(t.take(end - start) =~= v@.subrange(start as int, end as int));
    Some(slice_of(v, start, end))
}

// ---------------------------------------------------------------------------------------------
// Shortening
// ---------------------------------------------------------------------------------------------

/// The mark that stands for what was cut off.
pub const ELLIPSIS: char = '\u{2026}';

/// At most `max` characters of a text, with the ellipsis behind them where some were cut off.
pub open spec fn truncated(s: Seq<char>, max: nat) -> Seq<char> {
    if s.len() <= max {
        s
    } else {
        s.take(max as int).push(ELLIPSIS)
    }
}

/// Shortens a text to at most `max_chars` characters and an ellipsis.
pub fn truncate(s: &str, max_chars: usize) -> (r: String)
    ensures
        r@ == truncated(s@, max_chars as nat),
{
    let v = chars_of(s);
    if v.len() <= max_chars {
        s.to_owned()
    } else {
        let mut out = text_of(&slice_of(&v, 0, max_chars));
        out.push(ELLIPSIS);
        assert(v@.subrange(0, max_chars as int) =~= s@.take(max_chars as int));
        out
    }
}

/// A character with line breaks turned into spaces.
pub open spec fn unbroken(c: char) -> char {
    if c == '\n' || c == '\r' {
        ' '
    } else {
        c
    }
}

/// A text with each line break turned into a space.
pub open spec fn one_line(s: Seq<char>) -> Seq<char> {
    s.map_values(|c: char| unbroken(c))
}

/// Whether a text holds no line break.
pub open spec fn is_one_line(s: Seq<char>) -> bool {
    forall|i: int| 0 <= i < s.len() ==> #[trigger] s[i] != '\n' && s[i] != '\r'
}

/// Replaces each line break by a space.
pub fn collapse_lines(s: &str) -> (r: String)
    ensures
        r@ == one_line(s@),
{
    let v = chars_of(s);
    let mut out = String::new();
    for i in 0..v.len()
        invariant
            v@ == s@,
            out@ == one_line(s@.take(i as int)),
    {
        let c = v[i];
        if c == '\n' || c == '\r' {
            out.push(' ');
        } else {
            out.push(c);
        }
        assert(out@ =~= one_line(s@.take(i + 1)));
    }
    assert(s@.take(s@.len() as int) =~= s@);
    out
}

/// A shortened text keeps the beginning of the original, at most `max` characters of it, and
/// holds one more character, the ellipsis, exactly where something was cut off.
pub proof fn law_truncated(s: Seq<char>, max: nat)
    ensures
        truncated(s, max).len() <= max + 1,
        s.len() <= max ==> truncated(s, max) == s,
        s.len() > max ==> truncated(s, max).len() == max + 1 && truncated(s, max).last()
            == ELLIPSIS && truncated(s, max).drop_last() == s.take(max as int),
{
    if s.len() > max {
        assert(truncated(s, max).drop_last() =~= s.take(max as int));
    }
}

/// Turning line breaks into spaces leaves none and keeps every other character in its place.
pub proof fn law_one_line(s: Seq<char>)
    ensures
        is_one_line(one_line(s)),
        one_line(s).len() == s.len(),
        forall|i: int|
            0 <= i < s.len() ==> #[trigger] one_line(s)[i] == if s[i] == '\n' || s[i] == '\r' {
                ' '
            } else {
                s[i]
            },
        is_one_line(s) ==> one_line(s) == s,
{
    if is_one_line(s) {
        assert(one_line(s) =~= s);
    }
}

/// A single line is a text in which neither a line feed nor a carriage return stands.
pub proof fn law_single_lines(s: Seq<char>)
    ensures
        is_one_line(s) <==> !s.contains('\n') && !s.contains('\r'),
{
}

/// Trimming takes away the white space at either end, all of it and nothing else.
pub proof fn law_trimmed(before: Seq<char>, s: Seq<char>, after: Seq<char>)
    requires
        forall|i: int| 0 <= i < before.len() ==> is_white(#[trigger] before[i]),
        forall|i: int| 0 <= i < after.len() ==> is_white(#[trigger] after[i]),
        s.len() > 0 ==> !is_white(s.first()) && !is_white(s.last()),
    ensures
        trimmed(before + s + after) == s,
{
    assert(before + s + after =~= before + (s + after));
    lemma_skip_white(before, s + after);
    if s.len() > 0 {
        assert((s + after)[0] == s.first());
        lemma_drop_white(s, after);
    } else {
        assert(s + after =~= after + s);
        lemma_skip_white(after, s);
        assert(skip_white(s) =~= s);
        assert(drop_white(s) =~= s);
    }
}

/// The first word of a text is what stands between its leading white space and the next. White
/// space alone holds no word.
pub proof fn law_first_word(before: Seq<char>, word: Seq<char>, after: Seq<char>)
    requires
        forall|i: int| 0 <= i < before.len() ==> is_white(#[trigger] before[i]),
        forall|i: int| 0 <= i < word.len() ==> !is_white(#[trigger] word[i]),
        word.len() > 0,
        after.len() > 0 ==> is_white(after.first()),
    ensures
        first_word(before + word + after) == Some(word),
        first_word(before) is None,
{
    assert(before + word + after =~= before + (word + after));
    lemma_skip_white(before, word + after);
    assert((word + after)[0] == word[0]);
    lemma_word_len(word, after);
    assert((word + after).take(word.len() as int) =~= word);
    let nothing = Seq::<char>::empty();
    lemma_skip_white(before, nothing);
    assert(before + nothing =~= before);
}

/// Valid UTF-8 stands for the text that it encodes, and other bytes for what they are replaced by.
pub proof fn law_decoded(s: Seq<char>, bytes: Seq<u8>)
    ensures
        decoded(vstd::utf8::encode_utf8(s)) == s,
        !vstd::utf8::valid_utf8(bytes) ==> decoded(bytes) == lossy_text(bytes),
{
    vstd::utf8::encode_utf8_valid_utf8(s);
    vstd::utf8::encode_utf8_decode_utf8(s);
}

/// The texts of strings are the strings' own characters, one text for each.
pub proof fn law_texts(v: Seq<String>, s: String)
    ensures
        texts(v).len() == v.len(),
        forall|i: int| 0 <= i < v.len() ==> #[trigger] texts(v)[i] == v[i]@,
        opt_text(Some(s)) == Some(s@),
        opt_text(None::<String>) is None,
{
}

proof fn lemma_skip_white(before: Seq<char>, rest: Seq<char>)
    requires
        forall|i: int| 0 <= i < before.len() ==> is_white(#[trigger] before[i]),
    ensures
        skip_white(before + rest) == skip_white(rest),
    decreases before.len(),
{
    if before.len() == 0 {
        assert(before + rest =~= rest);
    } else {
        assert((before + rest)[0] == before[0]);
        assert((before + rest).drop_first() =~= before.drop_first() + rest);
        lemma_skip_white(before.drop_first(), rest);
    }
}

proof fn lemma_drop_white(s: Seq<char>, after: Seq<char>)
    requires
        forall|i: int| 0 <= i < after.len() ==> is_white(#[trigger] after[i]),
        s.len() > 0,
        !is_white(s.last()),
    ensures
        drop_white(s + after) == s,
    decreases after.len(),
{
    if after.len() == 0 {
        assert(s + after =~= s);
    } else {
        assert((s + after).last() == after[after.len() - 1]);
        assert((s + after).drop_last() =~= s + after.drop_last());
        lemma_drop_white(s, after.drop_last());
    }
}

proof fn lemma_word_len(word: Seq<char>, after: Seq<char>)
    requires
        forall|i: int| 0 <= i < word.len() ==> !is_white(#[trigger] word[i]),
        after.len() > 0 ==> is_white(after.first()),
    ensures
        word_len(word + after) == word.len(),
    decreases word.len(),
{
    if word.len() == 0 {
        assert(word + after =~= after);
    } else {
        assert((word + after)[0] == word[0]);
        assert((word + after).drop_first() =~= word.drop_first() + after);
        lemma_word_len(word.drop_first(), after);
    }
}

} // verus!
