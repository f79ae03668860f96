//! Small verified helpers over text, stated on sequences of characters.

use vstd::prelude::*;

verus! {

/// The characters of `s`, in order.
pub fn to_chars(s: &str) -> (v: Vec<char>)
    ensures
        v@ == s@,
{
    let mut v: Vec<char> = Vec::new();
    for c in it: s.chars()
        invariant
            v@ == it.seq().take(it.index() as int),
            it.seq() == s@,
    {
        v.push(c);
    }
    v
}

/// Whether `s` is exactly the text `chars`.
pub fn text_is(s: &str, chars: &Vec<char>) -> (same: bool)
    ensures
        same == (s@ == chars@),
{
    let mut i: usize = 0;
    for c in it: s.chars()
        invariant
            i == it.index(),
            it.seq() == s@,
            i <= chars.len(),
            forall|k: int| 0 <= k < i ==> s@[k] == chars[k],
    {
        if i >= chars.len() || chars[i] != c {
            return false;
        }
        i += 1;
    }
    if i == chars.len() {
        assert(s@ =~= chars@);
        true
    } else {
        false
    }
}

/// Whether two texts are equal, character by character.
pub fn same_text(a: &str, b: &str) -> (same: bool)
    ensures
        same == (a@ == b@),
{
    let chars = to_chars(b);
    text_is(a, &chars)
}

/// Whether `hay` begins with `prefix`.
pub fn chars_start_with(hay: &Vec<char>, prefix: &Vec<char>) -> (yes: bool)
    ensures
        yes == prefix@.is_prefix_of(hay@),
{
    if prefix.len() > hay.len() {
        return false;
    }
    let mut i: usize = 0;
    while i < prefix.len()
        invariant
            i <= prefix.len() <= hay.len(),
            forall|k: int| 0 <= k < i ==> hay[k] == prefix[k],
        decreases prefix.len() - i,
    {
        if hay[i] != prefix[i] {
            assert(hay@.subrange(0, prefix.len() as int)[i as int] != prefix@[i as int]);
            return false;
        }
        i += 1;
    }
    assert(hay@.subrange(0, prefix.len() as int) =~= prefix@);
    true
}

/// Whether `s` begins with `prefix`.
pub fn starts_with(s: &str, prefix: &str) -> (yes: bool)
    ensures
        yes == prefix@.is_prefix_of(s@),
{
    let hay = to_chars(s);
    let start = to_chars(prefix);
    chars_start_with(&hay, &start)
}

/// Whether `c` is white space: a character with the Unicode property
/// `White_Space`.
pub open spec fn is_whitespace(c: char) -> bool {
    let n = c as u32;
    ||| 0x09 <= n <= 0x0D
    ||| n == 0x20
    ||| n == 0x85
    ||| n == 0xA0
    ||| n == 0x1680
    ||| 0x2000 <= n <= 0x200A
    ||| n == 0x2028
    ||| n == 0x2029
    ||| n == 0x202F
    ||| n == 0x205F
    ||| n == 0x3000
}

/// Whether `c` is white space.
pub fn char_is_whitespace(c: char) -> (yes: bool)
    ensures
        yes == is_whitespace(c),
{
    let n: u32 = c as u32;
    (0x09 <= n && n <= 0x0D) || n == 0x20 || n == 0x85 || n == 0xA0 || n == 0x1680 || (0x2000 <= n
        && n <= 0x200A) || n == 0x2028 || n == 0x2029 || n == 0x202F || n == 0x205F || n == 0x3000
}

/// How many characters of white space `s` begins with.
pub open spec fn leading_whitespace(s: Seq<char>) -> nat
    decreases s.len(),
{
    if s.len() > 0 && is_whitespace(s[0]) {
        1 + leading_whitespace(s.drop_first())
    } else {
        0
    }
}

/// How many characters of white space `s` ends with.
pub open spec fn trailing_whitespace(s: Seq<char>) -> nat
    decreases s.len(),
{
    if s.len() > 0 && is_whitespace(s.last()) {
        1 + trailing_whitespace(s.drop_last())
    } else {
        0
    }
}

/// `s` without the white space at its start.
pub open spec fn trimmed_start(s: Seq<char>) -> Seq<char> {
    s.skip(leading_whitespace(s) as int)
}

/// `s` without the white space at its start and at its end.
pub open spec fn trimmed(s: Seq<char>) -> Seq<char> {
    let rest = trimmed_start(s);
    rest.take(rest.len() - trailing_whitespace(rest))
}

/// A run of white space at the start of a text, followed by the end of the
/// text or by another character, is all the white space the text begins with.
pub proof fn lemma_leading_whitespace_is(s: Seq<char>, n: int)
    requires
        0 <= n <= s.len(),
        forall|k: int| 0 <= k < n ==> is_whitespace(s[k]),
        n < s.len() ==> !is_whitespace(s[n]),
    ensures
        leading_whitespace(s) == n,
    decreases n,
{
    if n > 0 {
        let rest = s.drop_first();
        assert forall|k: int| 0 <= k < n - 1 implies is_whitespace(rest[k]) by {
            assert(rest[k] == s[k + 1]);
        }
        if n - 1 < rest.len() {
            assert(rest[n - 1] == s[n]);
        }
        lemma_leading_whitespace_is(rest, n - 1);
    }
}

/// A run of white space at the end of a text, preceded by the start of the
/// text or by another character, is all the white space the text ends with.
pub proof fn lemma_trailing_whitespace_is(s: Seq<char>, n: int)
    requires
        0 <= n <= s.len(),
        forall|k: int| s.len() - n <= k < s.len() ==> is_whitespace(s[k]),
        n < s.len() ==> !is_whitespace(s[s.len() - n - 1]),
    ensures
        trailing_whitespace(s) == n,
    decreases n,
{
    if n > 0 {
        let rest = s.drop_last();
        assert forall|k: int| rest.len() - (n - 1) <= k < rest.len() implies is_whitespace(
            rest[k],
        ) by {
            assert(rest[k] == s[k]);
        }
        if n - 1 < rest.len() {
            assert(rest[rest.len() - (n - 1) - 1] == s[s.len() - n - 1]);
        }
        lemma_trailing_whitespace_is(rest, n - 1);
    }
}

/// The bounds of `chars` without the white space at its start and end: the
/// trimmed text is `chars[from..to]`.
pub fn trim_bounds(chars: &Vec<char>) -> (bounds: (usize, usize))
    ensures
        bounds.0 <= bounds.1 <= chars.len(),
        chars@.subrange(bounds.0 as int, bounds.1 as int) == trimmed(chars@),
{
    let mut from: usize = 0;
    while from < chars.len() && char_is_whitespace(chars[from])
        invariant
            from <= chars.len(),
            forall|k: int| 0 <= k < from ==> is_whitespace(chars[k]),
        decreases chars.len() - from,
    {
        from += 1;
    }
    let mut to: usize = chars.len();
    while to > from && char_is_whitespace(chars[to - 1])
        invariant
            from <= to <= chars.len(),
            forall|k: int| to <= k < chars.len() ==> is_whitespace(chars[k]),
        decreases to,
    {
        to -= 1;
    }
    proof {
        lemma_leading_whitespace_is(chars@, from as int);
        let rest = trimmed_start(chars@);
        assert(rest == chars@.skip(from as int));
        assert forall|k: int| rest.len() - (chars.len() - to) <= k < rest.len() implies is_whitespace(
            rest[k],
        ) by {
            assert(rest[k] == chars[k + from]);
        }
        if chars.len() - to < rest.len() {
            assert(rest[rest.len() - (chars.len() - to) - 1] == chars[to - 1]);
        }
        lemma_trailing_whitespace_is(rest, chars.len() - to);
        assert(chars@.subrange(from as int, to as int) =~= trimmed(chars@));
    }
    (from, to)
}

/// `s` without the white space at its start and at its end.
pub fn trim(s: &str) -> (t: &str)
    ensures
        t@ == trimmed(s@),
{
    let chars = to_chars(s);
    let bounds = trim_bounds(&chars);
    s.substring_char(bounds.0, bounds.1)
}

/// Whether the character `c` occurs in `s`.
pub fn contains_char(s: &str, c: char) -> (yes: bool)
    ensures
        yes == s@.contains(c),
{
    for d in it: s.chars()
        invariant
            it.seq() == s@,
            forall|k: int| 0 <= k < it.index() ==> s@[k] != c,
    {
        if d == c {
            return true;
        }
    }
    false
}

/// Whether `needle` occurs in `hay` at position `at`.
pub open spec fn occurs_at(hay: Seq<char>, needle: Seq<char>, at: int) -> bool {
    0 <= at && at + needle.len() <= hay.len() && hay.subrange(at, at + needle.len()) == needle
}

/// Whether `needle` occurs somewhere in `hay`. The empty text occurs in every
/// text.
pub open spec fn has_substring(hay: Seq<char>, needle: Seq<char>) -> bool {
    exists|at: int| occurs_at(hay, needle, at)
}

/// Whether `needle` occurs in `hay` at position `at`.
pub fn chars_occur_at(hay: &Vec<char>, needle: &Vec<char>, at: usize) -> (yes: bool)
    requires
        at + needle.len() <= hay.len(),
    ensures
        yes == occurs_at(hay@, needle@, at as int),
{
    let mut k: usize = 0;
    while k < needle.len()
        invariant
            k <= needle.len(),
            at + needle.len() <= hay.len(),
            forall|j: int| 0 <= j < k ==> hay[at + j] == needle[j],
        decreases needle.len() - k,
    {
        if hay[at + k] != needle[k] {
            assert(hay@.subrange(at as int, at + needle.len())[k as int] != needle@[k as int]);
            return false;
        }
        k += 1;
    }
    assert(hay@.subrange(at as int, at + needle.len()) =~= needle@);
    true
}

/// Whether `at` is the first position at which `needle` occurs in `hay`.
pub open spec fn is_first_occurrence(hay: Seq<char>, needle: Seq<char>, at: int) -> bool {
    occurs_at(hay, needle, at) && forall|i: int| 0 <= i < at ==> !occurs_at(hay, needle, i)
}

/// The first position at which `needle` occurs in `hay`, if it occurs.
pub open spec fn first_occurrence(hay: Seq<char>, needle: Seq<char>) -> Option<int> {
    if has_substring(hay, needle) {
        Some(choose|at: int| is_first_occurrence(hay, needle, at))
    } else {
        None
    }
}

/// There is one first occurrence at most.
pub proof fn lemma_first_occurrence_is(hay: Seq<char>, needle: Seq<char>, at: int)
    requires
        is_first_occurrence(hay, needle, at),
    ensures
        first_occurrence(hay, needle) == Some(at),
{
    assert(has_substring(hay, needle));
    let chosen = choose|i: int| is_first_occurrence(hay, needle, i);
    if chosen < at {
        assert(!occurs_at(hay, needle, chosen));
    } else if at < chosen {
        assert(!occurs_at(hay, needle, at));
    }
}

/// The first position at which `needle` occurs in `hay`, if it occurs.
pub fn find_chars(hay: &Vec<char>, needle: &Vec<char>) -> (found: Option<usize>)
    ensures
        match found {
            Some(at) => first_occurrence(hay@, needle@) == Some(at as int) && is_first_occurrence(
                hay@,
                needle@,
                at as int,
            ),
            None => first_occurrence(hay@, needle@) is None && !has_substring(hay@, needle@),
        },
{
    if needle.len() > hay.len() {
        return None;
    }
    let last: usize = hay.len() - needle.len();
    let mut at: usize = 0;
    loop
        invariant
            last == hay.len() - needle.len(),
            at <= last,
            forall|i: int| 0 <= i < at ==> !occurs_at(hay@, needle@, i),
        decreases last - at,
    {
        if chars_occur_at(hay, needle, at) {
            proof {
                lemma_first_occurrence_is(hay@, needle@, at as int);
            }
            return Some(at);
        }
        if at == last {
            return None;
        }
        at += 1;
    }
}

/// Whether `needle` occurs somewhere in `hay`.
pub fn chars_contain(hay: &Vec<char>, needle: &Vec<char>) -> (yes: bool)
    ensures
        yes == has_substring(hay@, needle@),
{
    find_chars(hay, needle).is_some()
}

/// Whether the text `needle` occurs somewhere in `hay`.
pub fn contains(hay: &str, needle: &str) -> (yes: bool)
    ensures
        yes == has_substring(hay@, needle@),
{
    let h = to_chars(hay);
    let n = to_chars(needle);
    chars_contain(&h, &n)
}

/// The lower-case form of a text, as `str::to_lowercase` gives it: each
/// character is replaced by its Unicode lower-case mapping, which may be
/// several characters, with the one context rule for the Greek final sigma.
pub uninterp spec fn lowercase(s: Seq<char>) -> Seq<char>;

/// The lower-case forms of `items`, in order.
pub open spec fn lowered_all(items: Seq<Seq<char>>) -> Seq<Seq<char>> {
    Seq::new(items.len(), |i: int| lowercase(items[i]))
}

/// The text of an optional string slice.
pub open spec fn optional_str(s: Option<&str>) -> Option<Seq<char>> {
    match s {
        Some(t) => Some(t@),
        None => None,
    }
}

/// The lower-case form of `s`, made by `str::to_lowercase`. The result
/// depends on the text alone, not on a locale; the contract gives it its
/// name.
#[verifier::external_body]
pub(crate) fn to_lowercase(s: &str) -> (lowered: String)
    ensures
        lowered@ == lowercase(s@),
{
    s.to_lowercase()
}

/// The words that remain to be read from `s` when `current` is the word
/// being read: white space ends a word, and a word is never empty.
pub open spec fn words_from(s: Seq<char>, current: Seq<char>) -> Seq<Seq<char>>
    decreases s.len(),
{
    let ended = if current.len() > 0 {
        seq![current]
    } else {
        Seq::<Seq<char>>::empty()
    };
    if s.len() == 0 {
        ended
    } else if is_whitespace(s[0]) {
        ended + words_from(s.drop_first(), Seq::<char>::empty())
    } else {
        words_from(s.drop_first(), current.push(s[0]))
    }
}

/// The words of `s`: its maximal runs of characters that are not white
/// space, in order.
pub open spec fn words(s: Seq<char>) -> Seq<Seq<char>> {
    words_from(s, Seq::<char>::empty())
}

/// The views of a list of character vectors, in order.
pub open spec fn texts_view(items: Seq<Vec<char>>) -> Seq<Seq<char>> {
    Seq::new(items.len(), |i: int| items[i]@)
}

/// The words of `chars`.
pub fn split_words(chars: &Vec<char>) -> (found: Vec<Vec<char>>)
    ensures
        texts_view(found@) == words(chars@),
{
    let mut found: Vec<Vec<char>> = Vec::new();
    let mut current: Vec<char> = Vec::new();
    let mut i: usize = 0;
    assert(chars@.skip(0) =~= chars@);
    assert(texts_view(found@) =~= Seq::<Seq<char>>::empty());
    while i < chars.len()
        invariant
            i <= chars.len(),
            words(chars@) == texts_view(found@) + words_from(chars@.skip(i as int), current@),
        decreases chars.len() - i,
    {
        let c = chars[i];
        let ghost rest = chars@.skip(i as int);
        let ghost done = texts_view(found@);
        proof {
            assert(rest[0] == c);
            assert(rest.drop_first() =~= chars@.skip(i + 1));
        }
        if char_is_whitespace(c) {
            if current.len() > 0 {
                let ghost word = current@;
                found.push(current);
                current = Vec::new();
                assert(texts_view(found@) =~= done + seq![word]);
                assert(done + (seq![word] + words_from(rest.drop_first(), Seq::<char>::empty()))
                    =~= (done + seq![word]) + words_from(
                    rest.drop_first(),
                    Seq::<char>::empty(),
                ));
            } else {
                assert(current@ =~= Seq::<char>::empty());
                assert(Seq::<Seq<char>>::empty() + words_from(
                    rest.drop_first(),
                    Seq::<char>::empty(),
                ) =~= words_from(rest.drop_first(), Seq::<char>::empty()));
            }
        } else {
            current.push(c);
        }
        i += 1;
    }
    assert(chars@.skip(i as int).len() == 0);
    if current.len() > 0 {
        let ghost done = texts_view(found@);
        let ghost word = current@;
        found.push(current);
        assert(texts_view(found@) =~= done + seq![word]);
    } else {
        assert(texts_view(found@) + Seq::<Seq<char>>::empty() =~= texts_view(found@));
    }
    found
}

/// The paragraphs that remain to be read from `s` when `current` is the
/// paragraph being read: two line feeds in a row end a paragraph.
pub open spec fn paragraphs_from(s: Seq<char>, current: Seq<char>) -> Seq<Seq<char>>
    decreases s.len(),
{
    if s.len() == 0 {
        seq![current]
    } else if s.len() >= 2 && s[0] == '\n' && s[1] == '\n' {
        seq![current] + paragraphs_from(s.skip(2), Seq::<char>::empty())
    } else {
        paragraphs_from(s.drop_first(), current.push(s[0]))
    }
}

/// The paragraphs of `s`: the pieces between the pairs of line feeds, read
/// from the left. A text without such a pair is one paragraph.
pub open spec fn paragraphs(s: Seq<char>) -> Seq<Seq<char>> {
    paragraphs_from(s, Seq::<char>::empty())
}

/// The paragraphs of `chars`.
pub fn split_paragraphs(chars: &Vec<char>) -> (found: Vec<Vec<char>>)
    ensures
        texts_view(found@) == paragraphs(chars@),
{
    let mut found: Vec<Vec<char>> = Vec::new();
    let mut current: Vec<char> = Vec::new();
    let mut i: usize = 0;
    assert(chars@.skip(0) =~= chars@);
    assert(texts_view(found@) =~= Seq::<Seq<char>>::empty());
    while i < chars.len()
        invariant
            i <= chars.len(),
            paragraphs(chars@) == texts_view(found@) + paragraphs_from(
                chars@.skip(i as int),
                current@,
            ),
        decreases chars.len() - i,
    {
        let ghost rest = chars@.skip(i as int);
        let ghost done = texts_view(found@);
        proof {
            assert(rest[0] == chars[i as int]);
            if i + 1 < chars.len() {
                assert(rest[1] == chars[i + 1]);
            }
        }
        if chars[i] == '\n' && i + 1 < chars.len() && chars[i + 1] == '\n' {
            let ghost piece = current@;
            found.push(current);
            current = Vec::new();
            proof {
                assert(rest.skip(2) =~= chars@.skip(i + 2));
                assert(texts_view(found@) =~= done + seq![piece]);
                assert(done + (seq![piece] + paragraphs_from(rest.skip(2), Seq::<char>::empty()))
                    =~= (done + seq![piece]) + paragraphs_from(
                    rest.skip(2),
                    Seq::<char>::empty(),
                ));
            }
            i += 2;
        } else {
            proof {
                assert(rest.drop_first() =~= chars@.skip(i + 1));
            }
            current.push(chars[i]);
            i += 1;
        }
    }
    assert(chars@.skip(i as int).len() == 0);
    let ghost done = texts_view(found@);
    let ghost piece = current@;
    found.push(current);
    assert(texts_view(found@) =~= done + seq![piece]);
    found
}

/// Appends the character `c` to `s`, by `String::push`.
#[verifier::external_body]
pub(crate) fn push_char(s: &mut String, c: char)
    ensures
        final(s)@ == old(s)@.push(c),
{
    s.push(c)
}

/// The text made of the characters `chars`.
pub fn string_of(chars: &Vec<char>) -> (s: String)
    ensures
        s@ == chars@,
{
    let mut s = String::new();
    let mut i: usize = 0;
    while i < chars.len()
        invariant
            i <= chars.len(),
            s@ == chars@.take(i as int),
        decreases chars.len() - i,
    {
        push_char(&mut s, chars[i]);
        assert(chars@.take(i + 1) =~= chars@.take(i as int).push(chars[i as int]));
        i += 1;
    }
    assert(chars@.take(i as int) =~= chars@);
    s
}

/// The characters `chars[from..to]`.
pub fn slice_chars(chars: &Vec<char>, from: usize, to: usize) -> (piece: Vec<char>)
    requires
        from <= to <= chars.len(),
    ensures
        piece@ == chars@.subrange(from as int, to as int),
{
    let mut piece: Vec<char> = Vec::new();
    let mut i: usize = from;
    while i < to
        invariant
            from <= i <= to <= chars.len(),
            piece@ == chars@.subrange(from as int, i as int),
        decreases to - i,
    {
        piece.push(chars[i]);
        assert(chars@.subrange(from as int, i + 1) =~= chars@.subrange(from as int, i as int).push(
            chars[i as int],
        ));
        i += 1;
    }
    piece
}

/// `line` without the carriage return it ends with, if it ends with one.
pub open spec fn without_carriage_return(line: Seq<char>) -> Seq<char> {
    if line.len() > 0 && line.last() == '\r' {
        line.drop_last()
    } else {
        line
    }
}

/// The lines that remain to be read from `s` when `current` is the line
/// being read. A line feed ends a line, and a carriage return before it
/// belongs to the line ending. What follows the last line feed is a line
/// too, unless it is empty.
pub open spec fn lines_from(s: Seq<char>, current: Seq<char>) -> Seq<Seq<char>>
    decreases s.len(),
{
    if s.len() == 0 {
        if current.len() > 0 {
            seq![current]
        } else {
            Seq::<Seq<char>>::empty()
        }
    } else if s[0] == '\n' {
        seq![without_carriage_return(current)] + lines_from(s.drop_first(), Seq::<char>::empty())
    } else {
        lines_from(s.drop_first(), current.push(s[0]))
    }
}

/// The lines of `s`, without their line endings.
pub open spec fn lines(s: Seq<char>) -> Seq<Seq<char>> {
    lines_from(s, Seq::<char>::empty())
}

/// The lines of `chars`.
pub fn split_lines(chars: &Vec<char>) -> (found: Vec<Vec<char>>)
    ensures
        texts_view(found@) == lines(chars@),
{
    let mut found: Vec<Vec<char>> = Vec::new();
    let mut current: Vec<char> = Vec::new();
    let mut i: usize = 0;
    assert(chars@.skip(0) =~= chars@);
    assert(texts_view(found@) =~= Seq::<Seq<char>>::empty());
    while i < chars.len()
        invariant
            i <= chars.len(),
            lines(chars@) == texts_view(found@) + lines_from(chars@.skip(i as int), current@),
        decreases chars.len() - i,
    {
        let c = chars[i];
        let ghost rest = chars@.skip(i as int);
        let ghost done = texts_view(found@);
        proof {
            assert(rest[0] == c);
            assert(rest.drop_first() =~= chars@.skip(i + 1));
        }
        if c == '\n' {
            let ghost line = without_carriage_return(current@);
            if current.len() > 0 && current[current.len() - 1] == '\r' {
                current.pop();
            }
            assert(current@ =~= line);
            found.push(current);
            current = Vec::new();
            assert(texts_view(found@) =~= done + seq![line]);
            assert(done + (seq![line] + lines_from(rest.drop_first(), Seq::<char>::empty())) =~= (done
                + seq![line]) + lines_from(rest.drop_first(), Seq::<char>::empty()));
        } else {
            current.push(c);
        }
        i += 1;
    }
    assert(chars@.skip(i as int).len() == 0);
    if current.len() > 0 {
        let ghost done = texts_view(found@);
        let ghost line = current@;
        found.push(current);
        assert(texts_view(found@) =~= done + seq![line]);
    } else {
        assert(texts_view(found@) + Seq::<Seq<char>>::empty() =~= texts_view(found@));
    }
    found
}

/// The texts `pieces`, with a line feed between each two.
pub open spec fn joined_lines(pieces: Seq<Seq<char>>) -> Seq<char>
    decreases pieces.len(),
{
    if pieces.len() == 0 {
        Seq::<char>::empty()
    } else if pieces.len() == 1 {
        pieces[0]
    } else {
        joined_lines(pieces.drop_last()) + seq!['\n'] + pieces.last()
    }
}

/// The texts `pieces[from..to]`, with a line feed between each two.
pub fn join_lines(pieces: &Vec<Vec<char>>, from: usize, to: usize) -> (text: Vec<char>)
    requires
        from <= to <= pieces.len(),
    ensures
        text@ == joined_lines(texts_view(pieces@).subrange(from as int, to as int)),
{
    let ghost all = texts_view(pieces@).subrange(from as int, to as int);
    let mut text: Vec<char> = Vec::new();
    let mut i: usize = from;
    assert(all.take(0) =~= Seq::<Seq<char>>::empty());
    while i < to
        invariant
            from <= i <= to <= pieces.len(),
            all == texts_view(pieces@).subrange(from as int, to as int),
            text@ == joined_lines(all.take(i - from)),
        decreases to - i,
    {
        let ghost before = text@;
        proof {
            let next = all.take(i - from + 1);
            assert(next.drop_last() =~= all.take(i - from));
            assert(next.last() == pieces[i as int]@);
            if i == from {
                assert(next.len() == 1);
                assert(next[0] == pieces[i as int]@);
            }
        }
        if i > from {
            text.push('\n');
        }
        let piece = &pieces[i];
        let ghost start = text@;
        let mut k: usize = 0;
        while k < piece.len()
            invariant
                k <= piece.len(),
                text@ == start + piece@.take(k as int),
            decreases piece.len() - k,
        {
            text.push(piece[k]);
            assert(piece@.take(k + 1) =~= piece@.take(k as int).push(piece[k as int]));
            k += 1;
        }
        assert(piece@.take(k as int) =~= piece@);
        assert(text@ =~= joined_lines(all.take(i - from + 1))) by {
            if i == from {
                assert(before =~= Seq::<char>::empty());
                assert(text@ =~= piece@);
            } else {
                assert(text@ =~= before + seq!['\n'] + piece@);
            }
        }
        i += 1;
    }
    assert(all.take(to - from) =~= all);
    text
}

} // verus!
