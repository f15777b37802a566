//! Plain text, seen as a sequence of characters: what it means to trim it, to
//! cut it into lines, fields and words, and to find one text in another.
//!
//! The specification functions say what each operation yields; the executable
//! functions work on `&[char]` and are proved against them.

use vstd::prelude::*;
use vstd::slice::slice_subrange;

verus! {

// ---------------------------------------------------------------------------
// What the standard library gives
// ---------------------------------------------------------------------------

/// The characters with the Unicode property `White_Space`.
pub open spec fn white_space(c: char) -> bool {
    ||| '\u{9}' <= c <= '\u{d}'
    ||| c == '\u{20}'
    ||| c == '\u{85}'
    ||| c == '\u{a0}'
    ||| c == '\u{1680}'
    ||| '\u{2000}' <= c <= '\u{200a}'
    ||| c == '\u{2028}'
    ||| c == '\u{2029}'
    ||| c == '\u{202f}'
    ||| c == '\u{205f}'
    ||| c == '\u{3000}'
}

/// `char::is_whitespace`: true of exactly the characters with the Unicode
/// property `White_Space`.
pub assume_specification[ char::is_whitespace ](c: char) -> (r: bool)
    ensures
        r == white_space(c),
;

/// `String::push`: appends one character to the end of the text.
pub assume_specification[ String::push ](s: &mut String, c: char)
    ensures
        final(s)@ == old(s)@.push(c),
;

/// What `String::from_utf8_lossy` makes of some bytes.
pub uninterp spec fn lossy_utf8(bytes: Seq<u8>) -> Seq<char>;

/// `String::from_utf8_lossy`: the text of the bytes, with the replacement
/// character in place of what is not UTF-8. Bytes that are UTF-8 throughout
/// give the text that they encode.
#[verifier::external_body]
pub(crate) fn lossy_text(bytes: &[u8]) -> (r: String)
    ensures
        r@ == lossy_utf8(bytes@),
        vstd::utf8::valid_utf8(bytes@) ==> r@ == vstd::utf8::decode_utf8(bytes@),
{
    String::from_utf8_lossy(bytes).into_owned()
}

/// What `str::to_lowercase` makes of a text.
pub uninterp spec fn lowercase(text: Seq<char>) -> Seq<char>;

/// The lower-case form of an ASCII character.
pub open spec fn ascii_lowercase(c: char) -> char {
    if 'A' <= c <= 'Z' {
        (c as u32 + 32) as char
    } else {
        c
    }
}

/// `str::to_lowercase`: the Unicode lower-case form of the text. In an ASCII
/// text each letter `A` to `Z` becomes the letter `a` to `z`, and the rest
/// stays.
#[verifier::external_body]
pub(crate) fn lower_text(text: &str) -> (r: String)
    ensures
        r@ == lowercase(text@),
        vstd::utf8::is_ascii_chars(text@) ==> r@ == text@.map_values(
            |c: char| ascii_lowercase(c),
        ),
{
    text.to_lowercase()
}

// ---------------------------------------------------------------------------
// What the operations mean
// ---------------------------------------------------------------------------

/// `s` without the white space at its start.
pub open spec fn trim_start(s: Seq<char>) -> Seq<char>
    decreases s.len(),
{
    if s.len() > 0 && white_space(s[0]) {
        trim_start(s.skip(1))
    } else {
        s
    }
}

/// `s` without the white space at its end.
pub open spec fn trim_end(s: Seq<char>) -> Seq<char>
    decreases s.len(),
{
    if s.len() > 0 && white_space(s.last()) {
        trim_end(s.drop_last())
    } else {
        s
    }
}

/// `s` without the white space at either end.
pub open spec fn trim(s: Seq<char>) -> Seq<char> {
    trim_end(trim_start(s))
}

/// `s` without the characters `c` at its start.
pub open spec fn strip_start(s: Seq<char>, c: char) -> Seq<char>
    decreases s.len(),
{
    if s.len() > 0 && s[0] == c {
        strip_start(s.skip(1), c)
    } else {
        s
    }
}

/// `s` without the characters `c` at its end.
pub open spec fn strip_end(s: Seq<char>, c: char) -> Seq<char>
    decreases s.len(),
{
    if s.len() > 0 && s.last() == c {
        strip_end(s.drop_last(), c)
    } else {
        s
    }
}

/// `s` without the characters `c` at either end.
pub open spec fn strip(s: Seq<char>, c: char) -> Seq<char> {
    strip_end(strip_start(s, c), c)
}

/// Whether `s` is white space only.
pub open spec fn blank(s: Seq<char>) -> bool {
    forall|i: int| 0 <= i < s.len() ==> white_space(#[trigger] s[i])
}

/// The place of the first `c` in `s`, or the length of `s` where it has none.
pub open spec fn find(s: Seq<char>, c: char) -> nat
    decreases s.len(),
{
    if s.len() == 0 || s[0] == c {
        0
    } else {
        1 + find(s.skip(1), c)
    }
}

/// What stands before the first `c`: all of `s` where it has none.
pub open spec fn before(s: Seq<char>, c: char) -> Seq<char> {
    s.take(find(s, c) as int)
}

/// What stands behind the first `c`, if `s` has one.
pub open spec fn after(s: Seq<char>, c: char) -> Option<Seq<char>> {
    if find(s, c) < s.len() {
        Some(s.skip(find(s, c) as int + 1))
    } else {
        None
    }
}

/// A line without the carriage return that may end it.
pub open spec fn without_return(line: Seq<char>) -> Seq<char> {
    if line.len() > 0 && line.last() == '\r' {
        line.drop_last()
    } else {
        line
    }
}

/// The lines of `s`. A line ends with `\n` or `\r\n`, neither of them part of
/// it; what follows the last end, if anything, is a line too.
pub open spec fn lines(s: Seq<char>) -> Seq<Seq<char>>
    decreases s.len(),
{
    let end = find(s, '\n');
    if s.len() == 0 {
        seq![]
    } else if end < s.len() {
        seq![without_return(s.take(end as int))] + lines(s.skip(end as int + 1))
    } else {
        seq![s]
    }
}

/// The pieces into which `c` cuts `s`: one more than `s` has of `c`.
pub open spec fn pieces(s: Seq<char>, c: char) -> Seq<Seq<char>>
    decreases s.len(),
{
    let end = find(s, c);
    if end < s.len() {
        seq![s.take(end as int)] + pieces(s.skip(end as int + 1), c)
    } else {
        seq![s]
    }
}

/// The place of the first white space in `s`, or the length of `s`.
pub open spec fn find_space(s: Seq<char>) -> nat
    decreases s.len(),
{
    if s.len() == 0 || white_space(s[0]) {
        0
    } else {
        1 + find_space(s.skip(1))
    }
}

/// The words of `s`: the longest runs without white space.
pub open spec fn words(s: Seq<char>) -> Seq<Seq<char>>
    decreases s.len(),
{
    if s.len() == 0 {
        seq![]
    } else if white_space(s[0]) {
        words(s.skip(1))
    } else {
        let end = find_space(s);
        if end < s.len() {
            seq![s.take(end as int)] + words(s.skip(end as int))
        } else {
            seq![s]
        }
    }
}

/// Whether `part` stands in `s` at the place `i`.
pub open spec fn occurs_at(s: Seq<char>, part: Seq<char>, i: int) -> bool {
    0 <= i && i + part.len() <= s.len() && s.subrange(i, i + part.len()) == part
}

/// Whether `part` stands anywhere in `s`.
pub open spec fn contains(s: Seq<char>, part: Seq<char>) -> bool {
    exists|i: int| occurs_at(s, part, i)
}

/// The first place where `part` stands in `s`, or the length of `s` where it
/// stands nowhere.
pub open spec fn place_of(s: Seq<char>, part: Seq<char>) -> nat
    decreases s.len(),
{
    if s.len() == 0 || starts_with(s, part) {
        0
    } else {
        1 + place_of(s.skip(1), part)
    }
}

/// Whether `s` begins with `part`.
pub open spec fn starts_with(s: Seq<char>, part: Seq<char>) -> bool {
    occurs_at(s, part, 0)
}

/// The texts of some strings.
pub open spec fn texts(strings: Seq<String>) -> Seq<Seq<char>> {
    strings.map_values(|s: String| s@)
}

/// The texts of some slices of characters.
pub open spec fn spans(slices: Seq<&[char]>) -> Seq<Seq<char>> {
    slices.map_values(|s: &[char]| s@)
}

/// The texts of some string slices.
pub open spec fn words_of(strings: Seq<&str>) -> Seq<Seq<char>> {
    strings.map_values(|s: &str| s@)
}

/// The text of an optional string.
pub open spec fn opt_text(s: Option<String>) -> Option<Seq<char>> {
    match s {
        Some(t) => Some(t@),
        None => None,
    }
}

/// Some texts with a separator between them.
pub open spec fn join(items: Seq<Seq<char>>, separator: Seq<char>) -> Seq<char>
    decreases items.len(),
{
    if items.len() == 0 {
        seq![]
    } else if items.len() == 1 {
        items[0]
    } else {
        join(items.drop_last(), separator) + separator + items.last()
    }
}

// ---------------------------------------------------------------------------
// Facts about the specification functions
// ---------------------------------------------------------------------------

/// `find` is the place where the first `c` stands.
pub proof fn lemma_find(s: Seq<char>, c: char, i: int)
    requires
        0 <= i <= s.len(),
        forall|j: int| 0 <= j < i ==> s[j] != c,
        i < s.len() ==> s[i] == c,
    ensures
        find(s, c) == i,
    decreases s.len(),
{
    if i > 0 {
        assert forall|j: int| 0 <= j < i - 1 implies s.skip(1)[j] != c by {
            assert(s.skip(1)[j] == s[j + 1]);
        }
        lemma_find(s.skip(1), c, i - 1);
    }
}

/// `find` stays within the text, and no `c` stands before it.
pub proof fn lemma_find_bounds(s: Seq<char>, c: char)
    ensures
        0 <= find(s, c) <= s.len(),
        forall|j: int| 0 <= j < find(s, c) ==> s[j] != c,
        find(s, c) < s.len() ==> s[find(s, c) as int] == c,
    decreases s.len(),
{
    if s.len() > 0 && s[0] != c {
        lemma_find_bounds(s.skip(1), c);
        assert forall|j: int| 0 <= j < find(s, c) implies s[j] != c by {
            if j > 0 {
                assert(s.skip(1)[j - 1] == s[j]);
            }
        }
        assert(find(s, c) < s.len() ==> s.skip(1)[find(s, c) - 1] == s[find(s, c) as int]);
    }
}

/// `place_of` is the first place where the part stands.
proof fn lemma_place(s: Seq<char>, part: Seq<char>, i: int)
    requires
        0 <= i <= s.len(),
        forall|j: int| 0 <= j < i ==> !occurs_at(s, part, j),
        i < s.len() ==> occurs_at(s, part, i),
    ensures
        place_of(s, part) == i,
    decreases s.len(),
{
    if i > 0 {
        let rest = s.skip(1);
        assert(!occurs_at(s, part, 0));
        assert forall|j: int| 0 <= j < i - 1 implies !occurs_at(rest, part, j) by {
            lemma_occurs_behind(s, part, j);
            assert(!occurs_at(s, part, j + 1));
        }
        lemma_occurs_behind(s, part, i - 1);
        lemma_place(rest, part, i - 1);
    }
}

/// A part stands one place earlier in a text without its first character.
proof fn lemma_occurs_behind(s: Seq<char>, part: Seq<char>, i: int)
    requires
        s.len() > 0,
        0 <= i,
    ensures
        occurs_at(s.skip(1), part, i) == occurs_at(s, part, i + 1),
{
    if i + 1 + part.len() <= s.len() {
        assert(s.skip(1).subrange(i, i + part.len()) =~= s.subrange(i + 1, i + 1 + part.len()));
    }
}

/// A part that stands in a text stands at `place_of`.
pub proof fn lemma_place_of(s: Seq<char>, part: Seq<char>)
    requires
        contains(s, part),
    ensures
        place_of(s, part) <= s.len(),
        occurs_at(s, part, place_of(s, part) as int),
    decreases s.len(),
{
    let i = choose|i: int| occurs_at(s, part, i);
    if s.len() == 0 {
        assert(i == 0);
    } else if !starts_with(s, part) {
        assert(i != 0);
        lemma_occurs_behind(s, part, i - 1);
        assert(occurs_at(s.skip(1), part, i - 1));
        lemma_place_of(s.skip(1), part);
        lemma_occurs_behind(s, part, place_of(s.skip(1), part) as int);
    }
}

/// `find_space` is the place where the first white space stands.
pub proof fn lemma_find_space(s: Seq<char>, i: int)
    requires
        0 <= i <= s.len(),
        forall|j: int| 0 <= j < i ==> !white_space(#[trigger] s[j]),
        i < s.len() ==> white_space(s[i]),
    ensures
        find_space(s) == i,
    decreases s.len(),
{
    if i > 0 {
        assert(!white_space(s[0]));
        assert forall|j: int| 0 <= j < i - 1 implies !white_space(#[trigger] s.skip(1)[j]) by {
            assert(s.skip(1)[j] == s[j + 1]);
        }
        lemma_find_space(s.skip(1), i - 1);
    }
}

/// Trimming leaves nothing exactly where there is white space only.
pub proof fn lemma_trim_blank(s: Seq<char>)
    ensures
        blank(s) <==> trim(s).len() == 0,
        blank(s) <==> trim_start(s).len() == 0,
    decreases s.len(),
{
    if s.len() > 0 {
        if white_space(s[0]) {
            lemma_trim_blank(s.skip(1));
            if blank(s.skip(1)) {
                assert forall|i: int| 0 <= i < s.len() implies white_space(#[trigger] s[i]) by {
                    if i > 0 {
                        assert(s.skip(1)[i - 1] == s[i]);
                    }
                }
            }
            if blank(s) {
                assert forall|i: int| 0 <= i < s.skip(1).len() implies white_space(
                    #[trigger] s.skip(1)[i],
                ) by {
                    assert(s.skip(1)[i] == s[i + 1]);
                }
            }
        } else {
            assert(!blank(s));
            lemma_trim_end_keeps_head(s);
        }
    }
}

/// A text that does not begin with white space keeps its first character when
/// its end is trimmed.
proof fn lemma_trim_end_keeps_head(s: Seq<char>)
    requires
        s.len() > 0,
        !white_space(s[0]),
    ensures
        trim_end(s).len() > 0,
        trim_end(s)[0] == s[0],
    decreases s.len(),
{
    if white_space(s.last()) {
        assert(s.len() > 1);
        assert(s.drop_last()[0] == s[0]);
        lemma_trim_end_keeps_head(s.drop_last());
    }
}

// ---------------------------------------------------------------------------
// The operations
// ---------------------------------------------------------------------------

/// The characters of a string.
pub fn chars_of(s: &str) -> (r: Vec<char>)
    ensures
        r@ == s@,
{
    let mut out: Vec<char> = Vec::new();
    for c in it: s.chars()
        invariant
            it.seq() == s@,
            out@ == s@.take(it.index()),
    {
        out.push(c);
    }
    out
}

/// The string with the given characters.
pub fn string_of(chars: &[char]) -> (r: String)
    ensures
        r@ == chars@,
{
    let mut out = String::new();
    for i in 0..chars.len()
        invariant
            out@ == chars@.take(i as int),
    {
        out.push(chars[i]);
    }
    assert(chars@.take(chars@.len() as int) == chars@);
    out
}

/// See [`trim`].
pub fn trimmed(s: &[char]) -> (r: &[char])
    ensures
        r@ == trim(s@),
{
    let n = s.len();
    let mut i: usize = 0;
    assert(s@.skip(0) == s@);
    while i < n && s[i].is_whitespace()
        invariant
            i <= n,
            n == s@.len(),
            trim_start(s@.skip(i as int)) == trim_start(s@),
        decreases n - i,
    {
        assert(s@.skip(i as int).skip(1) == s@.skip(i + 1));
        i = i + 1;
    }
    assert(trim_start(s@) == s@.skip(i as int));
    let ghost start = s@.skip(i as int);
    let mut j: usize = n;
    assert(s@.subrange(i as int, n as int) == start);
    while i < j && s[j - 1].is_whitespace()
        invariant
            i <= j <= n,
            n == s@.len(),
            trim_end(s@.subrange(i as int, j as int)) == trim_end(start),
        decreases j,
    {
        assert(s@.subrange(i as int, j as int).drop_last() == s@.subrange(i as int, j - 1));
        j = j - 1;
    }
    slice_subrange(s, i, j)
}

/// See [`strip`].
pub fn stripped(s: &[char], c: char) -> (r: &[char])
    ensures
        r@ == strip(s@, c),
{
    let n = s.len();
    let mut i: usize = 0;
    assert(s@.skip(0) == s@);
    while i < n && s[i] == c
        invariant
            i <= n,
            n == s@.len(),
            strip_start(s@.skip(i as int), c) == strip_start(s@, c),
        decreases n - i,
    {
        assert(s@.skip(i as int).skip(1) == s@.skip(i + 1));
        i = i + 1;
    }
    assert(strip_start(s@, c) == s@.skip(i as int));
    let ghost start = s@.skip(i as int);
    let mut j: usize = n;
    assert(s@.subrange(i as int, n as int) == start);
    while i < j && s[j - 1] == c
        invariant
            i <= j <= n,
            n == s@.len(),
            strip_end(s@.subrange(i as int, j as int), c) == strip_end(start, c),
        decreases j,
    {
        assert(s@.subrange(i as int, j as int).drop_last() == s@.subrange(i as int, j - 1));
        j = j - 1;
    }
    slice_subrange(s, i, j)
}

/// Whether the text is white space only.
pub fn is_blank(s: &[char]) -> (r: bool)
    ensures
        r == blank(s@),
{
    for i in 0..s.len()
        invariant
            forall|j: int| 0 <= j < i ==> white_space(#[trigger] s@[j]),
    {
        if !s[i].is_whitespace() {
            assert(!white_space(s@[i as int]));
            return false;
        }
    }
    true
}

/// See [`find`].
pub fn position(s: &[char], c: char) -> (r: usize)
    ensures
        r == find(s@, c),
        r <= s@.len(),
{
    let mut i: usize = 0;
    while i < s.len() && s[i] != c
        invariant
            i <= s@.len(),
            forall|j: int| 0 <= j < i ==> s@[j] != c,
        decreases s@.len() - i,
    {
        i = i + 1;
    }
    proof {
        lemma_find(s@, c, i as int);
    }
    i
}

/// See [`before`].
pub fn head(s: &[char], c: char) -> (r: &[char])
    ensures
        r@ == before(s@, c),
{
    let i = position(s, c);
    slice_subrange(s, 0, i)
}

/// See [`after`].
pub fn tail(s: &[char], c: char) -> (r: Option<&[char]>)
    ensures
        match r {
            Some(rest) => after(s@, c) == Some(rest@),
            None => after(s@, c) is None,
        },
{
    let i = position(s, c);
    if i < s.len() {
        let rest = slice_subrange(s, i + 1, s.len());
        assert(rest@ == s@.skip(i + 1));
        Some(rest)
    } else {
        None
    }
}

/// See [`lines`].
pub fn split_lines(s: &[char]) -> (r: Vec<&[char]>)
    ensures
        spans(r@) == lines(s@),
{
    let mut out: Vec<&[char]> = Vec::new();
    let mut rest: &[char] = s;
    while rest.len() > 0
        invariant
            spans(out@) + lines(rest@) == lines(s@),
        decreases rest@.len(),
    {
        let ghost before_out = out@;
        let end = position(rest, '\n');
        if end == rest.len() {
            out.push(rest);
            assert(spans(out@) == spans(before_out).push(rest@));
            assert(lines(rest@) == seq![rest@]);
            return out;
        }
        let mut line_end = end;
        if end > 0 && rest[end - 1] == '\r' {
            line_end = end - 1;
        }
        let line = slice_subrange(rest, 0, line_end);
        assert(line@ == without_return(rest@.take(end as int)));
        out.push(line);
        let next = slice_subrange(rest, end + 1, rest.len());
        assert(next@ == rest@.skip(end + 1));
        assert(spans(out@) == spans(before_out).push(line@));
        assert(lines(rest@) == seq![line@] + lines(next@));
        assert(spans(out@) + lines(next@) == spans(before_out) + (seq![line@] + lines(next@)));
        rest = next;
    }
    assert(spans(out@) + lines(rest@) == spans(out@));
    out
}

/// See [`pieces`].
pub fn split_at_each(s: &[char], c: char) -> (r: Vec<&[char]>)
    ensures
        spans(r@) == pieces(s@, c),
{
    let mut out: Vec<&[char]> = Vec::new();
    let mut rest: &[char] = s;
    loop
        invariant
            spans(out@) + pieces(rest@, c) == pieces(s@, c),
        decreases rest@.len(),
    {
        let ghost before_out = out@;
        let end = position(rest, c);
        if end == rest.len() {
            out.push(rest);
            assert(spans(out@) == spans(before_out).push(rest@));
            return out;
        }
        let piece = slice_subrange(rest, 0, end);
        out.push(piece);
        let next = slice_subrange(rest, end + 1, rest.len());
        assert(next@ == rest@.skip(end + 1));
        assert(spans(out@) == spans(before_out).push(piece@));
        assert(spans(out@) + pieces(next@, c) == spans(before_out) + (seq![piece@] + pieces(
            next@,
            c,
        )));
        rest = next;
    }
}

/// See [`words`].
pub fn split_words(s: &[char]) -> (r: Vec<&[char]>)
    ensures
        spans(r@) == words(s@),
{
    let mut out: Vec<&[char]> = Vec::new();
    let mut rest: &[char] = s;
    while rest.len() > 0
        invariant
            spans(out@) + words(rest@) == words(s@),
        decreases rest@.len(),
    {
        let n = rest.len();
        if rest[0].is_whitespace() {
            let next = slice_subrange(rest, 1, n);
            assert(next@ == rest@.skip(1));
            rest = next;
        } else {
            let ghost before_out = out@;
            let mut end: usize = 1;
            while end < n && !rest[end].is_whitespace()
                invariant
                    0 < end <= n,
                    n == rest@.len(),
                    forall|j: int| 0 <= j < end ==> !white_space(#[trigger] rest@[j]),
                decreases n - end,
            {
                end = end + 1;
            }
            proof {
                lemma_find_space(rest@, end as int);
            }
            let word = slice_subrange(rest, 0, end);
            out.push(word);
            let next = slice_subrange(rest, end, n);
            assert(next@ == rest@.skip(end as int));
            assert(spans(out@) == spans(before_out).push(word@));
            assert(end == n ==> word@ == rest@);
            assert(words(rest@) == seq![word@] + words(next@));
            assert(spans(out@) + words(next@) == spans(before_out) + (seq![word@] + words(next@)));
            rest = next;
        }
    }
    assert(spans(out@) + words(rest@) == spans(out@));
    out
}

/// See [`occurs_at`].
fn stands_at(s: &[char], part: &[char], at: usize) -> (r: bool)
    requires
        at <= s@.len(),
    ensures
        r == occurs_at(s@, part@, at as int),
{
    if part.len() > s.len() - at {
        return false;
    }
    for k in 0..part.len()
        invariant
            at + part@.len() <= s.len(),
            forall|j: int| 0 <= j < k ==> s@[at + j] == part@[j],
    {
        if s[at + k] != part[k] {
            assert(s@.subrange(at as int, at + part@.len())[k as int] != part@[k as int]);
            return false;
        }
    }
    assert(s@.subrange(at as int, at + part@.len()) =~= part@);
    true
}

/// Whether the text holds the given word.
pub fn holds(s: &[char], part: &str) -> (r: bool)
    ensures
        r == contains(s@, part@),
{
    let wanted = chars_of(part);
    for i in 0..s.len()
        invariant
            wanted@ == part@,
            forall|j: int| 0 <= j < i ==> !occurs_at(s@, part@, j),
    {
        if stands_at(s, wanted.as_slice(), i) {
            return true;
        }
    }
    stands_at(s, wanted.as_slice(), s.len())
}

/// See [`place_of`].
pub fn place(s: &[char], part: &str) -> (r: usize)
    ensures
        r == place_of(s@, part@),
        r <= s@.len(),
{
    let wanted = chars_of(part);
    let mut i: usize = 0;
    while i < s.len() && !stands_at(s, wanted.as_slice(), i)
        invariant
            i <= s@.len(),
            wanted@ == part@,
            forall|j: int| 0 <= j < i ==> !occurs_at(s@, part@, j),
        decreases s@.len() - i,
    {
        i = i + 1;
    }
    proof {
        lemma_place(s@, part@, i as int);
    }
    i
}

/// Whether the text begins with the given word.
pub fn begins(s: &[char], part: &str) -> (r: bool)
    ensures
        r == starts_with(s@, part@),
{
    let wanted = chars_of(part);
    stands_at(s, wanted.as_slice(), 0)
}

/// The strings with the texts of the given words.
pub fn strings_of(list: &[&str]) -> (r: Vec<String>)
    ensures
        texts(r@) == words_of(list@),
{
    let mut out: Vec<String> = Vec::new();
    for i in 0..list.len()
        invariant
            texts(out@) == words_of(list@).take(i as int),
    {
        let ghost before_out = out@;
        out.push(list[i].to_owned());
        assert(texts(out@) == texts(before_out).push(list@[i as int]@));
        assert(words_of(list@).take(i + 1) == words_of(list@).take(i as int).push(list@[i as int]@));
    }
    assert(words_of(list@).take(list@.len() as int) == words_of(list@));
    out
}

/// The same strings once more.
pub fn copy_strings(list: &[String]) -> (r: Vec<String>)
    ensures
        texts(r@) == texts(list@),
{
    let mut out: Vec<String> = Vec::new();
    for i in 0..list.len()
        invariant
            texts(out@) == texts(list@).take(i as int),
    {
        let ghost before_out = out@;
        out.push(list[i].clone());
        assert(texts(out@) == texts(before_out).push(list@[i as int]@));
        assert(texts(list@).take(i + 1) == texts(list@).take(i as int).push(list@[i as int]@));
    }
    assert(texts(list@).take(list@.len() as int) == texts(list@));
    out
}

/// See [`join`].
pub fn joined(list: &[String], separator: &str) -> (r: String)
    ensures
        r@ == join(texts(list@), separator@),
{
    let mut out = String::new();
    let ghost all = texts(list@);
    assert(join(all.take(0), separator@) =~= Seq::<char>::empty());
    for i in 0..list.len()
        invariant
            all == texts(list@),
            out@ == join(all.take(i as int), separator@),
    {
        assert(all.take(i + 1).drop_last() =~= all.take(i as int));
        assert(all.take(i + 1).last() == list@[i as int]@);
        if i > 0 {
            out.append(separator);
        }
        out.append(list[i].as_str());
        assert(i == 0 ==> out@ =~= list@[0]@);
    }
    assert(all.take(all.len() as int) =~= all);
    out
}

// ---------------------------------------------------------------------------
// Laws
// ---------------------------------------------------------------------------

/// Trimming takes white space off both ends, all of it and nothing else: what is
/// left is a part of the text that neither begins nor ends with white space, and
/// what was around it is white space.
pub proof fn trimming_takes_white_space_only(s: Seq<char>)
    ensures
        exists|i: int, j: int|
            {
                &&& 0 <= i <= j <= s.len()
                &&& #[trigger] s.subrange(i, j) == trim(s)
                &&& forall|k: int| 0 <= k < i ==> white_space(#[trigger] s[k])
                &&& forall|k: int| j <= k < s.len() ==> white_space(#[trigger] s[k])
                &&& i < j ==> !white_space(s[i]) && !white_space(s[j - 1])
            },
{
    lemma_trim_start_place(s);
    let i = s.len() - trim_start(s).len();
    let rest = trim_start(s);
    lemma_trim_end_place(rest);
    let j = i + trim(s).len();
    assert(s.subrange(i, j) =~= trim(s));
    assert forall|k: int| j <= k < s.len() implies white_space(#[trigger] s[k]) by {
        assert(rest[k - i] == s[k]);
    }
    if i < j {
        assert(trim(s)[0] == s[i]);
        assert(trim(s).last() == s[j - 1]);
        assert(rest[0] == s[i]);
    }
}

proof fn lemma_trim_start_place(s: Seq<char>)
    ensures
        ({
            let i = s.len() - trim_start(s).len();
            &&& 0 <= i <= s.len()
            &&& trim_start(s) == s.skip(i)
            &&& forall|k: int| 0 <= k < i ==> white_space(#[trigger] s[k])
            &&& trim_start(s).len() > 0 ==> !white_space(trim_start(s)[0])
        }),
    decreases s.len(),
{
    if s.len() > 0 && white_space(s[0]) {
        let rest = s.skip(1);
        lemma_trim_start_place(rest);
        let i = s.len() - trim_start(s).len();
        assert(rest.skip(i - 1) =~= s.skip(i));
        assert forall|k: int| 0 <= k < i implies white_space(#[trigger] s[k]) by {
            if k > 0 {
                assert(rest[k - 1] == s[k]);
            }
        }
    } else {
        assert(s.skip(0) =~= s);
    }
}

proof fn lemma_trim_end_place(s: Seq<char>)
    ensures
        ({
            let j = trim_end(s).len() as int;
            &&& j <= s.len()
            &&& trim_end(s) == s.take(j)
            &&& forall|k: int| j <= k < s.len() ==> white_space(#[trigger] s[k])
            &&& j > 0 ==> !white_space(trim_end(s).last())
        }),
    decreases s.len(),
{
    if s.len() > 0 && white_space(s.last()) {
        let rest = s.drop_last();
        lemma_trim_end_place(rest);
        let j = trim_end(s).len() as int;
        assert(rest.take(j) =~= s.take(j));
        assert forall|k: int| j <= k < s.len() implies white_space(#[trigger] s[k]) by {
            if k < rest.len() {
                assert(rest[k] == s[k]);
            }
        }
    } else {
        assert(s.take(s.len() as int) =~= s);
    }
}

/// Stripping a text that is wrapped in a character, and has it at neither end
/// itself, gives the text back.
pub proof fn stripping_unwraps(s: Seq<char>, c: char)
    requires
        s.len() > 0 ==> s[0] != c && s.last() != c,
    ensures
        strip(s, c) == s,
        strip(seq![c] + s + seq![c], c) == s,
{
    let wrapped = seq![c] + s + seq![c];
    let inner = s + seq![c];
    assert(wrapped.skip(1) =~= inner);
    assert(strip_start(wrapped, c) == strip_start(inner, c));
    if s.len() > 0 {
        assert(inner[0] == s[0]);
        assert(strip_start(inner, c) == inner);
        assert(inner.drop_last() =~= s);
        assert(strip_end(inner, c) == strip_end(s, c));
    } else {
        assert(inner.skip(1) =~= Seq::<char>::empty());
        assert(strip_start(inner, c) == strip_start(Seq::<char>::empty(), c));
        assert(strip(wrapped, c) =~= s);
    }
}

/// A text is cut at the first place of a character: what stands before it, the
/// character, and what stands behind it.
pub proof fn text_is_cut_at_the_first_place(lead: Seq<char>, c: char, rest: Seq<char>)
    requires
        !lead.contains(c),
    ensures
        before(lead + seq![c] + rest, c) == lead,
        after(lead + seq![c] + rest, c) == Some(rest),
        before(lead, c) == lead,
        after(lead, c) is None,
{
    lemma_cut(lead, c, rest);
    lemma_uncut(lead, c);
    let s = lead + seq![c] + rest;
    assert(s.take(lead.len() as int) =~= lead);
    assert(s.skip(lead.len() as int + 1) =~= rest);
    assert(lead.take(lead.len() as int) =~= lead);
}

proof fn lemma_cut(lead: Seq<char>, c: char, rest: Seq<char>)
    requires
        !lead.contains(c),
    ensures
        find(lead + seq![c] + rest, c) == lead.len(),
{
    let s = lead + seq![c] + rest;
    assert forall|j: int| 0 <= j < lead.len() implies s[j] != c by {
        assert(s[j] == lead[j]);
        assert(lead.contains(lead[j]));
    }
    assert(s[lead.len() as int] == c);
    lemma_find(s, c, lead.len() as int);
}

proof fn lemma_uncut(s: Seq<char>, c: char)
    requires
        !s.contains(c),
    ensures
        find(s, c) == s.len(),
{
    assert forall|j: int| 0 <= j < s.len() implies s[j] != c by {
        assert(s.contains(s[j]));
    }
    lemma_find(s, c, s.len() as int);
}

/// Lines are read off one by one: up to a line feed, or a carriage return and a
/// line feed. What has no line feed is the last line, unless it is empty.
pub proof fn lines_are_read_off(row: Seq<char>, rest: Seq<char>)
    requires
        !row.contains('\n'),
    ensures
        row.len() == 0 || row.last() != '\r' ==> lines(row + seq!['\n'] + rest) == seq![row] + lines(
            rest,
        ),
        lines(row + seq!['\r', '\n'] + rest) == seq![row] + lines(rest),
        row.len() > 0 ==> lines(row) == seq![row],
        lines(Seq::empty()) == Seq::<Seq<char>>::empty(),
{
    lemma_cut(row, '\n', rest);
    let s = row + seq!['\n'] + rest;
    assert(s.take(row.len() as int) =~= row);
    assert(s.skip(row.len() as int + 1) =~= rest);
    let returned = row + seq!['\r'];
    assert(!returned.contains('\n')) by {
        if returned.contains('\n') {
            let k = choose|k: int| 0 <= k < returned.len() && returned[k] == '\n';
            assert(row.contains(row[k]));
        }
    }
    lemma_cut(returned, '\n', rest);
    let t = row + seq!['\r', '\n'] + rest;
    assert(t =~= returned + seq!['\n'] + rest);
    assert(t.take(returned.len() as int) =~= returned);
    assert(t.skip(returned.len() as int + 1) =~= rest);
    assert(returned.drop_last() =~= row);
    lemma_uncut(row, '\n');
}

/// Pieces are read off one by one, up to the separator. What has none is the last
/// piece.
pub proof fn pieces_are_read_off(piece: Seq<char>, c: char, rest: Seq<char>)
    requires
        !piece.contains(c),
    ensures
        pieces(piece + seq![c] + rest, c) == seq![piece] + pieces(rest, c),
        pieces(piece, c) == seq![piece],
{
    lemma_cut(piece, c, rest);
    lemma_uncut(piece, c);
    let s = piece + seq![c] + rest;
    assert(s.take(piece.len() as int) =~= piece);
    assert(s.skip(piece.len() as int + 1) =~= rest);
}

/// Words are read off one by one: white space ahead of a word is passed over, and
/// the next white space ends it.
pub proof fn words_are_read_off(word: Seq<char>, space: char, rest: Seq<char>)
    requires
        word.len() > 0,
        forall|i: int| 0 <= i < word.len() ==> !white_space(#[trigger] word[i]),
        white_space(space),
    ensures
        words(seq![space] + rest) == words(rest),
        words(word + seq![space] + rest) == seq![word] + words(rest),
        words(word) == seq![word],
        words(Seq::empty()) == Seq::<Seq<char>>::empty(),
{
    let tail = seq![space] + rest;
    assert(tail.skip(1) =~= rest);
    assert(words(tail) == words(rest));
    let s = word + seq![space] + rest;
    assert forall|j: int| 0 <= j < word.len() implies !white_space(#[trigger] s[j]) by {
        assert(s[j] == word[j]);
    }
    assert(s[word.len() as int] == space);
    assert(!white_space(word[0]));
    assert(s[0] == word[0]);
    lemma_find_space(s, word.len() as int);
    assert(s.take(word.len() as int) =~= word);
    assert(s.skip(word.len() as int) =~= tail);
    lemma_find_space(word, word.len() as int);
}

/// Joining two lists is joining each, with the separator between.
pub proof fn joining_goes_part_by_part(
    a: Seq<Seq<char>>,
    b: Seq<Seq<char>>,
    separator: Seq<char>,
)
    requires
        a.len() > 0,
        b.len() > 0,
    ensures
        join(a + b, separator) == join(a, separator) + separator + join(b, separator),
        b.len() == 1 ==> join(b, separator) == b[0],
    decreases b.len(),
{
    assert((a + b).drop_last() =~= a + b.drop_last());
    if b.len() == 1 {
        assert(a + b.drop_last() =~= a);
        assert(join(a + b, separator) =~= join(a, separator) + separator + b[0]);
    } else {
        joining_goes_part_by_part(a, b.drop_last(), separator);
        assert(join(a + b, separator) =~= join(a, separator) + separator + join(b, separator));
    }
}

/// A text holds another exactly where it is that text with something around it,
/// and begins with it exactly where it is that text with something behind it.
pub proof fn texts_are_found_where_they_stand(s: Seq<char>, part: Seq<char>)
    ensures
        contains(s, part) <==> exists|lead: Seq<char>, rest: Seq<char>|
            s == #[trigger] (lead + part + rest),
        starts_with(s, part) <==> exists|rest: Seq<char>| s == #[trigger] (part + rest),
{
    if contains(s, part) {
        let i = choose|i: int| occurs_at(s, part, i);
        let lead = s.take(i);
        let rest = s.skip(i + part.len());
        assert(s =~= lead + part + rest) by {
            assert(s =~= lead + s.subrange(i, i + part.len()) + rest);
        }
    }
    if exists|lead: Seq<char>, rest: Seq<char>| s == #[trigger] (lead + part + rest) {
        let (lead, rest) = choose|lead: Seq<char>, rest: Seq<char>|
            s == #[trigger] (lead + part + rest);
        let i = lead.len() as int;
        assert(s.subrange(i, i + part.len()) =~= part);
        assert(occurs_at(s, part, i));
    }
    if starts_with(s, part) {
        let rest = s.skip(part.len() as int);
        assert(s =~= part + rest) by {
            assert(s =~= s.subrange(0, part.len() as int) + rest);
        }
    }
    if exists|rest: Seq<char>| s == #[trigger] (part + rest) {
        let rest = choose|rest: Seq<char>| s == #[trigger] (part + rest);
        assert(s.subrange(0, part.len() as int) =~= part);
    }
}

/// The place of a part is the first one: the part stands there, and nowhere before.
pub proof fn first_place_counts(s: Seq<char>, part: Seq<char>, i: int)
    requires
        contains(s, part),
    ensures
        occurs_at(s, part, place_of(s, part) as int),
        0 <= i < place_of(s, part) ==> !occurs_at(s, part, i),
    decreases s.len(),
{
    lemma_place_of(s, part);
    if 0 <= i < place_of(s, part) {
        if i > 0 && s.len() > 0 {
            let at = place_of(s, part) as int;
            assert(!starts_with(s, part));
            lemma_occurs_behind(s, part, at - 1);
            assert(contains(s.skip(1), part));
            first_place_counts(s.skip(1), part, i - 1);
            lemma_occurs_behind(s, part, i - 1);
        }
    }
}

} // verus!
