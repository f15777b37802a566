//! Cutting the output of `pw-dump --monitor` into updates.
//!
//! The program prints one JSON array after the other, each beginning with a line
//! that holds nothing but the opening bracket. What stands within an array is
//! indented.

use crate::text::{chars_of, join, string_of, trim, trimmed};
use vstd::prelude::*;

verus! {

/// Where a place in a JSON text stands.
#[derive(Debug, Clone, Copy, PartialEq, Eq, Structural)]
pub enum Place {
    /// Outside of strings.
    Outside,
    /// Within a string.
    Inside,
    /// Within a string, behind a backslash: the next character is taken as it
    /// is.
    Escaped,
}

/// The place behind one more character.
pub open spec fn moved(place: Place, c: char) -> Place {
    match place {
        Place::Outside => if c == '"' {
            Place::Inside
        } else {
            Place::Outside
        },
        Place::Inside => if c == '"' {
            Place::Outside
        } else if c == '\\' {
            Place::Escaped
        } else {
            Place::Inside
        },
        Place::Escaped => Place::Inside,
    }
}

/// Where the end of a text stands.
pub open spec fn place_after(s: Seq<char>) -> Place
    decreases s.len(),
{
    if s.len() == 0 {
        Place::Outside
    } else {
        moved(place_after(s.drop_last()), s.last())
    }
}

/// How a character changes the depth of brackets: one within a string does not.
pub open spec fn weight(place: Place, c: char) -> int {
    if place != Place::Outside {
        0
    } else if c == '[' {
        1
    } else if c == ']' {
        -1
    } else {
        0
    }
}

/// How many more brackets a text opens than it closes, outside of strings.
pub open spec fn balance(s: Seq<char>) -> int
    decreases s.len(),
{
    if s.len() == 0 {
        0
    } else {
        balance(s.drop_last()) + weight(place_after(s.drop_last()), s.last())
    }
}

/// The reader of updates as a mathematical value.
#[verifier::ext_equal]
pub ghost struct FrameModel {
    /// Whether an update has begun and not ended.
    pub open: bool,
    /// The text of the update so far.
    pub text: Seq<char>,
}

/// The reader before the first line.
pub open spec fn frames_start() -> FrameModel {
    FrameModel { open: false, text: seq![] }
}

/// The text of an update with one more line.
pub open spec fn with_line(text: Seq<char>, line: Seq<char>) -> Seq<char> {
    text + seq!['\n'] + line
}

/// Whether a line is a lone bracket.
pub open spec fn is_lone(line: Seq<char>) -> bool {
    trim(line) == "["@
}

/// Whether a line begins an update, whatever is open: a lone bracket without
/// indentation.
pub open spec fn is_opening(line: Seq<char>) -> bool {
    is_lone(line) && line.len() > 0 && line[0] == '['
}

/// Whether a line begins a new update: within an update that is open, a lone
/// bracket that is indented belongs to that update.
pub open spec fn begins_anew(m: FrameModel, line: Seq<char>) -> bool {
    if m.open {
        is_opening(line)
    } else {
        is_lone(line)
    }
}

/// Whether a line completes the update that is open, and which update that is.
pub open spec fn completed(m: FrameModel, line: Seq<char>) -> Option<Seq<char>> {
    let whole = with_line(m.text, trim(line));
    if !begins_anew(m, line) && m.open && balance(whole) == 0 {
        Some(whole)
    } else {
        None
    }
}

/// The reader after one more line. An update ends with the line that closes as
/// many brackets as were opened, those within strings left aside.
pub open spec fn fed(m: FrameModel, line: Seq<char>) -> FrameModel {
    if begins_anew(m, line) {
        FrameModel { open: true, text: "["@ }
    } else if !m.open {
        m
    } else if completed(m, line) is Some {
        FrameModel { open: false, text: seq![] }
    } else {
        FrameModel { open: true, text: with_line(m.text, trim(line)) }
    }
}

/// A text cannot open more brackets than it has characters.
proof fn lemma_balance_bounds(s: Seq<char>)
    ensures
        -s.len() <= balance(s) <= s.len(),
    decreases s.len(),
{
    if s.len() > 0 {
        lemma_balance_bounds(s.drop_last());
    }
}

/// The reader of updates.
#[derive(Debug)]
pub struct FrameReader {
    open: bool,
    text: Vec<char>,
    depth: i128,
    place: Place,
}

impl Place {
    /// See [`moved`].
    fn step(self, c: char) -> (r: Place)
        ensures
            r == moved(self, c),
    {
        match self {
            Place::Outside => if c == '"' {
                Place::Inside
            } else {
                Place::Outside
            },
            Place::Inside => if c == '"' {
                Place::Outside
            } else if c == '\\' {
                Place::Escaped
            } else {
                Place::Inside
            },
            Place::Escaped => Place::Inside,
        }
    }
}

impl View for FrameReader {
    type V = FrameModel;

    closed spec fn view(&self) -> FrameModel {
        FrameModel { open: self.open, text: self.text@ }
    }
}

impl FrameReader {
    /// The depth counts the brackets of the text, and the place is that of its
    /// end.
    #[verifier::type_invariant]
    spec fn counts_brackets(self) -> bool {
        self.depth == balance(self.text@) && self.place == place_after(self.text@)
    }

    /// A reader before the first line.
    pub fn new() -> (r: FrameReader)
        ensures
            r@ == frames_start(),
    {
        FrameReader { open: false, text: Vec::new(), depth: 0, place: Place::Outside }
    }

    /// Takes one more line, and gives the update that it completes, if it does.
    pub fn feed(&mut self, line: &str) -> (r: Option<String>)
        ensures
            final(self)@ == fed(old(self)@, line@),
            match r {
                Some(text) => completed(old(self)@, line@) == Some(text@),
                None => completed(old(self)@, line@) is None,
            },
    {
        proof {
            use_type_invariant(&*self);
        }
        let chars = chars_of(line);
        let row = trimmed(chars.as_slice());
        proof {
            reveal_strlit("[");
        }
        let lone = row.len() == 1 && row[0] == '[';
        assert(lone == is_lone(line@)) by {
            if lone {
                assert(row@ =~= "["@);
            }
            if row@ == "["@ {
                assert(row@.len() == 1 && row@[0] == '[');
            }
        }
        if lone && (!self.open || (chars.len() > 0 && chars[0] == '[')) {
            let text: Vec<char> = vec!['['];
            assert(text@ =~= "["@);
            assert(text@.drop_last() =~= Seq::<char>::empty());
            assert(balance(Seq::<char>::empty()) == 0);
            assert(place_after(Seq::<char>::empty()) == Place::Outside);
            *self = FrameReader { open: true, text, depth: 1, place: Place::Outside };
            return None;
        }
        if !self.open {
            return None;
        }
        let ghost so_far = self.text@;
        let mut taken = FrameReader::new();
        std::mem::swap(self, &mut taken);
        let mut text = taken.text;
        let mut depth = taken.depth;
        let mut place = taken.place.step('\n');
        text.push('\n');
        assert(text@.drop_last() =~= so_far);
        assert(text@ + row@.take(0) =~= text@);
        let ghost base = text@;
        for i in 0..row.len()
            invariant
                text@ == base + row@.take(i as int),
                depth == balance(text@),
                place == place_after(text@),
        {
            proof {
                lemma_balance_bounds(text@);
            }
            let c = row[i];
            let ghost before_text = text@;
            assert(text.len() <= usize::MAX);
            text.push(c);
            assert(text@.drop_last() =~= before_text);
            if place == Place::Outside {
                if c == '[' {
                    depth = depth + 1;
                } else if c == ']' {
                    depth = depth - 1;
                }
            }
            place = place.step(c);
            assert(text@ =~= base + row@.take(i + 1));
        }
        assert(row@.take(row@.len() as int) =~= row@);
        assert(text@ =~= with_line(so_far, row@));
        if depth == 0 {
            Some(string_of(text.as_slice()))
        } else {
            *self = FrameReader { open: true, text, depth, place };
            None
        }
    }
}

// ---------------------------------------------------------------------------
// Laws
// ---------------------------------------------------------------------------

/// The reader after some lines.
pub open spec fn fed_all(m: FrameModel, rows: Seq<Seq<char>>) -> FrameModel
    decreases rows.len(),
{
    if rows.len() == 0 {
        m
    } else {
        fed(fed_all(m, rows.drop_last()), rows.last())
    }
}

/// The text of an update: the opening bracket, and below it the trimmed lines.
pub open spec fn update_text(rows: Seq<Seq<char>>) -> Seq<char>
    decreases rows.len(),
{
    if rows.len() == 0 {
        "["@
    } else {
        with_line(update_text(rows.drop_last()), trim(rows.last()))
    }
}

/// Whether some lines below an opening bracket leave the update open: none of them
/// begins another, and at no line is every bracket closed.
pub open spec fn stays_open(rows: Seq<Seq<char>>) -> bool {
    &&& forall|i: int| 0 <= i < rows.len() ==> !is_opening(#[trigger] rows[i])
    &&& forall|k: int| 0 <= k <= rows.len() ==> balance(update_text(#[trigger] rows.take(k))) != 0
}

/// Whether some lines are those of one update below its opening bracket: the last
/// of them is the first with which every bracket is closed.
pub open spec fn is_update(rows: Seq<Seq<char>>) -> bool {
    &&& rows.len() > 0
    &&& stays_open(rows.drop_last())
    &&& !is_opening(rows.last())
    &&& balance(update_text(rows)) == 0
}

/// The updates that the reader gives back in the course of some lines, in order.
pub open spec fn frames_of(m: FrameModel, rows: Seq<Seq<char>>) -> Seq<Seq<char>>
    decreases rows.len(),
{
    if rows.len() == 0 {
        seq![]
    } else {
        let earlier = frames_of(m, rows.drop_last());
        match completed(fed_all(m, rows.drop_last()), rows.last()) {
            Some(text) => earlier.push(text),
            None => earlier,
        }
    }
}

/// An update that is printed line by line is given back as a whole, at its last
/// line and not before. Where its opening bracket is not indented, this holds
/// whatever was read ahead of it. The reader is then ready for the next one.
pub proof fn update_is_read_whole(m: FrameModel, first: Seq<char>, rows: Seq<Seq<char>>)
    requires
        begins_anew(m, first),
        is_update(rows),
    ensures
        completed(m, first) is None,
        frames_of(fed(m, first), rows.drop_last()) == Seq::<Seq<char>>::empty(),
        frames_of(fed(m, first), rows) == seq![update_text(rows)],
        fed_all(fed(m, first), rows) == frames_start(),
{
    lemma_stays_open(m, first, rows.drop_last());
    assert(frames_of(fed(m, first), rows) =~= seq![update_text(rows)]);
}

/// What the reader holds in the middle of an update.
proof fn lemma_stays_open(m: FrameModel, first: Seq<char>, rows: Seq<Seq<char>>)
    requires
        begins_anew(m, first),
        stays_open(rows),
    ensures
        fed_all(fed(m, first), rows) == (FrameModel { open: true, text: update_text(rows) }),
        frames_of(fed(m, first), rows) == Seq::<Seq<char>>::empty(),
    decreases rows.len(),
{
    if rows.len() > 0 {
        let shorter = rows.drop_last();
        assert(stays_open(shorter)) by {
            assert forall|i: int| 0 <= i < shorter.len() implies !is_opening(
                #[trigger] shorter[i],
            ) by {
                assert(shorter[i] == rows[i]);
            }
            assert forall|k: int| 0 <= k <= shorter.len() implies balance(
                update_text(#[trigger] shorter.take(k)),
            ) != 0 by {
                assert(shorter.take(k) =~= rows.take(k));
            }
        }
        lemma_stays_open(m, first, shorter);
        assert(!is_opening(rows[rows.len() - 1]));
        assert(rows.take(rows.len() as int) =~= rows);
    }
}

/// Between two updates a line changes nothing, unless it is a lone bracket.
pub proof fn nothing_is_read_between_updates(m: FrameModel, line: Seq<char>)
    requires
        !m.open,
        !is_lone(line),
    ensures
        fed(m, line) == m,
        completed(m, line) is None,
{
}

/// Whether some lines are an array: an opening bracket and an update below it.
pub open spec fn is_array(rows: Seq<Seq<char>>) -> bool {
    rows.len() > 0 && is_lone(rows[0]) && is_update(rows.skip(1))
}

/// Whether some lines are the beginning of an array at most.
pub open spec fn is_unfinished(rows: Seq<Seq<char>>) -> bool {
    rows.len() > 0 ==> is_lone(rows[0]) && stays_open(rows.skip(1))
}

/// The lines of some arrays, one after the other.
pub open spec fn array_rows(arrays: Seq<Seq<Seq<char>>>) -> Seq<Seq<char>>
    decreases arrays.len(),
{
    if arrays.len() == 0 {
        seq![]
    } else {
        array_rows(arrays.drop_last()) + arrays.last()
    }
}

/// The texts of some arrays.
pub open spec fn array_texts(arrays: Seq<Seq<Seq<char>>>) -> Seq<Seq<char>> {
    arrays.map_values(|rows: Seq<Seq<char>>| update_text(rows.skip(1)))
}

/// A whole output of several arrays is cut into these arrays: each is given back
/// once, in order. One that is unfinished at the end has no effect.
pub proof fn output_is_cut_into_its_arrays(
    m: FrameModel,
    arrays: Seq<Seq<Seq<char>>>,
    rest: Seq<Seq<char>>,
)
    requires
        !m.open,
        forall|i: int| 0 <= i < arrays.len() ==> is_array(#[trigger] arrays[i]),
        is_unfinished(rest),
    ensures
        frames_of(m, array_rows(arrays) + rest) == array_texts(arrays),
{
    lemma_arrays(m, arrays);
    lemma_frames_add(m, array_rows(arrays), rest);
    let then = fed_all(m, array_rows(arrays));
    assert(frames_of(then, rest) =~= Seq::<Seq<char>>::empty()) by {
        if rest.len() > 0 {
            lemma_stays_open(then, rest[0], rest.skip(1));
            lemma_first_row(then, rest);
        }
    }
    assert(array_texts(arrays) + Seq::<Seq<char>>::empty() =~= array_texts(arrays));
}

proof fn lemma_arrays(m: FrameModel, arrays: Seq<Seq<Seq<char>>>)
    requires
        !m.open,
        forall|i: int| 0 <= i < arrays.len() ==> is_array(#[trigger] arrays[i]),
    ensures
        frames_of(m, array_rows(arrays)) == array_texts(arrays),
        !fed_all(m, array_rows(arrays)).open,
    decreases arrays.len(),
{
    if arrays.len() == 0 {
        assert(array_texts(arrays) =~= Seq::<Seq<char>>::empty());
    } else {
        let shorter = arrays.drop_last();
        let last = arrays.last();
        assert forall|i: int| 0 <= i < shorter.len() implies is_array(#[trigger] shorter[i]) by {
            assert(shorter[i] == arrays[i]);
        }
        lemma_arrays(m, shorter);
        let then = fed_all(m, array_rows(shorter));
        assert(is_array(arrays[arrays.len() - 1]));
        lemma_frames_add(m, array_rows(shorter), last);
        lemma_first_row(then, last);
        update_is_read_whole(then, last[0], last.skip(1));
        assert(array_texts(arrays) =~= array_texts(shorter) + seq![update_text(last.skip(1))]);
    }
}

/// The first of some lines is read ahead of the others. Where it begins an update,
/// it completes nothing.
proof fn lemma_first_row(m: FrameModel, rows: Seq<Seq<char>>)
    requires
        rows.len() > 0,
        begins_anew(m, rows[0]),
    ensures
        fed_all(m, rows) == fed_all(fed(m, rows[0]), rows.skip(1)),
        frames_of(m, rows) == frames_of(fed(m, rows[0]), rows.skip(1)),
{
    let first = seq![rows[0]];
    lemma_frames_add(m, first, rows.skip(1));
    assert(first + rows.skip(1) =~= rows);
    assert(first.drop_last() =~= Seq::<Seq<char>>::empty());
    assert(fed_all(m, Seq::<Seq<char>>::empty()) == m);
    assert(frames_of(m, Seq::<Seq<char>>::empty()) =~= Seq::<Seq<char>>::empty());
    assert(fed_all(m, first) == fed(m, rows[0]));
    assert(frames_of(m, first) =~= Seq::<Seq<char>>::empty());
    assert(frames_of(m, rows) =~= frames_of(fed(m, rows[0]), rows.skip(1)));
}

/// Lines are read one part after the other.
proof fn lemma_frames_add(m: FrameModel, a: Seq<Seq<char>>, b: Seq<Seq<char>>)
    ensures
        fed_all(m, a + b) == fed_all(fed_all(m, a), b),
        frames_of(m, a + b) == frames_of(m, a) + frames_of(fed_all(m, a), b),
    decreases b.len(),
{
    if b.len() == 0 {
        assert(a + b =~= a);
        assert(frames_of(m, a) + frames_of(fed_all(m, a), b) =~= frames_of(m, a));
    } else {
        assert((a + b).drop_last() =~= a + b.drop_last());
        lemma_frames_add(m, a, b.drop_last());
        assert(frames_of(m, a + b) =~= frames_of(m, a) + frames_of(fed_all(m, a), b));
    }
}

/// A lone bracket that is indented does not break the update that it stands in.
pub proof fn indented_bracket_belongs_to_its_update(m: FrameModel, line: Seq<char>)
    requires
        m.open,
        is_lone(line),
        line[0] != '[',
        balance(with_line(m.text, "["@)) != 0,
    ensures
        fed(m, line) == (FrameModel { open: true, text: with_line(m.text, "["@) }),
{
}

/// A bracket within a string changes no depth.
pub proof fn brackets_in_strings_do_not_count(lead: Seq<char>, c: char)
    requires
        place_after(lead) != Place::Outside,
    ensures
        balance(lead.push(c)) == balance(lead),
{
    assert(lead.push(c).drop_last() =~= lead);
}

/// The text of an update is all of its lines, trimmed, with line feeds between,
/// below the opening bracket.
pub proof fn update_is_its_lines_joined(rows: Seq<Seq<char>>)
    ensures
        update_text(rows) == join(
            seq!["["@] + rows.map_values(|row: Seq<char>| trim(row)),
            seq!['\n'],
        ),
    decreases rows.len(),
{
    let f = |row: Seq<char>| trim(row);
    let all = seq!["["@] + rows.map_values(f);
    if rows.len() == 0 {
        assert(all =~= seq!["["@]);
    } else {
        let shorter = rows.drop_last();
        update_is_its_lines_joined(shorter);
        assert(all.drop_last() =~= seq!["["@] + shorter.map_values(f));
        assert(all.last() == trim(rows.last()));
    }
}

/// Brackets add up over the parts of a text, as long as the cut is outside of
/// strings. A single bracket counts one, up or down, and any other character
/// nothing.
pub proof fn brackets_add_up(a: Seq<char>, b: Seq<char>, c: char)
    requires
        place_after(a) == Place::Outside,
    ensures
        balance(a + b) == balance(a) + balance(b),
        place_after(a + b) == place_after(b),
        balance(a.push(c)) == balance(a) + if c == '[' {
            1int
        } else if c == ']' {
            -1
        } else {
            0
        },
    decreases b.len(),
{
    assert(a.push(c).drop_last() =~= a);
    if b.len() == 0 {
        assert(a + b =~= a);
    } else {
        assert((a + b).drop_last() =~= a + b.drop_last());
        brackets_add_up(a, b.drop_last(), c);
    }
}

/// A string counts for nothing, whatever stands in it, and the text behind it is
/// outside again. Within it, a backslash takes the next character as it is.
pub proof fn strings_count_for_nothing(a: Seq<char>, body: Seq<char>, c: char)
    requires
        place_after(a) == Place::Outside,
        !body.contains('"'),
        !body.contains('\\'),
    ensures
        ({
            let open = a + seq!['"'] + body;
            &&& place_after(open) == Place::Inside
            &&& balance(open) == balance(a)
            &&& place_after(open.push('"')) == Place::Outside
            &&& balance(open.push('"')) == balance(a)
            &&& place_after(open.push('\\').push(c)) == Place::Inside
            &&& balance(open.push('\\').push(c)) == balance(a)
        }),
    decreases body.len(),
{
    let open = a + seq!['"'] + body;
    if body.len() == 0 {
        assert(open.drop_last() =~= a);
        assert(open.last() == '"');
    } else {
        let shorter = body.drop_last();
        assert(!shorter.contains('"') && !shorter.contains('\\')) by {
            if shorter.contains('"') {
                let k = choose|k: int| 0 <= k < shorter.len() && shorter[k] == '"';
                assert(body[k] == '"');
            }
            if shorter.contains('\\') {
                let k = choose|k: int| 0 <= k < shorter.len() && shorter[k] == '\\';
                assert(body[k] == '\\');
            }
        }
        strings_count_for_nothing(a, shorter, c);
        assert(open.drop_last() =~= a + seq!['"'] + shorter);
        assert(open.last() == body.last());
        assert(body.contains(body[body.len() - 1]));
    }
    assert(open.push('"').drop_last() =~= open);
    let escaped = open.push('\\');
    assert(escaped.drop_last() =~= open);
    assert(place_after(escaped) == Place::Escaped);
    assert(balance(escaped) == balance(open));
    assert(escaped.push(c).drop_last() =~= escaped);
}

/// A line begins a new update exactly where it is a bracket with nothing but white
/// space around it, and no update is open or the bracket is not indented.
pub proof fn lone_brackets_begin_updates(m: FrameModel, line: Seq<char>)
    ensures
        begins_anew(m, line) <==> trim(line) == "["@ && (!m.open || (line.len() > 0 && line[0]
            == '[')),
        begins_anew(m, line) ==> fed(m, line) == (FrameModel { open: true, text: "["@ }),
{
}

} // verus!
