//! Asking the user which applications to share the audio of.

use crate::audio::{
    node_names, source_name, source_names, sources_are_the_playing_applications, AudioNode,
};
use crate::text::{
    before, blank, chars_of, find, is_blank, join, lemma_find, lemma_find_bounds, lemma_trim_blank,
    lines, pieces, position, spans, split_at_each, string_of, strings_of, tail, texts, trim,
    trim_end, trim_start, trimmed, white_space, without_return,
};
use vstd::prelude::*;
use vstd::slice::slice_subrange;

verus! {

// ---------------------------------------------------------------------------
// What the dialogs print
// ---------------------------------------------------------------------------

/// The texts between quotation marks: between the first mark and the second,
/// the third and the fourth, and so on. A mark that no other closes opens
/// nothing.
pub open spec fn quoted(s: Seq<char>) -> Seq<Seq<char>>
    decreases s.len(),
{
    let open = find(s, '"');
    if open < s.len() {
        let rest = s.skip(open as int + 1);
        let close = find(rest, '"');
        if close < rest.len() {
            seq![rest.take(close as int)] + quoted(rest.skip(close as int + 1))
        } else {
            seq![]
        }
    } else {
        seq![]
    }
}

/// Those of some texts that are not white space only.
pub open spec fn filled(items: Seq<Seq<char>>) -> Seq<Seq<char>> {
    items.filter(|item: Seq<char>| !blank(item))
}

/// A line of a plain answer, trimmed, if it says anything.
pub open spec fn plain_item(line: Seq<char>) -> Option<Seq<char>> {
    if trim(line).len() > 0 {
        Some(trim(line))
    } else {
        None
    }
}

/// The lines of a plain answer.
pub open spec fn plain_items(rows: Seq<Seq<char>>) -> Seq<Seq<char>> {
    rows.filter_map(|line: Seq<char>| plain_item(line))
}

/// The choice of a user, if it is one: an empty choice is none.
pub open spec fn some_choice(items: Seq<Seq<char>>) -> Option<Seq<Seq<char>>> {
    if items.len() > 0 {
        Some(items)
    } else {
        None
    }
}

/// The choice that `kdialog` prints: the quoted names, or the lines where
/// nothing is quoted. A single quotation mark quotes nothing.
pub open spec fn kdialog_choice(printed: Seq<char>) -> Option<Seq<Seq<char>>> {
    if quoted(printed).len() > 0 {
        some_choice(filled(quoted(printed)))
    } else {
        some_choice(plain_items(pieces(trim(printed), '\n')))
    }
}

/// The choice that `zenity` prints: the lines.
pub open spec fn zenity_choice(printed: Seq<char>) -> Option<Seq<Seq<char>>> {
    some_choice(plain_items(pieces(trim(printed), '\n')))
}

/// The texts of a choice.
pub open spec fn choice_texts(choice: Option<Vec<String>>) -> Option<Seq<Seq<char>>> {
    match choice {
        Some(items) => Some(texts(items@)),
        None => None,
    }
}

/// The filled ones of the quoted texts.
fn quoted_names(s: &[char]) -> (r: Vec<String>)
    ensures
        texts(r@) == filled(quoted(s@)),
{
    let mut out: Vec<String> = Vec::new();
    let mut rest: &[char] = s;
    let ghost keep = |item: Seq<char>| !blank(item);
    let ghost mut seen: Seq<Seq<char>> = seq![];
    assert(seen + quoted(rest@) =~= quoted(s@));
    assert(filled(seen) =~= Seq::<Seq<char>>::empty());
    loop
        invariant
            seen + quoted(rest@) == quoted(s@),
            texts(out@) == filled(seen),
            keep == (|item: Seq<char>| !blank(item)),
        decreases rest@.len(),
    {
        let open = position(rest, '"');
        if open == rest.len() {
            assert(seen + quoted(rest@) =~= seen);
            return out;
        }
        let body = slice_subrange(rest, open + 1, rest.len());
        assert(body@ == rest@.skip(open + 1));
        let close = position(body, '"');
        if close == body.len() {
            assert(seen + quoted(rest@) =~= seen);
            return out;
        }
        let name = slice_subrange(body, 0, close);
        let next = slice_subrange(body, close + 1, body.len());
        assert(next@ == body@.skip(close + 1));
        assert(name@ == body@.take(close as int));
        assert(quoted(rest@) == seq![name@] + quoted(next@));
        proof {
            seen.lemma_filter_push(name@, keep);
        }
        let ghost old_out = out@;
        if !is_blank(name) {
            out.push(string_of(name));
            assert(texts(out@) =~= texts(old_out).push(name@));
        }
        assert(seen.push(name@) + quoted(next@) =~= seen + (seq![name@] + quoted(next@)));
        proof {
            seen = seen.push(name@);
        }
        rest = next;
    }
}

/// The lines of a plain answer.
fn plain_names(s: &[char]) -> (r: Vec<String>)
    ensures
        texts(r@) == plain_items(pieces(trim(s@), '\n')),
{
    let rows = split_at_each(trimmed(s), '\n');
    let ghost all = pieces(trim(s@), '\n');
    let mut out: Vec<String> = Vec::new();
    assert(plain_items(all.take(0)) =~= Seq::<Seq<char>>::empty());
    for i in 0..rows.len()
        invariant
            spans(rows@) == all,
            texts(out@) == plain_items(all.take(i as int)),
    {
        let ghost f = |line: Seq<char>| plain_item(line);
        let ghost old_out = out@;
        proof {
            all.lemma_filter_map_take_succ(f, i as int);
            assert(rows@[i as int]@ == all[i as int]);
        }
        let item = trimmed(rows[i]);
        if item.len() > 0 {
            out.push(string_of(item));
            assert(texts(out@) =~= texts(old_out).push(item@));
        }
    }
    assert(all.take(all.len() as int) == all);
    out
}

/// See [`some_choice`].
fn choice_of(items: Vec<String>) -> (r: Option<Vec<String>>)
    ensures
        choice_texts(r) == some_choice(texts(items@)),
{
    assert(texts(items@).len() == items@.len());
    if items.len() > 0 {
        Some(items)
    } else {
        None
    }
}

/// Whether anything is quoted.
fn has_quoted(s: &[char]) -> (r: bool)
    ensures
        r == (quoted(s@).len() > 0),
{
    match tail(s, '"') {
        Some(rest) => position(rest, '"') < rest.len(),
        None => false,
    }
}

/// See [`kdialog_choice`].
pub fn read_kdialog(printed: &str) -> (r: Option<Vec<String>>)
    ensures
        choice_texts(r) == kdialog_choice(printed@),
{
    let chars = chars_of(printed);
    if has_quoted(chars.as_slice()) {
        choice_of(quoted_names(chars.as_slice()))
    } else {
        choice_of(plain_names(chars.as_slice()))
    }
}

/// See [`zenity_choice`].
pub fn read_zenity(printed: &str) -> (r: Option<Vec<String>>)
    ensures
        choice_texts(r) == zenity_choice(printed@),
{
    let chars = chars_of(printed);
    choice_of(plain_names(chars.as_slice()))
}

// ---------------------------------------------------------------------------
// How the dialogs are opened
// ---------------------------------------------------------------------------

/// The entries of a `kdialog` checklist: tag, label and state of each name.
pub open spec fn kdialog_entries(names: Seq<Seq<char>>) -> Seq<Seq<char>>
    decreases names.len(),
{
    if names.len() == 0 {
        seq![]
    } else {
        kdialog_entries(names.drop_last()) + seq![names.last(), names.last(), "on"@]
    }
}

/// Opens a checklist of names, all of them checked.
pub open spec fn kdialog_args(names: Seq<Seq<char>>) -> Seq<Seq<char>> {
    seq![
        "--checklist"@,
        "Screen share detected!\nPlease specify the application audio sources to share."@,
    ] + kdialog_entries(names) + seq!["--title"@, "PipeShare — Audio Link"@]
}

/// The entries of a `zenity` checklist: state and label of each name.
pub open spec fn zenity_entries(names: Seq<Seq<char>>) -> Seq<Seq<char>>
    decreases names.len(),
{
    if names.len() == 0 {
        seq![]
    } else {
        zenity_entries(names.drop_last()) + seq!["TRUE"@, names.last()]
    }
}

/// Opens a checklist of names, all of them checked. The chosen names are to be
/// printed on lines of their own, since a name may hold spaces.
pub open spec fn zenity_args(names: Seq<Seq<char>>) -> Seq<Seq<char>> {
    seq![
        "--list"@,
        "--checklist"@,
        "--title=PipeShare — Audio Link"@,
        "--text=Please select applications to capture:"@,
        "--column="@,
        "--column=Application"@,
        "--separator=\n"@,
    ] + zenity_entries(names)
}

/// See [`kdialog_args`].
pub(crate) fn kdialog_command(nodes: &Vec<AudioNode>) -> (r: Vec<String>)
    ensures
        texts(r@) == kdialog_args(node_names(nodes@)),
{
    let mut out = strings_of(
        &[
            "--checklist",
            "Screen share detected!\nPlease specify the application audio sources to share.",
        ],
    );
    let ghost start = seq![
        "--checklist"@,
        "Screen share detected!\nPlease specify the application audio sources to share."@,
    ];
    let ghost names = node_names(nodes@);
    assert(texts(out@) =~= start);
    assert(start + kdialog_entries(names.take(0)) =~= start);
    for i in 0..nodes.len()
        invariant
            names == node_names(nodes@),
            texts(out@) == start + kdialog_entries(names.take(i as int)),
    {
        let ghost old_out = out@;
        let name = &nodes[i].app_name;
        assert(names[i as int] == name@);
        out.push(name.clone());
        out.push(name.clone());
        out.push("on".to_owned());
        assert(texts(out@) =~= texts(old_out) + seq![name@, name@, "on"@]);
        assert(names.take(i + 1).drop_last() =~= names.take(i as int));
        assert(texts(out@) =~= start + kdialog_entries(names.take(i + 1)));
    }
    assert(names.take(names.len() as int) == names);
    let ghost old_out = out@;
    out.push("--title".to_owned());
    out.push("PipeShare — Audio Link".to_owned());
    assert(texts(out@) =~= texts(old_out) + seq!["--title"@, "PipeShare — Audio Link"@]);
    out
}

/// See [`zenity_args`].
pub(crate) fn zenity_command(nodes: &Vec<AudioNode>) -> (r: Vec<String>)
    ensures
        texts(r@) == zenity_args(node_names(nodes@)),
{
    let mut out = strings_of(
        &[
            "--list",
            "--checklist",
            "--title=PipeShare — Audio Link",
            "--text=Please select applications to capture:",
            "--column=",
            "--column=Application",
            "--separator=\n",
        ],
    );
    let ghost start = seq![
        "--list"@,
        "--checklist"@,
        "--title=PipeShare — Audio Link"@,
        "--text=Please select applications to capture:"@,
        "--column="@,
        "--column=Application"@,
        "--separator=\n"@,
    ];
    let ghost names = node_names(nodes@);
    assert(texts(out@) =~= start);
    assert(start + zenity_entries(names.take(0)) =~= start);
    for i in 0..nodes.len()
        invariant
            names == node_names(nodes@),
            texts(out@) == start + zenity_entries(names.take(i as int)),
    {
        let ghost old_out = out@;
        let name = &nodes[i].app_name;
        assert(names[i as int] == name@);
        out.push("TRUE".to_owned());
        out.push(name.clone());
        assert(texts(out@) =~= texts(old_out) + seq!["TRUE"@, name@]);
        assert(names.take(i + 1).drop_last() =~= names.take(i as int));
        assert(texts(out@) =~= start + zenity_entries(names.take(i + 1)));
    }
    assert(names.take(names.len() as int) == names);
    out
}

/// The arguments of `notify-send` for a message.
pub open spec fn notify_args(title: Seq<char>, body: Seq<char>) -> Seq<Seq<char>> {
    seq!["--app-name=PipeShare"@, "--icon=audio-card"@, "--urgency=normal"@, title, body]
}

/// See [`notify_args`].
pub fn notify_command(title: &str, body: &str) -> (r: Vec<String>)
    ensures
        texts(r@) == notify_args(title@, body@),
{
    strings_of(
        &["--app-name=PipeShare", "--icon=audio-card", "--urgency=normal", title, body],
    )
}

// ---------------------------------------------------------------------------
// Laws
// ---------------------------------------------------------------------------

/// Whether a text can be told apart within quotation marks: it says something
/// and holds no mark itself.
pub open spec fn quotable(name: Seq<char>) -> bool {
    !blank(name) && !name.contains('"')
}

/// A checked list as `kdialog` prints it: each name in quotation marks, with a
/// separator behind it.
pub open spec fn quoted_list(names: Seq<Seq<char>>, separator: Seq<char>) -> Seq<char>
    decreases names.len(),
{
    if names.len() == 0 {
        seq![]
    } else {
        seq!['"'] + names[0] + seq!['"'] + separator + quoted_list(names.skip(1), separator)
    }
}

/// What `kdialog` prints of a choice is read back as that choice, spaces within
/// the names included, whatever stands between and behind the names.
pub proof fn kdialog_choice_reads_back(
    names: Seq<Seq<char>>,
    separator: Seq<char>,
    tail: Seq<char>,
)
    requires
        names.len() > 0,
        forall|i: int| 0 <= i < names.len() ==> quotable(#[trigger] names[i]),
        !separator.contains('"'),
        !tail.contains('"'),
    ensures
        kdialog_choice(quoted_list(names, separator) + tail) == Some(names),
{
    lemma_quoted_list(names, Seq::empty(), separator, tail);
    assert(Seq::<char>::empty() + quoted_list(names, separator) + tail =~= quoted_list(
        names,
        separator,
    ) + tail);
    lemma_filled_all(names);
}

/// Texts none of which is blank are all kept.
proof fn lemma_filled_all(names: Seq<Seq<char>>)
    requires
        forall|i: int| 0 <= i < names.len() ==> !blank(#[trigger] names[i]),
    ensures
        filled(names) == names,
    decreases names.len(),
{
    reveal(Seq::filter);
    if names.len() > 0 {
        lemma_filled_all(names.drop_last());
        assert(filled(names) =~= filled(names.drop_last()).push(names.last()));
    }
}

/// The quoted texts of a printed list, with text before and behind it that
/// holds no quotation mark.
proof fn lemma_quoted_list(
    names: Seq<Seq<char>>,
    lead: Seq<char>,
    separator: Seq<char>,
    tail: Seq<char>,
)
    requires
        forall|i: int| 0 <= i < names.len() ==> quotable(#[trigger] names[i]),
        !lead.contains('"'),
        !separator.contains('"'),
        !tail.contains('"'),
    ensures
        quoted(lead + quoted_list(names, separator) + tail) == names,
    decreases names.len(),
{
    let s = lead + quoted_list(names, separator) + tail;
    if names.len() == 0 {
        assert forall|j: int| 0 <= j < s.len() implies s[j] != '"' by {
            if j < lead.len() {
                assert(s[j] == lead[j]);
            } else {
                assert(s[j] == tail[j - lead.len()]);
            }
        }
        lemma_find(s, '"', s.len() as int);
        assert(quoted(s) =~= names);
    } else {
        let name = names[0];
        let others = names.skip(1);
        let inner = quoted_list(others, separator);
        assert(quotable(names[0]));
        assert(quoted_list(names, separator) == seq!['"'] + name + seq!['"'] + separator + inner);
        let open = lead.len() as int;
        assert(s[open] == '"');
        assert forall|j: int| 0 <= j < open implies s[j] != '"' by {
            assert(s[j] == lead[j]);
        }
        lemma_find(s, '"', open);
        let rest = s.skip(open + 1);
        assert(rest =~= name + seq!['"'] + separator + inner + tail);
        let close = name.len() as int;
        assert forall|j: int| 0 <= j < close implies rest[j] != '"' by {
            assert(rest[j] == name[j]);
        }
        assert(rest[close] == '"');
        lemma_find(rest, '"', close);
        assert(rest.take(close) =~= name);
        assert(rest.skip(close + 1) =~= separator + inner + tail);
        assert forall|i: int| 0 <= i < others.len() implies quotable(#[trigger] others[i]) by {
            assert(others[i] == names[i + 1]);
        }
        lemma_quoted_list(others, separator, separator, tail);
        assert(quoted(s) =~= seq![name] + others);
        assert(seq![name] + others =~= names);
    }
}

/// Whether a text can stand on a line of its own: it says something, has no white
/// space at its ends and no line break within.
pub open spec fn is_row(name: Seq<char>) -> bool {
    &&& name.len() > 0
    &&& !white_space(name[0])
    &&& !white_space(name.last())
    &&& !name.contains('\n')
}

/// What `zenity` prints of a choice, each name on a line, is read back as that
/// choice, spaces within the names included.
pub proof fn zenity_choice_reads_back(names: Seq<Seq<char>>, tail: Seq<char>)
    requires
        names.len() > 0,
        forall|i: int| 0 <= i < names.len() ==> is_row(#[trigger] names[i]),
        blank(tail),
    ensures
        zenity_choice(join(names, "\n"@) + tail) == Some(names),
{
    lemma_joined_rows(names);
    lemma_trim_tail(join(names, "\n"@), tail);
    lemma_plain_rows(names);
}

/// A choice that `kdialog` prints without quoting, each name on a line, is read
/// back too. A single quotation mark in one of the names does no harm.
pub proof fn plain_kdialog_choice_reads_back(names: Seq<Seq<char>>, tail: Seq<char>)
    requires
        names.len() > 0,
        forall|i: int| 0 <= i < names.len() ==> is_row(#[trigger] names[i]),
        blank(tail),
        quoted(join(names, "\n"@) + tail).len() == 0,
    ensures
        kdialog_choice(join(names, "\n"@) + tail) == Some(names),
{
    zenity_choice_reads_back(names, tail);
}

/// Every name that is offered to choose from, unless it is empty, can stand on a
/// line of its own: what the user chooses of it is read back.
pub proof fn offered_names_are_rows(listing: Seq<char>, name: Seq<char>)
    requires
        source_names(listing).contains(name),
        name.len() > 0,
    ensures
        is_row(name),
{
    sources_are_the_playing_applications(listing, name);
    let all = lines(listing);
    let i = choose|i: int| 0 <= i < all.len() && source_name(#[trigger] all[i]) == Some(name);
    lemma_lines_hold_no_break(listing, i);
    let port = trim(all[i]);
    lemma_trim_part(all[i], '\n');
    lemma_find_bounds(port, ':');
    let label = before(port, ':');
    assert(!label.contains('\n')) by {
        if label.contains('\n') {
            let k = choose|k: int| 0 <= k < label.len() && label[k] == '\n';
            assert(port[k] == '\n');
        }
    }
    lemma_trim_part(label, '\n');
}

/// No line of a text holds a line break.
proof fn lemma_lines_hold_no_break(s: Seq<char>, i: int)
    requires
        0 <= i < lines(s).len(),
    ensures
        !lines(s)[i].contains('\n'),
    decreases s.len(),
{
    lemma_find_bounds(s, '\n');
    let end = find(s, '\n') as int;
    if s.len() > 0 && end < s.len() {
        let line = without_return(s.take(end));
        if i == 0 {
            assert(lines(s)[0] == line);
            if line.contains('\n') {
                let k = choose|k: int| 0 <= k < line.len() && line[k] == '\n';
                assert(s[k] == '\n');
            }
        } else {
            assert(lines(s)[i] == lines(s.skip(end + 1))[i - 1]);
            lemma_lines_hold_no_break(s.skip(end + 1), i - 1);
        }
    } else if s.len() > 0 {
        assert(lines(s)[i] == s);
        if s.contains('\n') {
            let k = choose|k: int| 0 <= k < s.len() && s[k] == '\n';
            assert(s[k] == '\n');
        }
    }
}

/// Trimming leaves no white space at the ends, and brings no character in.
proof fn lemma_trim_part(s: Seq<char>, c: char)
    requires
        !s.contains(c),
    ensures
        !trim(s).contains(c),
        trim(s).len() > 0 ==> !white_space(trim(s)[0]) && !white_space(trim(s).last()),
{
    lemma_trim_start_part(s, c);
    lemma_trim_end_part(trim_start(s), c);
}

proof fn lemma_trim_start_part(s: Seq<char>, c: char)
    requires
        !s.contains(c),
    ensures
        !trim_start(s).contains(c),
        trim_start(s).len() > 0 ==> !white_space(trim_start(s)[0]),
    decreases s.len(),
{
    if s.len() > 0 && white_space(s[0]) {
        let rest = s.skip(1);
        if rest.contains(c) {
            let k = choose|k: int| 0 <= k < rest.len() && rest[k] == c;
            assert(s[k + 1] == c);
        }
        lemma_trim_start_part(rest, c);
    }
}

proof fn lemma_trim_end_part(s: Seq<char>, c: char)
    requires
        !s.contains(c),
    ensures
        !trim_end(s).contains(c),
        trim_end(s).len() > 0 ==> trim_end(s)[0] == s[0] && !white_space(trim_end(s).last()),
    decreases s.len(),
{
    if s.len() > 0 && white_space(s.last()) {
        let rest = s.drop_last();
        if rest.contains(c) {
            let k = choose|k: int| 0 <= k < rest.len() && rest[k] == c;
            assert(s[k] == c);
        }
        lemma_trim_end_part(rest, c);
    }
}

proof fn lemma_joined_rows(names: Seq<Seq<char>>)
    requires
        names.len() > 0,
        forall|i: int| 0 <= i < names.len() ==> is_row(#[trigger] names[i]),
    ensures
        pieces(join(names, "\n"@), '\n') == names,
        join(names, "\n"@).len() > 0,
        !white_space(join(names, "\n"@)[0]),
        !white_space(join(names, "\n"@).last()),
    decreases names.len(),
{
    reveal_strlit("\n");
    let last = names.last();
    assert(is_row(names[names.len() - 1]));
    if names.len() == 1 {
        lemma_no_break(last);
        assert(pieces(last, '\n') =~= names);
    } else {
        let shorter = names.drop_last();
        assert forall|i: int| 0 <= i < shorter.len() implies is_row(#[trigger] shorter[i]) by {
            assert(shorter[i] == names[i]);
        }
        lemma_joined_rows(shorter);
        let lead = join(shorter, "\n"@);
        assert("\n"@ =~= seq!['\n']);
        lemma_pieces_push(lead, last);
        assert(shorter.push(last) =~= names);
        assert(join(names, "\n"@)[0] == lead[0]);
    }
}

/// A text without a line break is one piece.
proof fn lemma_no_break(s: Seq<char>)
    requires
        !s.contains('\n'),
    ensures
        find(s, '\n') == s.len(),
{
    assert forall|j: int| 0 <= j < s.len() implies s[j] != '\n' by {
        if s[j] == '\n' {
            assert(s.contains('\n'));
        }
    }
    lemma_find(s, '\n', s.len() as int);
}

/// One more piece behind a line break.
proof fn lemma_pieces_push(lead: Seq<char>, row: Seq<char>)
    requires
        !row.contains('\n'),
    ensures
        pieces(lead + seq!['\n'] + row, '\n') == pieces(lead, '\n').push(row),
    decreases lead.len(),
{
    let s = lead + seq!['\n'] + row;
    lemma_find_bounds(lead, '\n');
    let end = find(lead, '\n') as int;
    assert forall|j: int| 0 <= j < end implies s[j] != '\n' by {
        assert(s[j] == lead[j]);
    }
    assert(end < lead.len() ==> s[end] == lead[end]);
    lemma_find(s, '\n', end);
    assert(s.take(end) =~= lead.take(end));
    if end < lead.len() {
        assert(s.skip(end + 1) =~= lead.skip(end + 1) + seq!['\n'] + row);
        lemma_pieces_push(lead.skip(end + 1), row);
        assert(pieces(s, '\n') =~= pieces(lead, '\n').push(row));
    } else {
        assert(lead.take(end) =~= lead);
        assert(s.skip(end + 1) =~= row);
        lemma_no_break(row);
        assert(pieces(row, '\n') == seq![row]);
        assert(pieces(lead, '\n') == seq![lead]);
        assert(pieces(s, '\n') =~= pieces(lead, '\n').push(row));
    }
}

/// Lines that say something and need no trimming are all kept as they are.
proof fn lemma_plain_rows(names: Seq<Seq<char>>)
    requires
        forall|i: int| 0 <= i < names.len() ==> is_row(#[trigger] names[i]),
    ensures
        plain_items(names) == names,
    decreases names.len(),
{
    if names.len() > 0 {
        let shorter = names.drop_last();
        assert forall|i: int| 0 <= i < shorter.len() implies is_row(#[trigger] shorter[i]) by {
            assert(shorter[i] == names[i]);
        }
        lemma_plain_rows(shorter);
        assert(is_row(names[names.len() - 1]));
        assert(plain_item(names.last()) == Some(names.last()));
        assert(plain_items(names) =~= plain_items(shorter) + seq![names.last()]);
        assert(shorter + seq![names.last()] =~= names);
    } else {
        assert(plain_items(names) =~= names);
    }
}

/// White space behind a text is trimmed off.
proof fn lemma_trim_tail(s: Seq<char>, tail: Seq<char>)
    requires
        s.len() > 0,
        !white_space(s[0]),
        !white_space(s.last()),
        blank(tail),
    ensures
        trim(s + tail) == s,
    decreases tail.len(),
{
    assert((s + tail)[0] == s[0]);
    if tail.len() == 0 {
        assert(s + tail =~= s);
    } else {
        let shorter = tail.drop_last();
        assert forall|i: int| 0 <= i < shorter.len() implies white_space(#[trigger] shorter[i]) by {
            assert(shorter[i] == tail[i]);
        }
        assert(white_space(tail[tail.len() - 1]));
        assert((s + tail).drop_last() =~= s + shorter);
        assert((s + shorter)[0] == s[0]);
        lemma_trim_tail(s, shorter);
    }
}

/// Each name is offered by `kdialog` once, in order, as tag and label, and checked.
pub proof fn kdialog_offers_every_name(names: Seq<Seq<char>>, i: int)
    requires
        0 <= i < names.len(),
    ensures
        kdialog_args(names).len() == 4 + 3 * names.len(),
        kdialog_args(names)[0] == "--checklist"@,
        kdialog_args(names)[2 + 3 * i] == names[i],
        kdialog_args(names)[3 + 3 * i] == names[i],
        kdialog_args(names)[4 + 3 * i] == "on"@,
{
    lemma_kdialog_entries(names, i);
}

proof fn lemma_kdialog_entries(names: Seq<Seq<char>>, i: int)
    requires
        0 <= i < names.len(),
    ensures
        kdialog_entries(names).len() == 3 * names.len(),
        kdialog_entries(names)[3 * i] == names[i],
        kdialog_entries(names)[3 * i + 1] == names[i],
        kdialog_entries(names)[3 * i + 2] == "on"@,
    decreases names.len(),
{
    let shorter = names.drop_last();
    if i < shorter.len() {
        lemma_kdialog_entries(shorter, i);
    } else if shorter.len() > 0 {
        lemma_kdialog_entries(shorter, 0);
    } else {
        assert(kdialog_entries(shorter) == Seq::<Seq<char>>::empty());
    }
}

/// Each name is offered by `zenity` once, in order, and checked. The chosen names
/// come on lines of their own.
pub proof fn zenity_offers_every_name(names: Seq<Seq<char>>, i: int)
    requires
        0 <= i < names.len(),
    ensures
        zenity_args(names).len() == 7 + 2 * names.len(),
        zenity_args(names)[6] == "--separator=\n"@,
        zenity_args(names)[7 + 2 * i] == "TRUE"@,
        zenity_args(names)[8 + 2 * i] == names[i],
{
    lemma_zenity_entries(names, i);
}

proof fn lemma_zenity_entries(names: Seq<Seq<char>>, i: int)
    requires
        0 <= i < names.len(),
    ensures
        zenity_entries(names).len() == 2 * names.len(),
        zenity_entries(names)[2 * i] == "TRUE"@,
        zenity_entries(names)[2 * i + 1] == names[i],
    decreases names.len(),
{
    let shorter = names.drop_last();
    if i < shorter.len() {
        lemma_zenity_entries(shorter, i);
    } else if shorter.len() > 0 {
        lemma_zenity_entries(shorter, 0);
    } else {
        assert(zenity_entries(shorter) == Seq::<Seq<char>>::empty());
    }
}

/// A message is shown whole.
pub proof fn message_is_shown_whole(title: Seq<char>, body: Seq<char>)
    ensures
        notify_args(title, body).len() == 5,
        notify_args(title, body)[3] == title,
        notify_args(title, body)[4] == body,
{
}

/// Where everything quoted is blank, nothing was chosen. Where nothing is quoted at
/// all, `kdialog` is read by its lines, as `zenity` is.
pub proof fn kdialog_is_read_by_quotes_or_lines(printed: Seq<char>)
    ensures
        quoted(printed).len() > 0 && (forall|i: int|
            0 <= i < quoted(printed).len() ==> blank(#[trigger] quoted(printed)[i]))
            ==> kdialog_choice(printed) is None,
        quoted(printed).len() == 0 ==> kdialog_choice(printed) == zenity_choice(printed),
{
    let items = quoted(printed);
    if forall|i: int| 0 <= i < items.len() ==> blank(#[trigger] items[i]) {
        lemma_filled_none(items);
    }
}

proof fn lemma_filled_none(items: Seq<Seq<char>>)
    requires
        forall|i: int| 0 <= i < items.len() ==> blank(#[trigger] items[i]),
    ensures
        filled(items) == Seq::<Seq<char>>::empty(),
    decreases items.len(),
{
    reveal(Seq::filter);
    if items.len() > 0 {
        let shorter = items.drop_last();
        assert forall|i: int| 0 <= i < shorter.len() implies blank(#[trigger] shorter[i]) by {
            assert(shorter[i] == items[i]);
        }
        lemma_filled_none(shorter);
        assert(blank(items[items.len() - 1]));
    }
}

/// The quoted names are judged one by one: each is kept whole, unless it is blank.
pub proof fn quoted_names_are_judged_one_by_one(
    a: Seq<Seq<char>>,
    b: Seq<Seq<char>>,
    name: Seq<char>,
)
    ensures
        filled(a + b) == filled(a) + filled(b),
        blank(name) ==> filled(seq![name]) == Seq::<Seq<char>>::empty(),
        !blank(name) ==> filled(seq![name]) == seq![name],
{
    let keep = |item: Seq<char>| !blank(item);
    Seq::filter_distributes_over_add(a, b, keep);
    Seq::<Seq<char>>::empty().lemma_filter_push(name, keep);
    assert(Seq::<Seq<char>>::empty().push(name) =~= seq![name]);
    assert(filled(Seq::empty()) =~= Seq::<Seq<char>>::empty()) by {
        reveal(Seq::filter);
    }
    assert(Seq::<Seq<char>>::empty().push(name) =~= seq![name]);
}

/// Quoted texts are read off one by one: each stands between two quotation marks,
/// and is taken whole. Where no second mark follows, nothing is quoted.
pub proof fn quoted_texts_are_read_off(lead: Seq<char>, body: Seq<char>, rest: Seq<char>)
    requires
        !lead.contains('"'),
        !body.contains('"'),
    ensures
        quoted(lead + seq!['"'] + body + seq!['"'] + rest) == seq![body] + quoted(rest),
        quoted(lead) == Seq::<Seq<char>>::empty(),
        quoted(lead + seq!['"'] + body) == Seq::<Seq<char>>::empty(),
{
    let s = lead + seq!['"'] + body + seq!['"'] + rest;
    let inner = body + seq!['"'] + rest;
    assert(s =~= lead + seq!['"'] + inner);
    lemma_mark(lead, inner);
    lemma_mark(body, rest);
    lemma_mark(lead, body);
    lemma_no_mark(lead);
    lemma_no_mark(body);
    assert(s.skip(lead.len() as int + 1) =~= inner);
    assert(inner.take(body.len() as int) =~= body);
    assert(inner.skip(body.len() as int + 1) =~= rest);
    let open = lead + seq!['"'] + body;
    assert(open.skip(lead.len() as int + 1) =~= body);
}

proof fn lemma_mark(lead: Seq<char>, rest: Seq<char>)
    requires
        !lead.contains('"'),
    ensures
        find(lead + seq!['"'] + rest, '"') == lead.len(),
{
    let s = lead + seq!['"'] + rest;
    assert forall|j: int| 0 <= j < lead.len() implies s[j] != '"' by {
        assert(s[j] == lead[j]);
        assert(lead.contains(lead[j]));
    }
    assert(s[lead.len() as int] == '"');
    lemma_find(s, '"', lead.len() as int);
}

proof fn lemma_no_mark(s: Seq<char>)
    requires
        !s.contains('"'),
    ensures
        find(s, '"') == s.len(),
{
    assert forall|j: int| 0 <= j < s.len() implies s[j] != '"' by {
        assert(s.contains(s[j]));
    }
    lemma_find(s, '"', s.len() as int);
}

/// The lines of a plain answer are judged one by one: each is kept, trimmed, unless
/// it is blank.
pub proof fn plain_lines_are_judged_one_by_one(
    a: Seq<Seq<char>>,
    b: Seq<Seq<char>>,
    line: Seq<char>,
)
    ensures
        plain_items(a + b) == plain_items(a) + plain_items(b),
        blank(line) ==> plain_items(seq![line]) == Seq::<Seq<char>>::empty(),
        !blank(line) ==> plain_items(seq![line]) == seq![trim(line)],
    decreases b.len(),
{
    let f = |line: Seq<char>| plain_item(line);
    Seq::lemma_filter_map_singleton(line, f);
    lemma_trim_blank(line);
    if b.len() == 0 {
        assert(a + b =~= a);
        assert(plain_items(a) + plain_items(b) =~= plain_items(a));
    } else {
        assert((a + b).drop_last() =~= a + b.drop_last());
        plain_lines_are_judged_one_by_one(a, b.drop_last(), line);
        assert(plain_items(a + b) =~= plain_items(a) + plain_items(b));
    }
}

/// A choice is one exactly where it names something, and it is all that was named.
pub proof fn choice_is_all_that_was_named(printed: Seq<char>)
    ensures
        ({
            let rows = plain_items(pieces(trim(printed), '\n'));
            let names = filled(quoted(printed));
            &&& rows.len() > 0 ==> zenity_choice(printed) == Some(rows)
            &&& rows.len() == 0 ==> zenity_choice(printed) is None
            &&& names.len() > 0 ==> kdialog_choice(printed) == Some(names)
        }),
{
    let items = quoted(printed);
    if items.len() == 0 {
        lemma_filled_none(items);
    }
}

} // verus!
