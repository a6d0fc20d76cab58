//! The shortcut file codec: reads a launcher entry file into a record and
//! writes a record out as a launcher entry file.
//!
//! A file is a shortcut descriptor when one of its lines launches a game by
//! its numeric id through the store's `steam://rungameid/` address, and one
//! of its lines gives a display name. Everything else in the file is passed
//! over. Where several lines of a kind occur, the last one counts.
//!
//! As regular expressions the two kinds of lines are
//! `^Exec=.*steam://rungameid/[0-9]+$` and `^Name=.+$`, each held against one
//! line at a time.

use vstd::prelude::*;
use vstd::string::*;
use crate::record::{lemma_population_push, population, RecordView, ShortcutRecord};
use crate::text::to_chars;

verus! {

/// The key that opens a launch-command line.
pub open spec fn exec_key() -> Seq<char> {
    "Exec="@
}

/// The address that runs a game by its id; the id follows it.
pub open spec fn run_uri() -> Seq<char> {
    "steam://rungameid/"@
}

/// The key that opens a display-name line.
pub open spec fn name_key() -> Seq<char> {
    "Name="@
}

/// An ASCII digit.
pub open spec fn is_digit(c: char) -> bool {
    '0' <= c && c <= '9'
}

/// Every character of `s` is an ASCII digit.
pub open spec fn all_digits(s: Seq<char>) -> bool {
    forall|i: int| 0 <= i < s.len() ==> is_digit(#[trigger] s[i])
}

/// `line` is a launch-command line whose id starts at `k`: the key, then
/// anything, then the run address ending right before `k`, then digits and
/// nothing but digits up to the end of the line.
pub open spec fn exec_line_at(line: Seq<char>, k: int) -> bool {
    &&& exec_key().is_prefix_of(line)
    &&& exec_key().len() + run_uri().len() <= k < line.len()
    &&& line.subrange(k - run_uri().len(), k) == run_uri()
    &&& all_digits(line.skip(k))
}

/// `line` launches a game by a purely numeric id.
pub open spec fn is_exec_line(line: Seq<char>) -> bool {
    exists|k: int| exec_line_at(line, k)
}

/// The id that a launch-command line runs: its trailing digits.
pub open spec fn exec_id(line: Seq<char>) -> Seq<char> {
    line.skip(choose|k: int| exec_line_at(line, k))
}

/// `line` gives a display name that is not empty.
pub open spec fn is_name_line(line: Seq<char>) -> bool {
    name_key().is_prefix_of(line) && line.len() > name_key().len()
}

/// The display name that a name line gives: what follows the key.
pub open spec fn line_name(line: Seq<char>) -> Seq<char> {
    line.skip(name_key().len() as int)
}

/// The place of the first line feed in `text`, or the length of `text` where
/// it holds none.
pub open spec fn first_break(text: Seq<char>) -> int
    decreases text.len(),
{
    if text.len() == 0 || text[0] == '\n' {
        0
    } else {
        1 + first_break(text.skip(1))
    }
}

/// A line without the carriage return that ended it, if one did.
pub open spec fn strip_cr(line: Seq<char>) -> Seq<char> {
    if line.len() > 0 && line.last() == '\r' {
        line.drop_last()
    } else {
        line
    }
}

/// The lines of a text. A line ends with a line feed, or with a carriage
/// return and a line feed, neither of which belongs to it; the last line
/// needs no ending, and a carriage return that ends the text stays with it.
pub open spec fn split_lines(text: Seq<char>) -> Seq<Seq<char>>
    decreases text.len(),
{
    if text.len() == 0 {
        Seq::empty()
    } else {
        let k = first_break(text);
        if 0 <= k < text.len() {
            seq![strip_cr(text.take(k))] + split_lines(text.skip(k + 1))
        } else {
            seq![text]
        }
    }
}

/// The last launch-command line among `lines`.
pub open spec fn last_exec_line(lines: Seq<Seq<char>>) -> Option<Seq<char>>
    decreases lines.len(),
{
    if lines.len() == 0 {
        None
    } else if is_exec_line(lines.last()) {
        Some(lines.last())
    } else {
        last_exec_line(lines.drop_last())
    }
}

/// The last display-name line among `lines`.
pub open spec fn last_name_line(lines: Seq<Seq<char>>) -> Option<Seq<char>>
    decreases lines.len(),
{
    if lines.len() == 0 {
        None
    } else if is_name_line(lines.last()) {
        Some(lines.last())
    } else {
        last_name_line(lines.drop_last())
    }
}

/// The record that a file's text describes, if it describes one: the name of
/// its last name line and the id of its last launch-command line.
pub open spec fn parse_spec(text: Seq<char>) -> Option<RecordView> {
    let lines = split_lines(text);
    match (last_exec_line(lines), last_name_line(lines)) {
        (Some(exec), Some(name)) => Some(RecordView { name: line_name(name), id: exec_id(exec) }),
        _ => None,
    }
}

/// Whether `pattern` stands in `chars` at `at`, within the first `to`
/// characters.
fn stands_at(chars: &Vec<char>, at: usize, to: usize, pattern: &str) -> (found: bool)
    requires
        at <= to <= chars@.len(),
    ensures
        found == (at + pattern@.len() <= to && chars@.subrange(at as int, at + pattern@.len())
            == pattern@),
{
    let m = pattern.unicode_len();
    if m > to - at {
        return false;
    }
    let mut i: usize = 0;
    while i < m
        invariant
            i <= m,
            m == pattern@.len(),
            at + m <= to <= chars@.len(),
            forall|j: int| 0 <= j < i ==> chars@[at + j] == pattern@[j],
        decreases m - i,
    {
        if chars[at + i] != pattern.get_char(i) {
            assert(chars@.subrange(at as int, at + m)[i as int] != pattern@[i as int]);
            return false;
        }
        i += 1;
    }
    assert(chars@.subrange(at as int, at + m) =~= pattern@);
    true
}

/// A launch-command line has one place only where its id can start: right
/// after the last character that is no digit.
pub proof fn lemma_exec_id_start_unique(line: Seq<char>, k: int, other: int)
    requires
        exec_line_at(line, k),
        exec_line_at(line, other),
    ensures
        k == other,
{
    reveal_strlit("steam://rungameid/");
    assert(line.subrange(k - run_uri().len(), k)[run_uri().len() - 1] == '/');
    assert(line.subrange(other - run_uri().len(), other)[run_uri().len() - 1] == '/');
    assert(line[k - 1] == '/');
    assert(line[other - 1] == '/');
    if k < other {
        assert(line.skip(k)[other - 1 - k] == line[other - 1]);
        assert(is_digit(line.skip(k)[other - 1 - k]));
    }
    if other < k {
        assert(line.skip(other)[k - 1 - other] == line[k - 1]);
        assert(is_digit(line.skip(other)[k - 1 - other]));
    }
}

/// A launch-command line made of its parts: the key, anything, the run
/// address and the id.
pub open spec fn launch_line(between: Seq<char>, id: Seq<char>) -> Seq<char> {
    exec_key() + between + run_uri() + id
}

/// Whatever stands between the key and the run address, a line made of the
/// key, the run address and a number launches the game of that number.
pub proof fn lemma_launch_line_is_exec_line(between: Seq<char>, id: Seq<char>)
    requires
        id.len() > 0,
        all_digits(id),
    ensures
        is_exec_line(launch_line(between, id)),
        exec_id(launch_line(between, id)) == id,
{
    let line = launch_line(between, id);
    let k = (exec_key().len() + between.len() + run_uri().len()) as int;
    assert(line.subrange(0, exec_key().len() as int) =~= exec_key());
    assert(line.subrange(k - run_uri().len(), k) =~= run_uri());
    assert(line.skip(k) =~= id);
    assert(exec_line_at(line, k));
    lemma_exec_id_start_unique(line, k, choose|c: int| exec_line_at(line, c));
}

/// Every launch-command line is made of the key, something, the run address
/// and a number, in this order and with nothing else.
pub proof fn lemma_exec_line_is_launch_line(line: Seq<char>)
    requires
        is_exec_line(line),
    ensures
        exists|between: Seq<char>, id: Seq<char>|
            line == #[trigger] launch_line(between, id) && id.len() > 0 && all_digits(id),
{
    let k = choose|k: int| exec_line_at(line, k);
    let between = line.subrange(exec_key().len() as int, k - run_uri().len());
    let id = line.skip(k);
    assert(line =~= launch_line(between, id)) by {
        assert(line.subrange(0, exec_key().len() as int) == exec_key());
        assert(line =~= line.subrange(0, exec_key().len() as int) + between + line.subrange(
            k - run_uri().len(),
            k,
        ) + id);
    }
}

/// Where the id of the launch-command line `chars[from..to]` starts, counted
/// in `chars`; `None` where the line is no launch-command line.
fn find_exec_id(chars: &Vec<char>, from: usize, to: usize) -> (start: Option<usize>)
    requires
        from <= to <= chars@.len(),
    ensures
        start matches Some(k) ==> from <= k < to && exec_line_at(
            chars@.subrange(from as int, to as int),
            k - from,
        ),
        start is None ==> !is_exec_line(chars@.subrange(from as int, to as int)),
{
    let ghost line = chars@.subrange(from as int, to as int);
    let mut k: usize = to;
    while k > from && '0' <= chars[k - 1] && chars[k - 1] <= '9'
        invariant
            from <= k <= to <= chars@.len(),
            forall|j: int| k <= j < to ==> is_digit(#[trigger] chars@[j]),
        decreases k,
    {
        k -= 1;
    }
    proof {
        // Any start of the id is the start of the trailing digits.
        assert forall|other: int| exec_line_at(line, other) implies other == k - from by {
            reveal_strlit("steam://rungameid/");
            assert(line.subrange(other - run_uri().len(), other)[run_uri().len() - 1] == '/');
            assert(line[other - 1] == '/');
            if other < k - from {
                assert(is_digit(line.skip(other)[k - from - 1 - other]));
                assert(line.skip(other)[k - from - 1 - other] == chars@[k - 1]);
            }
            if other > k - from {
                assert(chars@[from + other - 1] == line[other - 1]);
            }
        }
    }
    if k == to {
        return None;
    }
    if !stands_at(chars, from, to, "Exec=") {
        proof {
            assert forall|other: int| exec_line_at(line, other) implies false by {
                assert(line.subrange(0, exec_key().len() as int) =~= chars@.subrange(
                    from as int,
                    from + exec_key().len(),
                ));
            }
        }
        return None;
    }
    let key_len = "Exec=".unicode_len();
    let uri_len = "steam://rungameid/".unicode_len();
    if k - from < key_len || k - from - key_len < uri_len {
        return None;
    }
    if !stands_at(chars, k - uri_len, k, "steam://rungameid/") {
        proof {
            assert(line.subrange(k - from - uri_len, k - from) =~= chars@.subrange(
                k - uri_len,
                k as int,
            ));
        }
        return None;
    }
    proof {
        assert(line.subrange(k - from - uri_len, k - from) =~= chars@.subrange(
            k - uri_len,
            k as int,
        ));
        assert(line.subrange(0, key_len as int) =~= chars@.subrange(
            from as int,
            from + key_len,
        ));
        assert(exec_key().is_prefix_of(line));
        assert(all_digits(line.skip(k - from)));
    }
    Some(k)
}

/// Whether `chars[from..to]` is a display-name line.
fn holds_name(chars: &Vec<char>, from: usize, to: usize) -> (found: bool)
    requires
        from <= to <= chars@.len(),
    ensures
        found == is_name_line(chars@.subrange(from as int, to as int)),
{
    let ghost line = chars@.subrange(from as int, to as int);
    let keyed = stands_at(chars, from, to, "Name=");
    let key_len = "Name=".unicode_len();
    proof {
        if from + key_len <= to {
            assert(line.subrange(0, key_len as int) =~= chars@.subrange(
                from as int,
                from + key_len,
            ));
        }
    }
    keyed && to - from > key_len
}

/// The first line feed of a text is where the scan that passes over every
/// other character finds it.
proof fn lemma_first_break_found(text: Seq<char>, k: int)
    requires
        0 <= k <= text.len(),
        forall|j: int| 0 <= j < k ==> text[j] != '\n',
        k == text.len() || text[k] == '\n',
    ensures
        first_break(text) == k,
    decreases k,
{
    if k > 0 {
        lemma_first_break_found(text.skip(1), k - 1);
    }
}

/// The first line of what is left of `text` from `pos` on is
/// `text[pos..end]`, and the other lines are those of the text from `next`
/// on.
proof fn lemma_split_step(text: Seq<char>, pos: int, k: int, end: int, next: int)
    requires
        0 <= pos <= k <= text.len(),
        pos < text.len(),
        forall|j: int| pos <= j < k ==> text[j] != '\n',
        k == text.len() || text[k] == '\n',
        end == if k < text.len() && k > pos && text[k - 1] == '\r' {
            k - 1
        } else {
            k
        },
        next == if k < text.len() {
            k + 1
        } else {
            k
        },
    ensures
        split_lines(text.skip(pos)) == seq![text.subrange(pos, end)] + split_lines(
            text.skip(next),
        ),
{
    let rest = text.skip(pos);
    lemma_first_break_found(rest, k - pos);
    if k < text.len() {
        assert(rest.take(k - pos) =~= text.subrange(pos, k));
        assert(strip_cr(text.subrange(pos, k)) =~= text.subrange(pos, end));
        assert(rest.skip(k - pos + 1) =~= text.skip(k + 1));
    } else {
        assert(rest =~= text.subrange(pos, end));
        assert(split_lines(text.skip(next)) =~= Seq::<Seq<char>>::empty());
        assert(seq![rest] =~= seq![text.subrange(pos, end)] + Seq::<Seq<char>>::empty());
    }
}

/// No line is both a launch-command line and a display-name line.
pub proof fn lemma_line_kinds_exclusive(line: Seq<char>)
    ensures
        !(is_exec_line(line) && is_name_line(line)),
{
    reveal_strlit("Exec=");
    reveal_strlit("Name=");
    if is_exec_line(line) && is_name_line(line) {
        assert(line.subrange(0, 5)[0] == 'E');
        assert(line.subrange(0, 5)[0] == 'N');
    }
}

/// Reads the text of a file. The file describes a shortcut when it holds a
/// launch-command line and a display-name line; the record then has the name
/// of the last name line and the id of the last launch-command line. Any
/// other file gives `None`.
pub fn parse_descriptor(contents: &str) -> (record: Option<ShortcutRecord>)
    ensures
        match record {
            Some(r) => parse_spec(contents@) == Some(r@),
            None => parse_spec(contents@) is None,
        },
        record matches Some(r) ==> r@.name.len() > 0 && r@.id.len() > 0 && all_digits(r@.id),
{
    proof {
        lemma_parsed_record_is_sound(contents@);
    }
    let chars = to_chars(contents);
    let n = chars.len();
    let key_len = "Name=".unicode_len();
    let ghost text = chars@;
    let ghost mut done: Seq<Seq<char>> = Seq::empty();
    let mut exec: Option<(usize, usize)> = None;
    let mut name: Option<(usize, usize)> = None;
    let mut pos: usize = 0;
    assert(text.skip(0) =~= text);
    while pos < n
        invariant
            n == chars@.len(),
            text == chars@,
            pos <= n,
            key_len == name_key().len(),
            split_lines(text) == done + split_lines(text.skip(pos as int)),
            match exec {
                Some((from, to)) => {
                    &&& from <= to <= n
                    &&& last_exec_line(done) matches Some(line)
                    &&& exec_id(line) == text.subrange(from as int, to as int)
                },
                None => last_exec_line(done) is None,
            },
            match name {
                Some((from, to)) => {
                    &&& from <= to <= n
                    &&& last_name_line(done) matches Some(line)
                    &&& line_name(line) == text.subrange(from as int, to as int)
                },
                None => last_name_line(done) is None,
            },
        decreases n - pos,
    {
        let mut k: usize = pos;
        while k < n && chars[k] != '\n'
            invariant
                pos <= k <= n,
                n == chars@.len(),
                forall|j: int| pos <= j < k ==> chars@[j] != '\n',
            decreases n - k,
        {
            k += 1;
        }
        let end = if k < n && k > pos && chars[k - 1] == '\r' {
            k - 1
        } else {
            k
        };
        let next = if k < n {
            k + 1
        } else {
            k
        };
        let ghost line = text.subrange(pos as int, end as int);
        proof {
            lemma_split_step(text, pos as int, k as int, end as int, next as int);
            assert(done + (seq![line] + split_lines(text.skip(next as int))) =~= done.push(line)
                + split_lines(text.skip(next as int)));
            assert(done.push(line).drop_last() =~= done);
            lemma_line_kinds_exclusive(line);
        }
        match find_exec_id(&chars, pos, end) {
            Some(start) => {
                proof {
                    let c = choose|c: int| exec_line_at(line, c);
                    lemma_exec_id_start_unique(line, c, start - pos);
                    assert(line.skip(start - pos) =~= text.subrange(start as int, end as int));
                }
                exec = Some((start, end));
            },
            None => {
                if holds_name(&chars, pos, end) {
                    proof {
                        assert(line.skip(key_len as int) =~= text.subrange(
                            pos + key_len,
                            end as int,
                        ));
                    }
                    name = Some((pos + key_len, end));
                }
            },
        }
        proof {
            done = done.push(line);
        }
        pos = next;
    }
    proof {
        assert(split_lines(text.skip(pos as int)) =~= Seq::<Seq<char>>::empty());
        assert(done + Seq::<Seq<char>>::empty() =~= done);
    }
    match (exec, name) {
        (Some((id_from, id_to)), Some((name_from, name_to))) => {
            let name = contents.substring_char(name_from, name_to).to_owned();
            let id = contents.substring_char(id_from, id_to).to_owned();
            Some(ShortcutRecord { name, id })
        },
        _ => None,
    }
}

/// The shortcuts that a list of file texts describes.
pub open spec fn loaded(files: Seq<String>) -> Set<RecordView> {
    Set::new(
        |r: RecordView|
            exists|i: int| 0 <= i < files.len() && parse_spec((#[trigger] files[i])@) == Some(r),
    )
}

/// One more text adds the shortcut it describes, if it describes one.
proof fn lemma_loaded_push(files: Seq<String>, file: String)
    ensures
        loaded(files.push(file)) == match parse_spec(file@) {
            Some(r) => loaded(files).insert(r),
            None => loaded(files),
        },
{
    let more = files.push(file);
    assert forall|r: RecordView|
        loaded(more).contains(r) <==> (loaded(files).contains(r) || parse_spec(file@) == Some(
            r,
        )) by {
        if loaded(more).contains(r) {
            let i = choose|i: int|
                0 <= i < more.len() && parse_spec((#[trigger] more[i])@) == Some(r);
            if i < files.len() {
                assert(parse_spec(files[i]@) == Some(r));
            }
        }
        if loaded(files).contains(r) {
            let i = choose|i: int|
                0 <= i < files.len() && parse_spec((#[trigger] files[i])@) == Some(r);
            assert(parse_spec(more[i]@) == Some(r));
        }
        if parse_spec(file@) == Some(r) {
            assert(parse_spec(more[files.len() as int]@) == Some(r));
        }
    }
    match parse_spec(file@) {
        Some(r) => assert(loaded(more) =~= loaded(files).insert(r)),
        None => assert(loaded(more) =~= loaded(files)),
    }
}

/// Reads the texts of the files of one directory tree into the records they
/// describe. Texts that describe no shortcut are passed over; a tree without
/// descriptors gives no records.
pub fn load(files: &Vec<String>) -> (records: Vec<ShortcutRecord>)
    ensures
        population(records@) == loaded(files@),
{
    let mut records: Vec<ShortcutRecord> = Vec::new();
    let mut i: usize = 0;
    assert(population(records@) =~= loaded(files@.take(0)));
    while i < files.len()
        invariant
            i <= files.len(),
            population(records@) == loaded(files@.take(i as int)),
        decreases files.len() - i,
    {
        proof {
            lemma_loaded_push(files@.take(i as int), files@[i as int]);
            assert(files@.take(i as int).push(files@[i as int]) =~= files@.take(i + 1));
        }
        match parse_descriptor(files[i].as_str()) {
            Some(record) => {
                proof {
                    lemma_population_push(records@, record);
                }
                records.push(record);
            },
            None => {},
        }
        i += 1;
    }
    assert(files@.take(i as int) =~= files@);
    records
}

/// The line that opens every descriptor.
pub open spec fn header_line() -> Seq<char> {
    "[Desktop Entry]"@
}

/// The key of the icon line; the id follows it.
pub open spec fn icon_key() -> Seq<char> {
    "Icon=steam_icon_"@
}

/// The line that says what kind of entry a descriptor is.
pub open spec fn type_line() -> Seq<char> {
    "Type=Application"@
}

/// The program that a written descriptor opens the run address with.
pub open spec fn opener() -> Seq<char> {
    "xdg-open "@
}

/// One line feed.
pub open spec fn line_feed() -> Seq<char> {
    seq!['\n']
}

/// The text of the descriptor of a shortcut: five lines, the last one
/// without an ending.
pub open spec fn descriptor_spec(r: RecordView) -> Seq<char> {
    header_line() + line_feed() + (name_key() + r.name) + line_feed() + (icon_key() + r.id)
        + line_feed() + type_line() + line_feed() + (exec_key() + opener() + run_uri() + r.id)
}

/// The name of the file that holds the descriptor of a shortcut with the
/// display name `name`.
pub open spec fn descriptor_file_name_spec(name: Seq<char>) -> Seq<char> {
    name + ".desktop"@
}

/// Writes a record out as the text of its descriptor file.
pub fn descriptor_text(record: &ShortcutRecord) -> (text: String)
    ensures
        text@ == descriptor_spec(record@),
{
    proof {
        reveal_strlit("\n");
    }
    let mut text = String::from_str("[Desktop Entry]");
    text.append("\n");
    text.append("Name=");
    text.append(record.name.as_str());
    text.append("\n");
    text.append("Icon=steam_icon_");
    text.append(record.id.as_str());
    text.append("\n");
    text.append("Type=Application");
    text.append("\n");
    text.append("Exec=");
    text.append("xdg-open ");
    text.append("steam://rungameid/");
    text.append(record.id.as_str());
    assert("\n"@ =~= line_feed());
    text
}

/// The name of the file that holds the descriptor of `record`.
pub fn descriptor_file_name(record: &ShortcutRecord) -> (file_name: String)
    ensures
        file_name@ == descriptor_file_name_spec(record@.name),
{
    let mut file_name = record.name.clone();
    file_name.append(".desktop");
    file_name
}

/// A record that comes back unchanged when its descriptor is read again: its
/// name is not empty, holds no line feed and does not end in a carriage
/// return, and its id is a number.
pub open spec fn writable(r: RecordView) -> bool {
    &&& r.name.len() > 0
    &&& forall|i: int| 0 <= i < r.name.len() ==> r.name[i] != '\n'
    &&& r.name.last() != '\r'
    &&& r.id.len() > 0
    &&& all_digits(r.id)
}

/// A line and its line feed in front of a text make one more line.
proof fn lemma_split_leading_line(line: Seq<char>, rest: Seq<char>)
    requires
        forall|i: int| 0 <= i < line.len() ==> line[i] != '\n',
        line.len() > 0 ==> line.last() != '\r',
    ensures
        split_lines(line + line_feed() + rest) == seq![line] + split_lines(rest),
{
    let text = line + line_feed() + rest;
    lemma_first_break_found(text, line.len() as int);
    assert(text.take(line.len() as int) =~= line);
    assert(text.skip(line.len() as int + 1) =~= rest);
}

/// A text without a line feed is one line.
proof fn lemma_split_single_line(line: Seq<char>)
    requires
        line.len() > 0,
        forall|i: int| 0 <= i < line.len() ==> line[i] != '\n',
    ensures
        split_lines(line) == seq![line],
{
    lemma_first_break_found(line, line.len() as int);
}

/// What is written is what is read: the descriptor of a writable record
/// describes that record and no other.
pub proof fn lemma_written_descriptor_reads_back(r: RecordView)
    requires
        writable(r),
    ensures
        parse_spec(descriptor_spec(r)) == Some(r),
{
    reveal_strlit("[Desktop Entry]");
    reveal_strlit("Icon=steam_icon_");
    reveal_strlit("Type=Application");
    reveal_strlit("xdg-open ");
    reveal_strlit("Exec=");
    reveal_strlit("Name=");
    reveal_strlit("steam://rungameid/");
    let l0 = header_line();
    let l1 = name_key() + r.name;
    let l2 = icon_key() + r.id;
    let l3 = type_line();
    let l4 = exec_key() + opener() + run_uri() + r.id;
    let t4 = l4;
    let t3 = l3 + line_feed() + t4;
    let t2 = l2 + line_feed() + t3;
    let t1 = l1 + line_feed() + t2;
    let t0 = l0 + line_feed() + t1;
    assert(descriptor_spec(r) =~= t0);
    assert forall|i: int| 0 <= i < l2.len() implies l2[i] != '\n' by {
        if i >= icon_key().len() {
            assert(is_digit(r.id[i - icon_key().len()]));
        }
    }
    assert forall|i: int| 0 <= i < l4.len() implies l4[i] != '\n' by {
        if i >= 32 {
            assert(is_digit(r.id[i - 32]));
        }
    }
    assert(is_digit(r.id.last()));
    lemma_split_single_line(t4);
    lemma_split_leading_line(l3, t4);
    lemma_split_leading_line(l2, t3);
    lemma_split_leading_line(l1, t2);
    lemma_split_leading_line(l0, t1);
    let lines = seq![l0, l1, l2, l3, l4];
    assert(split_lines(t0) =~= lines);

    assert(l0[0] == '[');
    assert(l1[0] == 'N');
    assert(l2[0] == 'I');
    assert(l3[0] == 'T');
    assert(l4[0] == 'E');
    assert forall|line: Seq<char>| #[trigger] is_exec_line(line) implies line[0] == 'E' by {
        assert(line.subrange(0, 5)[0] == 'E');
    }
    assert forall|line: Seq<char>| #[trigger] is_name_line(line) implies line[0] == 'N' by {
        assert(line.subrange(0, 5)[0] == 'N');
    }
    assert(l1.subrange(0, 5) =~= name_key());
    assert(is_name_line(l1));
    assert(line_name(l1) =~= r.name);
    lemma_launch_line_is_exec_line(opener(), r.id);

    assert(lines.last() == l4);
    assert(last_exec_line(lines) == Some(l4));
    let s4 = lines.drop_last();
    assert(s4 =~= seq![l0, l1, l2, l3]);
    let s3 = s4.drop_last();
    assert(s3 =~= seq![l0, l1, l2]);
    let s2 = s3.drop_last();
    assert(s2 =~= seq![l0, l1]);
    assert(last_name_line(s2) == Some(l1));
    assert(last_name_line(s3) == Some(l1));
    assert(last_name_line(s4) == Some(l1));
    assert(last_name_line(lines) == Some(l1));
}

/// The last launch-command line of a text is a launch-command line, and the
/// last name line a name line.
proof fn lemma_last_lines_match(lines: Seq<Seq<char>>)
    ensures
        last_exec_line(lines) matches Some(line) ==> is_exec_line(line) && lines.contains(line),
        last_name_line(lines) matches Some(line) ==> is_name_line(line) && lines.contains(line),
    decreases lines.len(),
{
    if lines.len() > 0 {
        lemma_last_lines_match(lines.drop_last());
        assert(lines[lines.len() - 1] == lines.last());
        assert forall|line: Seq<char>| lines.drop_last().contains(line) implies lines.contains(
            line,
        ) by {
            let i = choose|i: int| 0 <= i < lines.drop_last().len() && lines.drop_last()[i] == line;
            assert(lines[i] == line);
        }
    }
}

/// No line of a text holds a line feed.
proof fn lemma_lines_hold_no_break(text: Seq<char>)
    ensures
        forall|i: int, j: int|
            0 <= i < split_lines(text).len() && 0 <= j < split_lines(text)[i].len()
                ==> #[trigger] split_lines(text)[i][j] != '\n',
    decreases text.len(),
{
    if text.len() > 0 {
        let k = first_break(text);
        lemma_first_break_bounds(text);
        if 0 <= k < text.len() {
            lemma_lines_hold_no_break(text.skip(k + 1));
            let first = strip_cr(text.take(k));
            let others = split_lines(text.skip(k + 1));
            assert forall|i: int, j: int|
                0 <= i < split_lines(text).len() && 0 <= j < split_lines(text)[i].len()
                    implies #[trigger] split_lines(text)[i][j] != '\n' by {
                if i == 0 {
                    assert(first[j] == text[j]);
                } else {
                    assert(split_lines(text)[i] == others[i - 1]);
                }
            }
        }
    }
}

/// Before its first line feed a text holds none, and the first break lies
/// within the text or at its end.
proof fn lemma_first_break_bounds(text: Seq<char>)
    ensures
        0 <= first_break(text) <= text.len(),
        forall|j: int| 0 <= j < first_break(text) ==> text[j] != '\n',
        first_break(text) < text.len() ==> text[first_break(text)] == '\n',
    decreases text.len(),
{
    if !(text.len() == 0 || text[0] == '\n') {
        lemma_first_break_bounds(text.skip(1));
        assert forall|j: int| 0 <= j < first_break(text) implies text[j] != '\n' by {
            if j > 0 {
                assert(text.skip(1)[j - 1] == text[j]);
            }
        }
    }
}

/// Every record that is read has a name that is not empty and holds no line
/// feed, and an id that is a number.
pub proof fn lemma_parsed_record_is_sound(text: Seq<char>)
    ensures
        parse_spec(text) matches Some(r) ==> {
            &&& r.name.len() > 0
            &&& forall|i: int| 0 <= i < r.name.len() ==> r.name[i] != '\n'
            &&& r.id.len() > 0
            &&& all_digits(r.id)
        },
{
    let lines = split_lines(text);
    lemma_last_lines_match(lines);
    lemma_lines_hold_no_break(text);
    if let Some(r) = parse_spec(text) {
        let exec = last_exec_line(lines)->0;
        let name = last_name_line(lines)->0;
        let i = choose|i: int| 0 <= i < lines.len() && lines[i] == name;
        assert forall|j: int| 0 <= j < r.name.len() implies r.name[j] != '\n' by {
            assert(r.name[j] == lines[i][j + name_key().len()]);
        }
        let k = choose|k: int| exec_line_at(exec, k);
        assert(exec_line_at(exec, k));
    }
}

} // verus!
