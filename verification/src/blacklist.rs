//! The blacklist: files (by name, without extensions) that are left out of
//! processing, each with a comment.
//!
//! A blacklist file holds one `name|comment` line per file.

use vstd::prelude::*;

use crate::normalize::split_on;
use crate::paths::{file_prefix, path_file_prefix};
use crate::text::{chars_of, push_char};

verus! {

// ------------------------------------------------------------------
// Specification of the file format
// ------------------------------------------------------------------

/// The lines of `s`, each with its terminating `\n` (the last line may lack one).
pub open spec fn lines_of(s: Seq<char>) -> Seq<Seq<char>>
    decreases s.len(),
{
    if s.len() == 0 {
        seq![]
    } else {
        let rest = lines_of(s.drop_last());
        if rest.len() > 0 && rest.last().last() != '\n' {
            rest.update(rest.len() - 1, rest.last().push(s.last()))
        } else {
            rest.push(seq![s.last()])
        }
    }
}

/// The name and comment of a line: the text before the first `|` and the text
/// between the first and the second `|` (or the end of the line, line break
/// included); `None` when the line has no `|`.
pub open spec fn line_entry(line: Seq<char>) -> Option<(Seq<char>, Seq<char>)> {
    let parts = split_on(line, '|');
    if parts.len() >= 2 {
        Some((parts[0], parts[1]))
    } else {
        None
    }
}

/// Whether a line starts with `#`.
pub open spec fn is_comment(line: Seq<char>) -> bool {
    line.len() > 0 && line[0] == '#'
}

/// Reads `lines` into the table `acc`: each line adds its entry (a later
/// entry for the same name replaces an earlier one); the first line that
/// starts with `#` ends the table, and the lines after it are not read; a
/// line without `|` is refused (`Err` holds it).
pub open spec fn read_table(lines: Seq<Seq<char>>, acc: Map<Seq<char>, Seq<char>>) -> Result<
    Map<Seq<char>, Seq<char>>,
    Seq<char>,
>
    decreases lines.len(),
{
    if lines.len() == 0 {
        Ok(acc)
    } else if is_comment(lines[0]) {
        Ok(acc)
    } else {
        match line_entry(lines[0]) {
            Some((name, comment)) => read_table(lines.drop_first(), acc.insert(name, comment)),
            None => Err(lines[0]),
        }
    }
}

/// The table that the text of a blacklist file stands for, or the line that
/// it refuses.
pub open spec fn spec_parse_blacklist(s: Seq<char>) -> Result<Map<Seq<char>, Seq<char>>, Seq<char>> {
    read_table(lines_of(s), Map::empty())
}

proof fn lemma_split_two(a: Seq<char>, b: Seq<char>, sep: char)
    requires
        !a.contains(sep),
        !b.contains(sep),
    ensures
        split_on(a + seq![sep] + b, sep) == seq![a, b],
    decreases b.len(),
{
    if b.len() == 0 {
        assert(a + seq![sep] + b =~= a.push(sep));
        assert((a + seq![sep] + b).drop_last() =~= a);
        crate::normalize::lemma_split_without_separator(a, sep);
        assert(b =~= Seq::<char>::empty());
        assert(seq![a].push(Seq::<char>::empty()) =~= seq![a, b]);
    } else {
        let b0 = b.drop_last();
        assert(!b0.contains(sep)) by {
            if b0.contains(sep) {
                let i = choose|i: int| 0 <= i < b0.len() && b0[i] == sep;
                assert(b[i] == sep);
            }
        }
        lemma_split_two(a, b0, sep);
        assert((a + seq![sep] + b).drop_last() =~= a + seq![sep] + b0);
        assert((a + seq![sep] + b).last() == b.last());
        assert(b.last() != sep) by {
            assert(b[b.len() - 1] == b.last());
        }
        assert(b0.push(b.last()) =~= b);
        assert(seq![a, b0].update(1, b0.push(b.last())) =~= seq![a, b]);
    }
}

proof fn lemma_one_line(t: Seq<char>)
    requires
        t.len() > 0,
        !t.contains('\n'),
    ensures
        lines_of(t) == seq![t],
    decreases t.len(),
{
    let t0 = t.drop_last();
    assert(t.last() != '\n') by {
        assert(t[t.len() - 1] == t.last());
    }
    if t0.len() > 0 {
        assert(!t0.contains('\n')) by {
            if t0.contains('\n') {
                let i = choose|i: int| 0 <= i < t0.len() && t0[i] == '\n';
                assert(t[i] == '\n');
            }
        }
        lemma_one_line(t0);
        assert(t0.last() == t[t0.len() - 1]);
        assert(t0.push(t.last()) =~= t);
        assert(seq![t0].update(0, t0.push(t.last())) =~= seq![t]);
    } else {
        assert(lines_of(t0) =~= Seq::<Seq<char>>::empty());
        assert(seq![t.last()] =~= t);
    }
}

proof fn lemma_split_first_piece(a: Seq<char>, t: Seq<char>, sep: char)
    requires
        !a.contains(sep),
    ensures
        split_on(a + seq![sep] + t, sep).len() >= 2,
        split_on(a + seq![sep] + t, sep)[0] == a,
    decreases t.len(),
{
    let whole = a + seq![sep] + t;
    if t.len() == 0 {
        assert(whole.drop_last() =~= a);
        assert(whole.last() == sep);
        crate::normalize::lemma_split_without_separator(a, sep);
    } else {
        lemma_split_first_piece(a, t.drop_last(), sep);
        assert(whole.drop_last() =~= a + seq![sep] + t.drop_last());
    }
}

/// Every line that holds a `|` lists a name, whether or not it ends with a
/// line break: the text before its first `|`.
pub proof fn law_line_with_bar_lists_its_name(line: Seq<char>, i: int)
    requires
        0 <= i < line.len(),
        line[i] == '|',
        forall|j: int| 0 <= j < i ==> line[j] != '|',
    ensures
        line_entry(line) matches Some((n, _)) && n == line.subrange(0, i),
{
    let a = line.subrange(0, i);
    let t = line.subrange(i + 1, line.len() as int);
    assert(!a.contains('|')) by {
        if a.contains('|') {
            let j = choose|j: int| 0 <= j < a.len() && a[j] == '|';
            assert(line[j] == '|');
        }
    }
    assert(a + seq!['|'] + t =~= line);
    lemma_split_first_piece(a, t, '|');
}

/// A line `name|comment` lists `name` with the comment `comment` (when
/// neither holds `|`), with or without a line break at its end.
pub proof fn law_name_and_comment_of_a_line(name: Seq<char>, comment: Seq<char>)
    requires
        !name.contains('|'),
        !comment.contains('|'),
    ensures
        line_entry(name + seq!['|'] + comment) == Some((name, comment)),
{
    lemma_split_two(name, comment, '|');
}

/// A file whose only line is `name|comment`, without a final line break,
/// lists `name` with `comment` (when neither holds `|` or a line break, and
/// the name does not start with `#`).
pub proof fn law_last_line_without_break_lists_its_name(name: Seq<char>, comment: Seq<char>)
    requires
        !name.contains('|'),
        !name.contains('\n'),
        !comment.contains('|'),
        !comment.contains('\n'),
        !is_comment(name),
    ensures
        spec_parse_blacklist(name + seq!['|'] + comment) == Ok::<Map<Seq<char>, Seq<char>>, Seq<char>>(
            Map::empty().insert(name, comment),
        ),
{
    let line = name + seq!['|'] + comment;
    assert(!line.contains('\n')) by {
        if line.contains('\n') {
            let i = choose|i: int| 0 <= i < line.len() && line[i] == '\n';
            if i < name.len() {
                assert(name[i] == '\n');
            } else if i > name.len() {
                assert(comment[i - name.len() - 1] == '\n');
            }
        }
    }
    lemma_one_line(line);
    lemma_split_two(name, comment, '|');
    assert(!is_comment(line)) by {
        if name.len() > 0 {
            assert(line[0] == name[0]);
        } else {
            assert(line[0] == '|');
        }
    }
    let m = Map::<Seq<char>, Seq<char>>::empty().insert(name, comment);
    assert(seq![line].drop_first() =~= Seq::<Seq<char>>::empty());
    assert(seq![line][0] == line);
    assert(read_table(seq![line], Map::empty()) == read_table(seq![line].drop_first(), m));
}

/// A file of one line `name|comment` lists `name`, with the comment and the
/// line break as its value (when neither part holds `|` or a line break, and
/// the name does not start with `#`).
pub proof fn law_single_line_lists_its_name(name: Seq<char>, comment: Seq<char>)
    requires
        !name.contains('|'),
        !name.contains('\n'),
        !comment.contains('|'),
        !comment.contains('\n'),
        !is_comment(name),
    ensures
        spec_parse_blacklist(name + seq!['|'] + comment + seq!['\n']) == Ok::<
            Map<Seq<char>, Seq<char>>,
            Seq<char>,
        >(Map::empty().insert(name, comment + seq!['\n'])),
{
    let body = name + seq!['|'] + comment;
    assert(!body.contains('\n')) by {
        if body.contains('\n') {
            let i = choose|i: int| 0 <= i < body.len() && body[i] == '\n';
            if i < name.len() {
                assert(name[i] == '\n');
            } else if i > name.len() {
                assert(comment[i - name.len() - 1] == '\n');
            }
        }
    }
    lemma_one_line(body);
    let line = body + seq!['\n'];
    assert(line.drop_last() =~= body);
    assert(line.last() == '\n');
    assert(body.last() != '\n') by {
        assert(body[body.len() - 1] == body.last());
    }
    assert(body.push('\n') =~= line);
    assert(seq![body].update(0, body.push('\n')) =~= seq![line]);
    assert(lines_of(line) =~= seq![line]);
    let c2 = comment + seq!['\n'];
    assert(!c2.contains('|')) by {
        if c2.contains('|') {
            let i = choose|i: int| 0 <= i < c2.len() && c2[i] == '|';
            if i < comment.len() {
                assert(comment[i] == '|');
            }
        }
    }
    assert(line =~= name + seq!['|'] + c2);
    lemma_split_two(name, c2, '|');
    assert(!is_comment(line)) by {
        if name.len() > 0 {
            assert(line[0] == name[0]);
        } else {
            assert(line[0] == '|');
        }
    }
    assert(line_entry(line) == Some((name, c2)));
    let m = Map::<Seq<char>, Seq<char>>::empty().insert(name, c2);
    assert(seq![line].drop_first() =~= Seq::<Seq<char>>::empty());
    assert(seq![line][0] == line);
    assert(read_table(seq![line], Map::empty()) == read_table(seq![line].drop_first(), m));
    assert(read_table(Seq::<Seq<char>>::empty(), m) == Ok::<Map<Seq<char>, Seq<char>>, Seq<char>>(m));
}

proof fn lemma_read_table_keeps_keys(lines: Seq<Seq<char>>, acc: Map<Seq<char>, Seq<char>>, name: Seq<char>)
    requires
        acc.contains_key(name),
    ensures
        read_table(lines, acc) matches Ok(m) ==> m.contains_key(name),
    decreases lines.len(),
{
    if lines.len() > 0 && !is_comment(lines[0]) {
        if let Some((n, c)) = line_entry(lines[0]) {
            lemma_read_table_keeps_keys(lines.drop_first(), acc.insert(n, c), name);
        }
    }
}

proof fn lemma_read_table_lists(lines: Seq<Seq<char>>, acc: Map<Seq<char>, Seq<char>>, i: int)
    requires
        0 <= i < lines.len(),
        forall|k: int| 0 <= k <= i ==> !is_comment(#[trigger] lines[k]),
    ensures
        read_table(lines, acc) matches Ok(m) ==> (line_entry(lines[i]) matches Some((n, _)) && m.contains_key(n)),
    decreases lines.len(),
{
    assert(!is_comment(lines[0]));
    if let Some((n, c)) = line_entry(lines[0]) {
        if i == 0 {
            lemma_read_table_keeps_keys(lines.drop_first(), acc.insert(n, c), n);
        } else {
            assert forall|k: int| 0 <= k <= i - 1 implies !is_comment(#[trigger] lines.drop_first()[k]) by {
                assert(lines.drop_first()[k] == lines[k + 1]);
            }
            lemma_read_table_lists(lines.drop_first(), acc.insert(n, c), i - 1);
            assert(lines.drop_first()[i - 1] == lines[i]);
        }
    }
}

/// Every line of a blacklist file before its first `#` line lists a name,
/// and that name is in the table that the file stands for (when the file is
/// not refused).
pub proof fn law_listed_names_are_in_the_table(s: Seq<char>, i: int)
    requires
        0 <= i < lines_of(s).len(),
        forall|k: int| 0 <= k <= i ==> !is_comment(#[trigger] lines_of(s)[k]),
    ensures
        spec_parse_blacklist(s) matches Ok(m) ==> (line_entry(lines_of(s)[i]) matches Some((n, _))
            && m.contains_key(n)),
{
    lemma_read_table_lists(lines_of(s), Map::empty(), i);
}

/// Whether `line` lists the name `n`.
pub open spec fn line_names(line: Seq<char>, n: Seq<char>) -> bool {
    line_entry(line) matches Some((x, _)) && x == n
}

proof fn lemma_read_table_form(lines: Seq<Seq<char>>, acc: Map<Seq<char>, Seq<char>>, n: Seq<char>)
    requires
        forall|k: int| 0 <= k < lines.len() ==> !is_comment(#[trigger] lines[k]),
    ensures
        read_table(lines, acc) is Err <==> exists|k: int| 0 <= k < lines.len() && line_entry(#[trigger] lines[k]) is None,
        read_table(lines, acc) matches Ok(m) ==> {
            &&& m.contains_key(n) <==> (acc.contains_key(n) || exists|k: int|
                0 <= k < lines.len() && line_names(#[trigger] lines[k], n))
            &&& (exists|k: int| 0 <= k < lines.len() && line_names(#[trigger] lines[k], n)) ==> exists|k: int|
                0 <= k < lines.len() && line_names(#[trigger] lines[k], n) && m[n] == line_entry(lines[k])->Some_0.1
                    && forall|k2: int| k < k2 < lines.len() ==> !line_names(#[trigger] lines[k2], n)
            &&& !(exists|k: int| 0 <= k < lines.len() && line_names(#[trigger] lines[k], n)) && acc.contains_key(n)
                ==> m[n] == acc[n]
        },
    decreases lines.len(),
{
    if lines.len() > 0 {
        let rest = lines.drop_first();
        assert forall|k: int| 0 <= k < rest.len() implies rest[k] == lines[k + 1] by {}
        assert(!is_comment(lines[0]));
        match line_entry(lines[0]) {
            None => {},
            Some((x, c)) => {
                let acc1 = acc.insert(x, c);
                lemma_read_table_form(rest, acc1, n);
                assert((exists|k: int| 0 <= k < lines.len() && line_entry(#[trigger] lines[k]) is None) ==> exists|k: int|
                    0 <= k < rest.len() && line_entry(#[trigger] rest[k]) is None) by {
                    if exists|k: int| 0 <= k < lines.len() && line_entry(#[trigger] lines[k]) is None {
                        let k = choose|k: int| 0 <= k < lines.len() && line_entry(#[trigger] lines[k]) is None;
                        assert(rest[k - 1] == lines[k]);
                    }
                }
                assert((exists|k: int| 0 <= k < rest.len() && line_entry(#[trigger] rest[k]) is None) ==> exists|k: int|
                    0 <= k < lines.len() && line_entry(#[trigger] lines[k]) is None) by {
                    if exists|k: int| 0 <= k < rest.len() && line_entry(#[trigger] rest[k]) is None {
                        let k = choose|k: int| 0 <= k < rest.len() && line_entry(#[trigger] rest[k]) is None;
                        assert(lines[k + 1] == rest[k]);
                    }
                }
                let in_rest = exists|k: int| 0 <= k < rest.len() && line_names(#[trigger] rest[k], n);
                let in_lines = exists|k: int| 0 <= k < lines.len() && line_names(#[trigger] lines[k], n);
                assert(in_lines <==> (in_rest || x == n)) by {
                    if in_lines {
                        let k = choose|k: int| 0 <= k < lines.len() && line_names(#[trigger] lines[k], n);
                        if k > 0 {
                            assert(rest[k - 1] == lines[k]);
                        }
                    }
                    if in_rest {
                        let k = choose|k: int| 0 <= k < rest.len() && line_names(#[trigger] rest[k], n);
                        assert(lines[k + 1] == rest[k]);
                    }
                    if x == n {
                        assert(line_names(lines[0], n));
                    }
                }
                if let Ok(m) = read_table(rest, acc1) {
                    if in_rest {
                        let k = choose|k: int|
                            0 <= k < rest.len() && line_names(#[trigger] rest[k], n) && m[n] == line_entry(rest[k])->Some_0.1
                                && forall|k2: int| k < k2 < rest.len() ==> !line_names(#[trigger] rest[k2], n);
                        assert(lines[k + 1] == rest[k]);
                        assert forall|k2: int| k + 1 < k2 < lines.len() implies !line_names(#[trigger] lines[k2], n) by {
                            assert(rest[k2 - 1] == lines[k2]);
                        }
                        assert(line_names(lines[k + 1], n));
                    } else if x == n {
                        assert(line_names(lines[0], n));
                        assert forall|k2: int| 0 < k2 < lines.len() implies !line_names(#[trigger] lines[k2], n) by {
                            assert(rest[k2 - 1] == lines[k2]);
                        }
                    }
                }
            },
        }
    }
}

/// A blacklist file without `#` lines is refused exactly when one of its
/// lines has no `|`; otherwise its table has as names exactly the names that
/// its lines list, and maps each name to the comment of the last line that
/// lists it.
pub proof fn law_blacklist_table_of_lines(s: Seq<char>, n: Seq<char>)
    requires
        forall|k: int| 0 <= k < lines_of(s).len() ==> !is_comment(#[trigger] lines_of(s)[k]),
    ensures
        spec_parse_blacklist(s) is Err <==> exists|k: int|
            0 <= k < lines_of(s).len() && line_entry(#[trigger] lines_of(s)[k]) is None,
        spec_parse_blacklist(s) matches Ok(m) ==> {
            &&& m.contains_key(n) <==> exists|k: int| 0 <= k < lines_of(s).len() && line_names(#[trigger] lines_of(s)[k], n)
            &&& m.contains_key(n) ==> exists|k: int|
                0 <= k < lines_of(s).len() && line_names(#[trigger] lines_of(s)[k], n) && m[n] == line_entry(
                    lines_of(s)[k],
                )->Some_0.1 && forall|k2: int| k < k2 < lines_of(s).len() ==> !line_names(#[trigger] lines_of(s)[k2], n)
        },
{
    lemma_read_table_form(lines_of(s), Map::empty(), n);
}

// ------------------------------------------------------------------
// The table
// ------------------------------------------------------------------

/// The map that holds a blacklist table: `std::collections::HashMap<String, String>`.
pub type NameMap = std::collections::HashMap<String, String>;

/// The entries of a name map, by the text of keys and values.
pub uninterp spec fn name_entries(map: NameMap) -> Map<Seq<char>, Seq<char>>;

/// Creates an empty map with `HashMap::with_capacity`; it holds no entry.
#[verifier::external_body]
fn name_map_new() -> (r: NameMap)
    ensures
        name_entries(r).dom() =~= Set::empty(),
{
    std::collections::HashMap::with_capacity(512)
}

/// Calls `HashMap::insert`: afterwards `key` maps to `value`, and the other
/// entries are unchanged.
#[verifier::external_body]
fn name_map_insert(m: &mut NameMap, key: String, value: String)
    ensures
        name_entries(*final(m)) == name_entries(*old(m)).insert(key@, value@),
{
    m.insert(key, value);
}

/// Calls `HashMap::contains_key` with a `&str` key: whether a key with the
/// same text is present.
#[verifier::external_body]
fn name_map_contains(m: &NameMap, key: &str) -> (r: bool)
    ensures
        r == name_entries(*m).contains_key(key@),
{
    m.contains_key(key)
}

/// Calls `HashMap::len`: the number of entries.
#[verifier::external_body]
fn name_map_len(m: &NameMap) -> (r: usize)
    ensures
        r == name_entries(*m).dom().len(),
{
    m.len()
}

/// A table from file names to comments.
pub struct BlacklistTable {
    map: NameMap,
}

impl View for BlacklistTable {
    type V = Map<Seq<char>, Seq<char>>;

    closed spec fn view(&self) -> Map<Seq<char>, Seq<char>> {
        name_entries(self.map)
    }
}

impl BlacklistTable {
    /// An empty table.
    pub fn new() -> (t: BlacklistTable)
        ensures
            t@ == Map::<Seq<char>, Seq<char>>::empty(),
            t@.dom().finite(),
    {
        BlacklistTable { map: name_map_new() }
    }

    /// Records `comment` for `name`.
    pub fn insert(&mut self, name: String, comment: String)
        ensures
            final(self)@ == old(self)@.insert(name@, comment@),
            old(self)@.dom().finite() ==> final(self)@.dom().finite(),
    {
        name_map_insert(&mut self.map, name, comment);
    }

    /// Whether `name` is in the table.
    pub fn contains(&self, name: &str) -> (r: bool)
        ensures
            r == self@.contains_key(name@),
    {
        name_map_contains(&self.map, name)
    }

    /// The number of names in the table.
    pub fn len(&self) -> (r: usize)
        ensures
            r == self@.dom().len(),
    {
        name_map_len(&self.map)
    }
}

// ------------------------------------------------------------------
// Reading a blacklist file
// ------------------------------------------------------------------

/// Why the text of a blacklist file is refused.
#[derive(Debug)]
pub enum BlacklistError {
    /// A line that has no `|` (with its line break, if any).
    InvalidLine { line: String },
}

/// The lines of `s`, each with its terminating `\n`.
pub fn split_lines(s: &str) -> (r: Vec<String>)
    ensures
        r@.map_values(|t: String| t@) == lines_of(s@),
{
    let chars = chars_of(s);
    let mut lines: Vec<String> = Vec::new();
    let mut current = String::new();
    let mut i: usize = 0;
    while i < chars.len()
        invariant
            i <= chars.len(),
            chars@ == s@,
            current@.len() == 0 ==> lines@.map_values(|t: String| t@) == lines_of(chars@.take(i as int)),
            current@.len() > 0 ==> lines@.map_values(|t: String| t@).push(current@) == lines_of(
                chars@.take(i as int),
            ),
            current@.len() > 0 ==> current@.last() != '\n',
            current@.len() == 0 ==> (lines.len() == 0 || lines@.last()@.last() == '\n'),
            forall|j: int| 0 <= j < lines.len() ==> (#[trigger] lines@[j])@.len() > 0,
        decreases chars.len() - i,
    {
        assert(chars@.take(i + 1).drop_last() =~= chars@.take(i as int));
        let ghost before = lines@.map_values(|t: String| t@);
        let c = chars[i];
        push_char(&mut current, c);
        proof {
            if current@.len() > 1 {
                assert(before.push(current@) =~= lines_of(chars@.take(i + 1)));
            } else {
                assert(current@ =~= seq![c]);
                if lines.len() > 0 {
                    assert(before.last() == lines@.last()@);
                }
                assert(before.push(current@) =~= lines_of(chars@.take(i + 1)));
            }
        }
        if c == '\n' {
            let done = current;
            lines.push(done);
            current = String::new();
            assert(lines@.map_values(|t: String| t@) =~= before.push(done@));
        }
        i += 1;
    }
    assert(chars@.take(chars.len() as int) =~= chars@);
    if current.as_str().is_empty() {
        lines
    } else {
        let ghost before = lines@.map_values(|t: String| t@);
        let last = current;
        lines.push(last);
        assert(lines@.map_values(|t: String| t@) =~= before.push(last@));
        lines
    }
}

/// Whether `s` starts with `#`.
pub fn starts_with_hash(s: &str) -> (r: bool)
    ensures
        r == is_comment(s@),
{
    let chars = chars_of(s);
    chars.len() > 0 && chars[0] == '#'
}

/// The name and comment of `line` (see [`line_entry`]).
pub fn parse_line(line: &str) -> (r: Option<(String, String)>)
    ensures
        match r {
            Some((n, c)) => line_entry(line@) == Some((n@, c@)),
            None => line_entry(line@) is None,
        },
{
    let chars = chars_of(line);
    let mut name = String::new();
    let mut comment = String::new();
    let mut bars: usize = 0;
    let mut i: usize = 0;
    while i < chars.len()
        invariant
            i <= chars.len(),
            chars@ == line@,
            bars <= 2,
            ({
                let parts = split_on(chars@.take(i as int), '|');
                &&& parts.len() == bars + 1 || (bars == 2 && parts.len() >= 3)
                &&& parts[0] == name@
                &&& bars >= 1 ==> parts[1] == comment@
                &&& bars == 0 ==> comment@.len() == 0
            }),
        decreases chars.len() - i,
    {
        assert(chars@.take(i + 1).drop_last() =~= chars@.take(i as int));
        let c = chars[i];
        proof {
            crate::normalize::lemma_split_on_nonempty(chars@.take(i as int), '|');
        }
        if c == '|' {
            if bars < 2 {
                bars += 1;
            }
        } else if bars == 0 {
            push_char(&mut name, c);
        } else if bars == 1 {
            push_char(&mut comment, c);
        }
        i += 1;
    }
    assert(chars@.take(chars.len() as int) =~= chars@);
    if bars >= 1 {
        Some((name, comment))
    } else {
        None
    }
}

/// Reads the text of a blacklist file (the logic of loading one): see
/// [`read_table`] for what each line does.
pub fn parse_blacklist(content: &str) -> (r: Result<BlacklistTable, BlacklistError>)
    ensures
        match r {
            Ok(t) => spec_parse_blacklist(content@) == Ok::<Map<Seq<char>, Seq<char>>, Seq<char>>(t@),
            Err(BlacklistError::InvalidLine { line }) => spec_parse_blacklist(content@) == Err::<
                Map<Seq<char>, Seq<char>>,
                Seq<char>,
            >(line@),
        },
        r matches Ok(t) ==> t@.dom().finite(),
{
    let lines = split_lines(content);
    let ghost lv = lines@.map_values(|t: String| t@);
    let mut table = BlacklistTable::new();
    let mut k: usize = 0;
    assert(lv.skip(0) =~= lv);
    while k < lines.len()
        invariant
            k <= lines.len(),
            lv == lines@.map_values(|t: String| t@),
            lv == lines_of(content@),
            read_table(lv, Map::empty()) == read_table(lv.skip(k as int), table@),
            table@.dom().finite(),
        decreases lines.len() - k,
    {
        let line = &lines[k];
        assert(lv[k as int] == line@);
        assert(lv.skip(k as int).drop_first() =~= lv.skip(k + 1));
        assert(lv.skip(k as int)[0] == line@);
        if starts_with_hash(line.as_str()) {
            return Ok(table);
        }
        match parse_line(line.as_str()) {
            Some((name, comment)) => table.insert(name, comment),
            None => return Err(BlacklistError::InvalidLine { line: line.clone() }),
        }
        k += 1;
    }
    assert(lv.skip(k as int) =~= Seq::<Seq<char>>::empty());
    Ok(table)
}

// ------------------------------------------------------------------
// The predicate
// ------------------------------------------------------------------

/// The predicate that tells whether a file is blacklisted.
pub struct Blacklist {
    table: Option<BlacklistTable>,
}

/// The table of a blacklist, `None` when no names are listed.
pub open spec fn blacklist_names(table: Option<BlacklistTable>) -> Option<Map<Seq<char>, Seq<char>>> {
    match table {
        Some(t) => if t@.dom().len() > 0 {
            Some(t@)
        } else {
            None
        },
        None => None,
    }
}

impl Blacklist {
    /// The names of this blacklist.
    pub closed spec fn names(&self) -> Option<Map<Seq<char>, Seq<char>>> {
        match self.table {
            Some(t) => Some(t@),
            None => None,
        }
    }

    /// Whether the file at `path` is listed: its name up to the first `.`
    /// (as `Path::file_prefix` takes it) is a name of the table.
    pub fn is_blacklisted(&self, path: &str) -> (r: bool)
        ensures
            r == (self.names() matches Some(m) && path_file_prefix(path@) matches Some(p) && m.contains_key(p)),
    {
        match &self.table {
            None => false,
            Some(table) => match file_prefix(path) {
                None => false,
                Some(basename) => table.contains(basename.as_str()),
            },
        }
    }
}

/// [blacklisted table] builds the predicate testing whether a file is listed
/// in the blacklist `table` (read from the blacklist file, when one is
/// configured); an empty table lists nothing.
pub fn blacklisted(table: Option<BlacklistTable>) -> (r: Blacklist)
    ensures
        r.names() == blacklist_names(table),
{
    match table {
        None => Blacklist { table: None },
        Some(t) => {
            let length = t.len();
            if length > 0 {
                Blacklist { table: Some(t) }
            } else {
                Blacklist { table: None }
            }
        },
    }
}

/// The predicate built from a table of names tells exactly whether a
/// file's name up to its first `.` is one of the table's names; an empty
/// table lists nothing.
pub proof fn law_blacklisted_lists_the_table(table: BlacklistTable, path: Seq<char>)
    requires
        table@.dom().finite(),
    ensures
        (blacklist_names(Some(table)) matches Some(m) && path_file_prefix(path) matches Some(p) && m.contains_key(
            p,
        )) == (path_file_prefix(path) matches Some(p) && table@.contains_key(p)),
{
    if let Some(p) = path_file_prefix(path) {
        if table@.contains_key(p) {
            assert(table@.dom().contains(p));
            assert(table@.dom().remove(p).len() + 1 == table@.dom().len());
        }
    }
}

// ------------------------------------------------------------------
// Writing a blacklist line
// ------------------------------------------------------------------

/// The line that records the file at `path` with `comment`: the file's name
/// up to its first `.` (as `Path::file_prefix` takes it), `|`, the comment
/// and a line break; `None` when the path has no file name.
pub fn blacklist_line(path: &str, comment: &str) -> (r: Option<String>)
    ensures
        r is None <==> path_file_prefix(path@) is None,
        r matches Some(l) ==> (path_file_prefix(path@) matches Some(p) && l@ == p + "|"@ + comment@ + "\n"@),
{
    match file_prefix(path) {
        None => None,
        Some(prefix) => {
            let mut line = prefix;
            line.append("|");
            line.append(comment);
            line.append("\n");
            Some(line)
        },
    }
}

/// A blacklist file made of the line written for a file lists that file's
/// name, with the comment and the line break as its value (when neither
/// holds `|` or a line break, and the name does not start with `#`).
pub proof fn law_written_line_lists_its_name(path: Seq<char>, name: Seq<char>, comment: Seq<char>)
    requires
        path_file_prefix(path) == Some(name),
        !name.contains('|'),
        !name.contains('\n'),
        !comment.contains('|'),
        !comment.contains('\n'),
        !is_comment(name),
    ensures
        spec_parse_blacklist(name + "|"@ + comment + "\n"@) == Ok::<Map<Seq<char>, Seq<char>>, Seq<char>>(
            Map::empty().insert(name, comment + "\n"@),
        ),
{
    reveal_strlit("|");
    reveal_strlit("\n");
    assert("|"@ =~= seq!['|']);
    assert("\n"@ =~= seq!['\n']);
    law_single_line_lists_its_name(name, comment);
}

} // verus!
