//! Minimal `.env` reader/writer.
//!
//! Reads a handful of well-known keys and appends lines with consent. Bare,
//! single-quoted and double-quoted values are understood; trailing whitespace
//! is stripped, and `#` comments are stripped outside quotes.

use vstd::prelude::*;
use vstd::string::*;

use crate::table::Table;
use crate::text::{
    begins, chars_first, contains, eq, find_of, first_of, from_chars, is_space, is_whitespace,
    lemma_find_of, lemma_find_of_is, lemma_first_of, lemma_first_of_is, lemma_lines_append,
    lemma_lines_close, lemma_trim_end, lemma_trim_ends, lemma_trim_push, lemma_trim_same,
    lemma_trim_start, lemma_trim_start_suffix, lemma_trim_strip_cr, lines, lines_of, occurs_at,
    split_once, split_once_of, starts_with, strip_cr, texts, to_chars, trim, trim_of, trim_start,
    trim_start_of,
};

verus! {

/// A file henk wants to read.
#[derive(Debug)]
pub enum FileState {
    /// There is no such file.
    Missing,
    /// It exists and cannot be read as text.
    Unreadable,
    /// Its contents.
    Text(String),
}

/// A `.env` file that exists and could not be read.
#[derive(Debug, Clone, Copy, PartialEq, Eq, Structural)]
pub enum EnvFile {
    /// `.env`
    Env,
    /// `.env.local`
    EnvLocal,
}

/// The first place from `i` on where a comment begins: a `#` after whitespace.
/// The length of the text when there is none.
pub open spec fn comment_from(s: Seq<char>, i: int) -> int
    decreases s.len() - i,
{
    if i < 1 || i >= s.len() {
        s.len() as int
    } else if s[i] == '#' && is_space(s[i - 1]) {
        i
    } else {
        comment_from(s, i + 1)
    }
}

/// The text between a leading quote `q` and the next one, if `s` has both.
pub open spec fn quoted(s: Seq<char>, q: char) -> Option<Seq<char>> {
    let end = first_of(s.drop_first(), q);
    if s.len() > 0 && s[0] == q && end < s.len() - 1 {
        Some(s.subrange(1, 1 + end))
    } else {
        None
    }
}

/// The value that the text after `=` stands for.
pub open spec fn value_of(raw: Seq<char>) -> Seq<char> {
    let s = trim_start_of(raw);
    match (quoted(s, '"'), quoted(s, '\'')) {
        (Some(v), _) => v,
        (None, Some(v)) => v,
        (None, None) => trim_of(raw.take(comment_from(raw, 1))),
    }
}

/// The key and value that a line assigns. Blank lines, comments, lines without
/// `=` and lines without a key assign nothing.
pub open spec fn assignment(line: Seq<char>) -> Option<(Seq<char>, Seq<char>)> {
    let t = trim_of(line);
    if t.len() == 0 || t[0] == '#' {
        None
    } else {
        match split_once_of(t, "="@) {
            None => None,
            Some((k, v)) => if trim_of(k).len() == 0 {
                None
            } else {
                Some((trim_of(k), value_of(v)))
            },
        }
    }
}

/// What a list of lines assigns; the last assignment of a key counts.
pub open spec fn assigned(list: Seq<Seq<char>>) -> Map<Seq<char>, Seq<char>>
    decreases list.len(),
{
    if list.len() == 0 {
        Map::empty()
    } else {
        match assignment(list.last()) {
            Some((k, v)) => assigned(list.drop_last()).insert(k, v),
            None => assigned(list.drop_last()),
        }
    }
}

/// What a `.env` body assigns.
pub open spec fn env_of(body: Seq<char>) -> Map<Seq<char>, Seq<char>> {
    assigned(lines_of(body))
}

/// The texts that a table holds.
pub open spec fn env_view(t: Table<String>) -> Map<Seq<char>, Seq<char>> {
    t@.map_values(|v: String| v@)
}

/// The text between a leading quote and the next one.
fn quoted_part(s: &Vec<char>, q: char) -> (r: Option<String>)
    ensures
        crate::text::opt_text(r) == quoted(s@, q),
{
    if s.len() == 0 || s[0] != q {
        return None;
    }
    let end = chars_first(s, q, 1);
    assert(s@.skip(1) =~= s@.drop_first());
    if end < s.len() {
        let v = from_chars(s, 1, end);
        Some(v)
    } else {
        None
    }
}

/// The value that the text after `=` stands for.
pub fn strip_value(raw: &str) -> (r: String)
    ensures
        r@ == value_of(raw@),
{
    let s = to_chars(trim_start(raw).as_str());
    proof {
        crate::text::lemma_first_of(s@.drop_first(), '"');
        crate::text::lemma_first_of(s@.drop_first(), '\'');
    }
    if let Some(v) = quoted_part(&s, '"') {
        return v;
    }
    if let Some(v) = quoted_part(&s, '\'') {
        return v;
    }
    let all = to_chars(raw);
    let mut i: usize = 1;
    while i < all.len() && !(all[i] == '#' && is_whitespace(all[i - 1]))
        invariant
            all@ == raw@,
            1 <= i,
            comment_from(raw@, i as int) == comment_from(raw@, 1),
        decreases all@.len() - i,
    {
        i += 1;
    }
    let cut: usize = if i < all.len() {
        i
    } else {
        all.len()
    };
    let kept = from_chars(&all, 0, cut);
    assert(kept@ =~= raw@.take(comment_from(raw@, 1)));
    trim(kept.as_str())
}

/// The key and value that a line assigns.
fn read_line(line: &str) -> (r: Option<(String, String)>)
    ensures
        crate::text::opt_pair(r) == assignment(line@),
{
    let t = trim(line);
    let chars = to_chars(t.as_str());
    if chars.len() == 0 || chars[0] == '#' {
        return None;
    }
    match split_once(t.as_str(), "=") {
        None => None,
        Some((k, v)) => {
            let key = trim(k.as_str());
            if key.as_str().is_empty() {
                return None;
            }
            Some((key, strip_value(v.as_str())))
        },
    }
}

/// Reads a `.env` body. Lines that assign nothing are ignored.
pub fn parse(body: &str) -> (r: Table<String>)
    ensures
        r.wf(),
        env_view(r) == env_of(body@),
{
    let list = lines(body);
    let ghost all = lines_of(body@);
    let mut out: Table<String> = Table::new();
    let mut i: usize = 0;
    assert(env_view(out) =~= assigned(all.take(0)));
    while i < list.len()
        invariant
            i <= list@.len(),
            all == texts(list@),
            all == lines_of(body@),
            out.wf(),
            env_view(out) == assigned(all.take(i as int)),
        decreases list@.len() - i,
    {
        assert(all.take(i + 1).drop_last() =~= all.take(i as int));
        assert(all.take(i + 1).last() == list@[i as int]@);
        let ghost before = env_view(out);
        if let Some((k, v)) = read_line(list[i].as_str()) {
            let ghost key = k@;
            let ghost value = v@;
            out.insert(k, v);
            assert(env_view(out) =~= before.insert(key, value));
        }
        i += 1;
    }
    assert(all.take(i as int) =~= all);
    out
}

/// The variables of a project: those of `.env.local` when it exists, otherwise
/// those of `.env`, otherwise none. A file that exists and cannot be read is an
/// error.
pub open spec fn project_env(local: FileState, env: FileState) -> Result<
    Map<Seq<char>, Seq<char>>,
    EnvFile,
> {
    match (local, env) {
        (FileState::Text(body), _) => Ok(env_of(body@)),
        (FileState::Unreadable, _) => Err(EnvFile::EnvLocal),
        (FileState::Missing, FileState::Text(body)) => Ok(env_of(body@)),
        (FileState::Missing, FileState::Unreadable) => Err(EnvFile::Env),
        (FileState::Missing, FileState::Missing) => Ok(Map::empty()),
    }
}

/// The view of the result of [`read`].
pub open spec fn env_result(r: Result<Table<String>, EnvFile>) -> Result<
    Map<Seq<char>, Seq<char>>,
    EnvFile,
> {
    match r {
        Ok(t) => Ok(env_view(t)),
        Err(e) => Err(e),
    }
}

/// Reads a project's variables from the state of its two files.
pub fn read(local: &FileState, env: &FileState) -> (r: Result<Table<String>, EnvFile>)
    ensures
        env_result(r) == project_env(*local, *env),
        r matches Ok(t) ==> t.wf(),
{
    match local {
        FileState::Text(body) => Ok(parse(body.as_str())),
        FileState::Unreadable => Err(EnvFile::EnvLocal),
        FileState::Missing => match env {
            FileState::Text(body) => Ok(parse(body.as_str())),
            FileState::Unreadable => Err(EnvFile::Env),
            FileState::Missing => {
                let t: Table<String> = Table::new();
                assert(env_view(t) =~= Map::empty());
                Ok(t)
            },
        },
    }
}

/// A line without the `#`s and whitespace it begins with.
pub open spec fn uncommented(line: Seq<char>) -> Seq<char>
    decreases line.len(),
{
    if line.len() > 0 && (line[0] == '#' || is_space(line[0])) {
        uncommented(line.drop_first())
    } else {
        line
    }
}

/// Does a line name `key`, be it commented out?
pub open spec fn names_key(line: Seq<char>, key: Seq<char>) -> bool {
    let u = uncommented(line);
    begins(u, key + "="@) || (split_once_of(u, "="@) matches Some((k, _)) && trim_of(k) == key)
}

/// Does any line of a body name `key`?
pub open spec fn mentions(body: Seq<char>, key: Seq<char>) -> bool {
    exists|i: int| 0 <= i < lines_of(body).len() && names_key(#[trigger] lines_of(body)[i], key)
}

/// A body that ends its last line.
pub open spec fn closed_body(body: Seq<char>) -> Seq<char> {
    if body.len() > 0 && body.last() != '\n' {
        body.push('\n')
    } else {
        body
    }
}

/// A body with one more `KEY=VALUE` line.
pub open spec fn with_line(body: Seq<char>, key: Seq<char>, value: Seq<char>) -> Seq<char> {
    closed_body(body) + (key + "="@ + value + "\n"@)
}

/// Drops the `#`s and whitespace a line begins with.
fn uncomment(line: &str) -> (r: String)
    ensures
        r@ == uncommented(line@),
{
    let v = to_chars(line);
    let mut i: usize = 0;
    assert(v@.skip(0) =~= v@);
    while i < v.len() && (v[i] == '#' || is_whitespace(v[i]))
        invariant
            v@ == line@,
            i <= v@.len(),
            uncommented(v@.skip(i as int)) == uncommented(line@),
        decreases v@.len() - i,
    {
        assert(v@.skip(i as int)[0] == v@[i as int]);
        assert(v@.skip(i as int).drop_first() =~= v@.skip(i + 1));
        i += 1;
    }
    proof {
        if i < v@.len() {
            assert(v@.skip(i as int)[0] == v@[i as int]);
        }
    }
    let r = from_chars(&v, i, v.len());
    assert(r@ =~= v@.skip(i as int));
    r
}

/// Does a line name `key`?
fn line_names(line: &str, key: &str) -> (r: bool)
    ensures
        r == names_key(line@, key@),
{
    let u = uncomment(line);
    if starts_with(u.as_str(), key.to_owned().concat("=").as_str()) {
        return true;
    }
    match split_once(u.as_str(), "=") {
        Some((k, _)) => eq(trim(k.as_str()).as_str(), key),
        None => false,
    }
}

/// Does any line of a body name `key`?
pub fn has_key(body: &str, key: &str) -> (r: bool)
    ensures
        r == mentions(body@, key@),
{
    let list = lines(body);
    let ghost all = lines_of(body@);
    let mut i: usize = 0;
    while i < list.len()
        invariant
            i <= list@.len(),
            all == texts(list@),
            all == lines_of(body@),
            forall|j: int| 0 <= j < i ==> !names_key(#[trigger] all[j], key@),
        decreases list@.len() - i,
    {
        assert(all[i as int] == list@[i as int]@);
        if line_names(list[i].as_str(), key) {
            return true;
        }
        i += 1;
    }
    false
}

/// The new contents of a `.env` with one `KEY=VALUE` line appended, or `None`
/// when the key is already in it (even commented out) and nothing may be
/// written. Existing lines are never touched.
pub fn append_if_absent(existing: &str, key: &str, value: &str) -> (r: Option<String>)
    ensures
        match r {
            Some(text) => !mentions(existing@, key@) && text@ == with_line(
                existing@,
                key@,
                value@,
            ),
            None => mentions(existing@, key@),
        },
{
    if has_key(existing, key) {
        return None;
    }
    let chars = to_chars(existing);
    let mut text = existing.to_owned();
    if chars.len() > 0 && chars[chars.len() - 1] != '\n' {
        text.push('\n');
    }
    let line = key.to_owned().concat("=").concat(value).concat("\n");
    Some(text.concat(line.as_str()))
}

/// Lists of lines that assign the same, line by line, assign the same.
proof fn lemma_assigned_same(a: Seq<Seq<char>>, b: Seq<Seq<char>>)
    requires
        a.len() == b.len(),
        forall|i: int| 0 <= i < a.len() ==> assignment(#[trigger] a[i]) == assignment(b[i]),
    ensures
        assigned(a) == assigned(b),
    decreases a.len(),
{
    if a.len() > 0 {
        assert forall|i: int| 0 <= i < a.drop_last().len() implies assignment(
            #[trigger] a.drop_last()[i],
        ) == assignment(b.drop_last()[i]) by {
            assert(a.drop_last()[i] == a[i]);
        }
        lemma_assigned_same(a.drop_last(), b.drop_last());
        assert(assignment(a[a.len() - 1]) == assignment(b[a.len() - 1]));
    }
}

/// Ending the last line changes nothing that a body assigns.
proof fn lemma_env_closed(body: Seq<char>)
    ensures
        env_of(closed_body(body)) == env_of(body),
        closed_body(body).len() == 0 || closed_body(body).last() == '\n',
{
    if body.len() > 0 && body.last() != '\n' {
        lemma_lines_close(body);
        let a = lines_of(body.push('\n'));
        let b = lines_of(body);
        assert forall|i: int| 0 <= i < a.len() implies assignment(#[trigger] a[i]) == assignment(
            b[i],
        ) by {
            lemma_trim_strip_cr(b[i]);
            if i < a.len() - 1 {
                assert(a[i] == b.drop_last()[i]);
            }
        }
        lemma_assigned_same(a, b);
    }
}

/// A value that stands for itself has no whitespace around it.
proof fn lemma_plain_value(value: Seq<char>)
    requires
        value_of(value) == value,
    ensures
        value.len() > 0 ==> !is_space(value[0]) && !is_space(value.last()),
{
    let s = trim_start_of(value);
    lemma_trim_start(value);
    crate::text::lemma_first_of(s.drop_first(), '"');
    crate::text::lemma_first_of(s.drop_first(), '\'');
    lemma_trim_ends(value.take(comment_from(value, 1)));
}

/// Appending only adds: the old contents are a prefix of the new ones.
pub proof fn law_append_only(body: Seq<char>, key: Seq<char>, value: Seq<char>)
    ensures
        body.is_prefix_of(with_line(body, key, value)),
{
    assert(with_line(body, key, value).take(body.len() as int) =~= body);
}

/// After appending a key, appending it again writes nothing, whatever the value.
/// (A key that begins with whitespace or `#`, or holds a line break, names no
/// line.)
pub proof fn law_append_once(body: Seq<char>, key: Seq<char>, value: Seq<char>)
    requires
        !key.contains('\n'),
        key.len() > 0 ==> !is_space(key[0]) && key[0] != '#',
    ensures
        mentions(with_line(body, key, value), key),
{
    reveal_strlit("=");
    reveal_strlit("\n");
    lemma_env_closed(body);
    let head = closed_body(body);
    let tail = key + "="@ + value + "\n"@;
    lemma_lines_append(head, tail);
    lemma_first_of(tail, '\n');
    let i = first_of(tail, '\n');
    assert(tail.last() == '\n');
    assert(i < tail.len());
    assert forall|j: int| 0 <= j <= key.len() implies tail[j] != '\n' by {
        if j < key.len() {
            assert(tail[j] == key[j]);
            assert(key.contains(key[j]));
        } else {
            assert(tail[j] == '=');
        }
    }
    assert(i > key.len());
    let line = strip_cr(tail.take(i));
    assert(tail.take(i)[key.len() as int] == '=');
    assert(line.len() > key.len());
    assert(line.subrange(0, key.len() as int + 1) =~= key + "="@);
    assert(line[0] == (key + "="@)[0]);
    assert(uncommented(line) == line);
    assert((key + "="@).len() == key.len() + 1);
    assert(names_key(line, key));
    let all = lines_of(with_line(body, key, value));
    assert(all[lines_of(head).len() as int] == line);
}

/// A line that assigns a key names it.
proof fn lemma_assignment_names(line: Seq<char>)
    requires
        assignment(line) is Some,
    ensures
        names_key(line, (assignment(line)->0).0),
{
    reveal_strlit("=");
    let u = trim_start_of(line);
    let t = trim_of(line);
    lemma_trim_start(line);
    lemma_trim_end(u);
    assert(u[0] == t[0]);
    lemma_uncommented(line);
    lemma_find_of(t, "="@);
    let i = find_of(t, "="@)->0;
    assert(t[i] == '=') by {
        assert(t.subrange(i, i + 1)[0] == t[i]);
    }
    assert(u.subrange(i, i + 1) =~= t.subrange(i, i + 1));
    assert forall|j: int| 0 <= j < i implies !occurs_at(u, "="@, j) by {
        if occurs_at(u, "="@, j) {
            assert(t.subrange(j, j + 1) =~= u.subrange(j, j + 1));
            assert(occurs_at(t, "="@, j));
        }
    }
    lemma_find_of_is(u, "="@, i);
    assert(u.take(i) =~= t.take(i));
}

/// A line that is no comment loses only whitespace by uncommenting.
proof fn lemma_uncommented(line: Seq<char>)
    requires
        trim_start_of(line).len() > 0,
        trim_start_of(line)[0] != '#',
    ensures
        uncommented(line) == trim_start_of(line),
    decreases line.len(),
{
    if line.len() > 0 && is_space(line[0]) {
        lemma_uncommented(line.drop_first());
    }
}

/// A key that has a value is never appended again: what a body assigns it also
/// names.
pub proof fn law_assigned_keys_are_named(body: Seq<char>, key: Seq<char>)
    requires
        env_of(body).dom().contains(key),
    ensures
        mentions(body, key),
{
    lemma_assigner(lines_of(body), key);
}

/// Some line assigns each assigned key.
proof fn lemma_assigner(list: Seq<Seq<char>>, key: Seq<char>)
    requires
        assigned(list).dom().contains(key),
    ensures
        exists|i: int| 0 <= i < list.len() && names_key(#[trigger] list[i], key),
    decreases list.len(),
{
    if list.len() > 0 {
        let last = list.last();
        if assignment(last) is Some && (assignment(last)->0).0 == key {
            lemma_assignment_names(last);
            assert(list[list.len() - 1] == last);
        } else {
            lemma_assigner(list.drop_last(), key);
            let i = choose|i: int|
                0 <= i < list.drop_last().len() && names_key(#[trigger] list.drop_last()[i], key);
            assert(list[i] == list.drop_last()[i]);
        }
    }
}

/// Reading a body to which a line was appended gives what it gave before, with
/// the key set to the value. (A key that is empty, padded, a comment, or holds
/// `=` or a line break cannot be read back; nor can a value that holds a line
/// break or does not stand for itself.)
pub proof fn law_read_back(body: Seq<char>, key: Seq<char>, value: Seq<char>)
    requires
        key.len() > 0,
        trim_of(key) == key,
        key[0] != '#',
        !key.contains('='),
        !key.contains('\n'),
        !value.contains('\n'),
        value_of(value) == value,
    ensures
        env_of(with_line(body, key, value)) == env_of(body).insert(key, value),
{
    reveal_strlit("=");
    reveal_strlit("\n");
    lemma_env_closed(body);
    lemma_plain_value(value);
    lemma_trim_ends(key);
    let head = closed_body(body);
    let line = key + "="@ + value;
    let tail = line + "\n"@;
    lemma_lines_append(head, tail);
    assert(line[0] == key[0]);
    assert(line.last() == (if value.len() > 0 {
        value.last()
    } else {
        '='
    }));
    assert forall|j: int| 0 <= j < line.len() implies line[j] != '\n' by {
        if j < key.len() {
            assert(key.contains(key[j]));
        } else if j > key.len() {
            assert(line[j] == value[j - key.len() - 1]);
            assert(value.contains(value[j - key.len() - 1]));
        }
    }
    lemma_first_of_is(tail, '\n', line.len() as int);
    assert(tail.take(line.len() as int) =~= line);
    assert(tail.skip((line.len() + 1) as int) =~= Seq::<char>::empty());
    assert(strip_cr(line) == line);
    assert(lines_of(Seq::<char>::empty()) =~= Seq::<Seq<char>>::empty());
    assert(lines_of(tail) =~= seq![line]);
    lemma_trim_same(line);
    assert(line.subrange(key.len() as int, key.len() as int + 1) =~= "="@);
    assert forall|j: int| 0 <= j < key.len() implies !occurs_at(line, "="@, j) by {
        assert(line.subrange(j, j + 1)[0] == key[j]);
        assert(key.contains(key[j]));
    }
    lemma_find_of_is(line, "="@, key.len() as int);
    assert(line.take(key.len() as int) =~= key);
    assert(line.skip((key.len() + 1) as int) =~= value);
    assert(assignment(line) == Some((key, value)));
    let all = lines_of(with_line(body, key, value));
    assert(with_line(body, key, value) =~= head + tail);
    assert(all =~= lines_of(head).push(line));
    assert(all.drop_last() =~= lines_of(head));
}

/// A value in quotes is what stands between them; what follows the closing quote
/// is dropped, and a `#` between the quotes is part of the value.
pub proof fn law_quotes_hold_the_value(value: Seq<char>, rest: Seq<char>)
    ensures
        !value.contains('"') ==> value_of(seq!['"'] + value + seq!['"'] + rest) == value,
        !value.contains('\'') ==> value_of(seq!['\''] + value + seq!['\''] + rest) == value,
{
    if !value.contains('"') {
        lemma_quoted(value, '"', rest);
    }
    if !value.contains('\'') {
        lemma_quoted(value, '\'', rest);
    }
}

/// The text between two quotes.
proof fn lemma_quoted(value: Seq<char>, q: char, rest: Seq<char>)
    requires
        q == '"' || q == '\'',
        !value.contains(q),
    ensures
        value_of(seq![q] + value + seq![q] + rest) == value,
{
    let raw = seq![q] + value + seq![q] + rest;
    let n = value.len() as int;
    assert(raw[0] == q);
    assert(!is_space(raw[0]));
    assert(trim_start_of(raw) == raw);
    let tail = raw.drop_first();
    assert(tail[n] == q);
    assert forall|j: int| 0 <= j < n implies tail[j] != q by {
        assert(tail[j] == value[j]);
        assert(value.contains(value[j]));
    }
    lemma_first_of_is(tail, q, n);
    assert(raw.subrange(1, 1 + n) =~= value);
}

/// A comment after a value is dropped, with the whitespace before it.
pub proof fn law_comments_are_dropped(value: Seq<char>, comment: Seq<char>)
    requires
        value.len() > 0,
        trim_of(value) == value,
        !value.contains('#'),
        value[0] != '"',
        value[0] != '\'',
    ensures
        value_of(value + seq![' ', '#'] + comment) == value,
{
    let raw = value + seq![' ', '#'] + comment;
    let n = value.len() as int;
    lemma_trim_ends(value);
    assert(raw[0] == value[0]);
    assert(trim_start_of(raw) == raw);
    lemma_comment_at(raw, 1, n + 1);
    assert(raw.take(n + 1) =~= value.push(' '));
    lemma_trim_push(value, ' ');
}

/// The first comment of a value that has no earlier `#`.
proof fn lemma_comment_at(s: Seq<char>, i: int, k: int)
    requires
        1 <= i <= k < s.len(),
        s[k] == '#',
        is_space(s[k - 1]),
        forall|j: int| i <= j < k ==> s[j] != '#',
    ensures
        comment_from(s, i) == k,
    decreases k - i,
{
    if i < k {
        lemma_comment_at(s, i + 1, k);
    }
}

/// Comments, blank lines and lines without `=` assign nothing, and neither does a
/// line without a key.
pub proof fn law_other_lines_assign_nothing(line: Seq<char>)
    ensures
        trim_of(line).len() == 0 ==> assignment(line) is None,
        trim_of(line).len() > 0 && (trim_of(line)[0] == '#' || trim_of(line)[0] == '=')
            ==> assignment(line) is None,
        !contains(line, "="@) ==> assignment(line) is None,
{
    reveal_strlit("=");
    let t = trim_of(line);
    if t.len() > 0 && t[0] == '=' {
        assert(t.subrange(0, 1) =~= "="@);
        assert(occurs_at(t, "="@, 0));
        lemma_find_of(t, "="@);
        lemma_find_of_is(t, "="@, 0);
        assert(t.take(0) =~= Seq::<char>::empty());
        assert(trim_of(Seq::<char>::empty()) =~= Seq::<char>::empty());
    }
    if !contains(line, "="@) && split_once_of(t, "="@) is Some {
        lemma_find_of(t, "="@);
        let i = find_of(t, "="@)->0;
        let u = trim_start_of(line);
        lemma_trim_end(u);
        lemma_trim_start_suffix(line);
        let k = line.len() - u.len();
        assert(line.subrange(k + i, k + i + 1) =~= t.subrange(i, i + 1));
        assert(occurs_at(line, "="@, k + i));
    }
}

/// `.env.local` is read in place of `.env` whenever it exists; a project with
/// neither has no variables, and a file that cannot be read is reported under
/// its name.
pub proof fn law_local_variables_win(local: FileState, env: FileState)
    ensures
        local matches FileState::Text(body) ==> project_env(local, env) == Ok::<
            Map<Seq<char>, Seq<char>>,
            EnvFile,
        >(env_of(body@)),
        local is Unreadable ==> project_env(local, env) == Err::<
            Map<Seq<char>, Seq<char>>,
            EnvFile,
        >(EnvFile::EnvLocal),
        local is Missing ==> (env matches FileState::Text(body) ==> project_env(local, env) == Ok::<
            Map<Seq<char>, Seq<char>>,
            EnvFile,
        >(env_of(body@))),
        local is Missing && env is Unreadable ==> project_env(local, env) == Err::<
            Map<Seq<char>, Seq<char>>,
            EnvFile,
        >(EnvFile::Env),
        local is Missing && env is Missing ==> (project_env(local, env) matches Ok(m)
            && m.dom().is_empty()),
{
}

/// Whitespace and `#`s in front of a line make no difference to what it names.
proof fn lemma_uncommented_skips(mark: Seq<char>, s: Seq<char>)
    requires
        forall|j: int| 0 <= j < mark.len() ==> (#[trigger] mark[j] == '#' || is_space(mark[j])),
    ensures
        uncommented(mark + s) == uncommented(s),
    decreases mark.len(),
{
    if mark.len() == 0 {
        assert(mark + s =~= s);
    } else {
        let rest = mark.drop_first();
        assert((mark + s)[0] == mark[0]);
        assert((mark + s).drop_first() =~= rest + s);
        assert forall|j: int| 0 <= j < rest.len() implies (#[trigger] rest[j] == '#' || is_space(
            rest[j],
        )) by {
            assert(rest[j] == mark[j + 1]);
        }
        lemma_uncommented_skips(rest, s);
    }
}

/// A key that a line assigns counts as named, also where the line is commented
/// out: the user has decided about it.
pub proof fn law_commented_keys_count(mark: Seq<char>, key: Seq<char>, rest: Seq<char>)
    requires
        forall|j: int| 0 <= j < mark.len() ==> (#[trigger] mark[j] == '#' || is_space(mark[j])),
        key.len() > 0,
        key[0] != '#' && !is_space(key[0]),
    ensures
        names_key(mark + (key + "="@ + rest), key),
{
    let s = key + "="@ + rest;
    lemma_uncommented_skips(mark, s);
    assert(s[0] == key[0]);
    assert(uncommented(s) == s);
    assert(s.subrange(0, (key + "="@).len() as int) =~= key + "="@);
}

/// What is left of a line without its marks is the end of the line.
proof fn lemma_uncommented_suffix(line: Seq<char>)
    ensures
        uncommented(line).len() <= line.len(),
        uncommented(line) == line.skip(line.len() - uncommented(line).len()),
    decreases line.len(),
{
    if line.len() > 0 && (line[0] == '#' || is_space(line[0])) {
        let rest = line.drop_first();
        lemma_uncommented_suffix(rest);
        let n = rest.len() - uncommented(rest).len();
        assert(rest.skip(n) =~= line.skip(n + 1));
    } else {
        assert(line.skip(0) =~= line);
    }
}

/// A line in which a key does not occur does not name it.
pub proof fn law_absent_keys_are_not_named(line: Seq<char>, key: Seq<char>)
    requires
        !contains(line, key),
    ensures
        !names_key(line, key),
{
    if names_key(line, key) {
        let u = uncommented(line);
        let n = line.len() - u.len();
        lemma_uncommented_suffix(line);
        if begins(u, key + "="@) {
            assert(u.subrange(0, key.len() as int) =~= u.subrange(
                0,
                (key + "="@).len() as int,
            ).subrange(0, key.len() as int));
            assert((key + "="@).subrange(0, key.len() as int) =~= key);
            assert(line.subrange(n, n + key.len()) =~= u.subrange(0, key.len() as int));
            assert(occurs_at(line, key, n));
        } else {
            lemma_find_of(u, "="@);
            let k = (split_once_of(u, "="@)->0).0;
            let t = trim_start_of(k);
            lemma_trim_start_suffix(k);
            lemma_trim_end(t);
            let m = k.len() - t.len();
            assert(key =~= t.take(key.len() as int));
            assert(line.subrange(n + m, n + m + key.len()) =~= key);
            assert(occurs_at(line, key, n + m));
        }
    }
}

} // verus!
