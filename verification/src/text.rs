//! Text as sequences of characters.
//!
//! Everything henk reads (`.env` bodies, command output, YAML rules, config
//! files) and everything it writes is text. This module states what the usual
//! text operations mean over `Seq<char>` and implements them.

use vstd::prelude::*;
use vstd::string::*;

verus! {

/// `String::push`: appends the given character to the end of the string.
pub assume_specification[ String::push ](s: &mut String, c: char)
    ensures
        final(s)@ == old(s)@.push(c),
;

/// The view of a list of strings: the list of their texts.
pub open spec fn texts(list: Seq<String>) -> Seq<Seq<char>> {
    list.map_values(|s: String| s@)
}

/// The view of an optional string.
pub open spec fn opt_text(s: Option<String>) -> Option<Seq<char>> {
    match s {
        Some(t) => Some(t@),
        None => None,
    }
}

/// The characters of a string, as a vector.
pub fn to_chars(s: &str) -> (v: Vec<char>)
    ensures
        v@ == s@,
{
    let mut v: Vec<char> = Vec::new();
    for c in it: s.chars()
        invariant
            v@ == it.seq().take(it.index() as int),
            it.seq() == s@,
    {
        v.push(c);
    }
    v
}

/// The string made of `chars[from..to]`.
pub fn from_chars(chars: &Vec<char>, from: usize, to: usize) -> (s: String)
    requires
        from <= to <= chars@.len(),
    ensures
        s@ == chars@.subrange(from as int, to as int),
{
    let mut s = String::new();
    let mut i: usize = from;
    while i < to
        invariant
            from <= i <= to <= chars@.len(),
            s@ == chars@.subrange(from as int, i as int),
        decreases to - i,
    {
        s.push(chars[i]);
        i += 1;
        assert(s@ =~= chars@.subrange(from as int, i as int));
    }
    s
}

/// String equality, by text.
pub fn eq(a: &str, b: &str) -> (r: bool)
    ensures
        r == (a@ == b@),
{
    a.to_owned() == b.to_owned()
}

// ---------------------------------------------------------------- occurrences

/// Does `pat` stand in `s` at index `i`?
pub open spec fn occurs_at(s: Seq<char>, pat: Seq<char>, i: int) -> bool {
    0 <= i && i + pat.len() <= s.len() && s.subrange(i, i + pat.len()) == pat
}

/// Does `pat` stand anywhere in `s`?
pub open spec fn contains(s: Seq<char>, pat: Seq<char>) -> bool {
    exists|i: int| occurs_at(s, pat, i)
}

/// Does `s` begin with `pat`?
pub open spec fn begins(s: Seq<char>, pat: Seq<char>) -> bool {
    occurs_at(s, pat, 0)
}

/// Does `s` end with `pat`?
pub open spec fn ends(s: Seq<char>, pat: Seq<char>) -> bool {
    occurs_at(s, pat, s.len() - pat.len())
}

/// Index of the first occurrence of `pat` in `s`, if it occurs at all.
pub open spec fn is_first(s: Seq<char>, pat: Seq<char>, i: int) -> bool {
    occurs_at(s, pat, i) && forall|j: int| 0 <= j < i ==> !occurs_at(s, pat, j)
}

/// Decides [`occurs_at`] on character vectors.
pub fn chars_match_at(s: &Vec<char>, pat: &Vec<char>, i: usize) -> (r: bool)
    ensures
        r == occurs_at(s@, pat@, i as int),
{
    if pat.len() > s.len() || i > s.len() - pat.len() {
        return false;
    }
    let n: usize = s.len();
    let mut k: usize = 0;
    while k < pat.len()
        invariant
            k <= pat@.len(),
            n == s@.len(),
            i + pat@.len() <= n,
            forall|j: int| 0 <= j < k ==> s@[i + j] == pat@[j],
        decreases pat@.len() - k,
    {
        if s[i + k] != pat[k] {
            assert(s@.subrange(i as int, i + pat@.len())[k as int] != pat@[k as int]);
            return false;
        }
        k += 1;
    }
    assert(s@.subrange(i as int, i + pat@.len()) =~= pat@);
    true
}

/// First occurrence of `pat` at or after `from`, or `None`.
pub fn chars_find(s: &Vec<char>, pat: &Vec<char>, from: usize) -> (r: Option<usize>)
    ensures
        match r {
            Some(i) => from <= i && occurs_at(s@, pat@, i as int) && forall|j: int|
                from <= j < i ==> !occurs_at(s@, pat@, j),
            None => forall|j: int| from <= j ==> !occurs_at(s@, pat@, j),
        },
{
    let mut i: usize = from;
    while i <= s.len()
        invariant
            from <= i,
            i <= s@.len() + 1 || i == from,
            forall|j: int| from <= j < i ==> !occurs_at(s@, pat@, j),
        decreases s@.len() + 1 - i,
    {
        if chars_match_at(s, pat, i) {
            return Some(i);
        }
        if i == s.len() {
            assert forall|j: int| from <= j implies !occurs_at(s@, pat@, j) by {}
            return None;
        }
        i += 1;
    }
    None
}

/// Does `s` begin with `pat`?
pub fn starts_with(s: &str, pat: &str) -> (r: bool)
    ensures
        r == begins(s@, pat@),
{
    chars_match_at(&to_chars(s), &to_chars(pat), 0)
}

/// Does `s` end with `pat`?
pub fn ends_with(s: &str, pat: &str) -> (r: bool)
    ensures
        r == ends(s@, pat@),
{
    let sv = to_chars(s);
    let pv = to_chars(pat);
    if pv.len() > sv.len() {
        return false;
    }
    chars_match_at(&sv, &pv, sv.len() - pv.len())
}

/// Does `pat` stand anywhere in `s`?
pub fn has_text(s: &str, pat: &str) -> (r: bool)
    ensures
        r == contains(s@, pat@),
{
    let found = chars_find(&to_chars(s), &to_chars(pat), 0);
    match found {
        Some(i) => {
            assert(occurs_at(s@, pat@, i as int));
            true
        },
        None => false,
    }
}

// ---------------------------------------------------------------- whitespace

/// Unicode's `White_Space` property, the one `char::is_whitespace` documents.
pub open spec fn is_space(c: char) -> bool {
    let n = c as int;
    ||| 0x9 <= n <= 0xd
    ||| n == 0x20
    ||| n == 0x85
    ||| n == 0xa0
    ||| n == 0x1680
    ||| 0x2000 <= n <= 0x200a
    ||| n == 0x2028
    ||| n == 0x2029
    ||| n == 0x202f
    ||| n == 0x205f
    ||| n == 0x3000
}

/// Decides [`is_space`].
pub fn is_whitespace(c: char) -> (r: bool)
    ensures
        r == is_space(c),
{
    let n: u32 = c as u32;
    (0x9 <= n && n <= 0xd) || n == 0x20 || n == 0x85 || n == 0xa0 || n == 0x1680 || (0x2000 <= n
        && n <= 0x200a) || n == 0x2028 || n == 0x2029 || n == 0x202f || n == 0x205f || n == 0x3000
}

/// `s` without its leading whitespace.
pub open spec fn trim_start_of(s: Seq<char>) -> Seq<char>
    decreases s.len(),
{
    if s.len() > 0 && is_space(s[0]) {
        trim_start_of(s.drop_first())
    } else {
        s
    }
}

/// `s` without its trailing whitespace.
pub open spec fn trim_end_of(s: Seq<char>) -> Seq<char>
    decreases s.len(),
{
    if s.len() > 0 && is_space(s.last()) {
        trim_end_of(s.drop_last())
    } else {
        s
    }
}

/// `s` without leading and trailing whitespace.
pub open spec fn trim_of(s: Seq<char>) -> Seq<char> {
    trim_end_of(trim_start_of(s))
}

/// `s` without its leading whitespace.
pub fn trim_start(s: &str) -> (r: String)
    ensures
        r@ == trim_start_of(s@),
{
    let v = to_chars(s);
    let mut i: usize = 0;
    assert(v@.skip(0) =~= v@);
    while i < v.len() && is_whitespace(v[i])
        invariant
            i <= v@.len(),
            v@ == s@,
            trim_start_of(v@.skip(i as int)) == trim_start_of(v@),
        decreases v@.len() - i,
    {
        assert(v@.skip(i as int).drop_first() =~= v@.skip(i + 1));
        i += 1;
    }
    assert(v@.skip(i as int) =~= v@.subrange(i as int, v@.len() as int));
    from_chars(&v, i, v.len())
}

/// `s` without its trailing whitespace.
pub fn trim_end(s: &str) -> (r: String)
    ensures
        r@ == trim_end_of(s@),
{
    let v = to_chars(s);
    let mut i: usize = v.len();
    assert(v@.take(i as int) =~= v@);
    while i > 0 && is_whitespace(v[i - 1])
        invariant
            i <= v@.len(),
            v@ == s@,
            trim_end_of(v@.take(i as int)) == trim_end_of(v@),
        decreases i,
    {
        assert(v@.take(i as int).drop_last() =~= v@.take(i - 1));
        i -= 1;
    }
    assert(v@.take(i as int) =~= v@.subrange(0, i as int));
    from_chars(&v, 0, i)
}

/// `s` without leading and trailing whitespace.
pub fn trim(s: &str) -> (r: String)
    ensures
        r@ == trim_of(s@),
{
    trim_end(trim_start(s).as_str())
}

// ---------------------------------------------------------------- letter case

/// The ASCII lower-case form of one character.
pub open spec fn lower_char(c: char) -> char {
    if 'A' <= c <= 'Z' {
        ((c as int) + 32) as char
    } else {
        c
    }
}

/// `s` with every ASCII upper-case letter made lower case.
pub open spec fn lower_of(s: Seq<char>) -> Seq<char> {
    s.map_values(|c: char| lower_char(c))
}

/// The ASCII lower-case form of one character.
pub fn to_lower_char(c: char) -> (r: char)
    ensures
        r == lower_char(c),
{
    if 'A' <= c && c <= 'Z' {
        ((c as u8) + 32) as char
    } else {
        c
    }
}

/// `str::to_ascii_lowercase`.
pub fn lower(s: &str) -> (r: String)
    ensures
        r@ == lower_of(s@),
{
    let v = to_chars(s);
    let mut out = String::new();
    let mut i: usize = 0;
    while i < v.len()
        invariant
            i <= v@.len(),
            v@ == s@,
            out@ == lower_of(v@.take(i as int)),
        decreases v@.len() - i,
    {
        out.push(to_lower_char(v[i]));
        i += 1;
        assert(out@ =~= lower_of(v@.take(i as int)));
    }
    assert(v@.take(i as int) =~= v@);
    out
}

// ---------------------------------------------------------------- cutting

/// Index of the first `c` in `s`; the length of `s` when there is none.
pub open spec fn first_of(s: Seq<char>, c: char) -> int
    decreases s.len(),
{
    if s.len() == 0 || s[0] == c {
        0
    } else {
        1 + first_of(s.drop_first(), c)
    }
}

/// What [`first_of`] means: it is the least index holding `c`.
pub proof fn lemma_first_of(s: Seq<char>, c: char)
    ensures
        0 <= first_of(s, c) <= s.len(),
        first_of(s, c) < s.len() ==> s[first_of(s, c)] == c,
        forall|j: int| 0 <= j < first_of(s, c) ==> s[j] != c,
    decreases s.len(),
{
    if s.len() > 0 && s[0] != c {
        lemma_first_of(s.drop_first(), c);
        let k = first_of(s.drop_first(), c);
        assert forall|j: int| 0 <= j < first_of(s, c) implies s[j] != c by {
            if j > 0 {
                assert(s[j] == s.drop_first()[j - 1]);
            }
        }
        if k < s.drop_first().len() {
            assert(s[k + 1] == s.drop_first()[k]);
        }
    }
}

/// The least index holding `c` is the one [`first_of`] gives.
pub proof fn lemma_first_of_is(s: Seq<char>, c: char, i: int)
    requires
        0 <= i <= s.len(),
        i < s.len() ==> s[i] == c,
        forall|j: int| 0 <= j < i ==> s[j] != c,
    ensures
        first_of(s, c) == i,
{
    lemma_first_of(s, c);
    let k = first_of(s, c);
    if k < i {
        assert(s[k] != c);
    } else if i < k {
        assert(s[i] != c);
    }
}

/// First index at or after `from` that holds `c`, or the length.
pub fn chars_first(s: &Vec<char>, c: char, from: usize) -> (r: usize)
    requires
        from <= s@.len(),
    ensures
        from <= r <= s@.len(),
        r == from + first_of(s@.skip(from as int), c),
{
    let mut i: usize = from;
    while i < s.len() && s[i] != c
        invariant
            from <= i <= s@.len(),
            forall|j: int| from <= j < i ==> s@[j] != c,
        decreases s@.len() - i,
    {
        i += 1;
    }
    proof {
        let t = s@.skip(from as int);
        assert forall|j: int| 0 <= j < i - from implies t[j] != c by {
            assert(t[j] == s@[from + j]);
        }
        lemma_first_of_is(t, c, i - from);
    }
    i
}

/// The pieces of `s` between the separators `c`. There is always at least one.
pub open spec fn split_of(s: Seq<char>, c: char) -> Seq<Seq<char>>
    decreases s.len(),
{
    let i = first_of(s, c);
    if 0 <= i < s.len() {
        seq![s.take(i)] + split_of(s.skip(i + 1), c)
    } else {
        seq![s]
    }
}

/// `str::split` on one character.
pub fn split(s: &str, c: char) -> (r: Vec<String>)
    ensures
        texts(r@) == split_of(s@, c),
        r@.len() >= 1,
{
    let v = to_chars(s);
    let mut out: Vec<String> = Vec::new();
    let mut start: usize = 0;
    assert(v@.skip(0) =~= v@);
    assert(texts(out@) + split_of(v@, c) =~= split_of(v@, c));
    loop
        invariant
            v@ == s@,
            start <= v@.len(),
            texts(out@) + split_of(v@.skip(start as int), c) == split_of(s@, c),
        decreases v@.len() - start,
    {
        let i = chars_first(&v, c, start);
        let piece = from_chars(&v, start, i);
        let ghost before = texts(out@);
        let ghost rest = v@.skip(start as int);
        out.push(piece);
        assert(texts(out@) =~= before.push(piece@));
        if i == v.len() {
            assert(rest =~= piece@);
            assert(texts(out@) =~= before + seq![rest]);
            return out;
        }
        proof {
            assert(rest.take(i - start) =~= piece@);
            assert(rest.skip(i - start + 1) =~= v@.skip(i + 1));
            assert(texts(out@) + split_of(v@.skip(i + 1), c) =~= before + (seq![piece@] + split_of(
                v@.skip(i + 1),
                c,
            )));
        }
        start = i + 1;
    }
}

/// `s` without one trailing carriage return.
pub open spec fn strip_cr(s: Seq<char>) -> Seq<char> {
    if s.len() > 0 && s.last() == '\r' {
        s.drop_last()
    } else {
        s
    }
}

/// The lines of `s`: ended by `\n` or `\r\n`, the last line ending optional.
pub open spec fn lines_of(s: Seq<char>) -> Seq<Seq<char>>
    decreases s.len(),
{
    let i = first_of(s, '\n');
    if s.len() == 0 {
        seq![]
    } else if 0 <= i < s.len() {
        seq![strip_cr(s.take(i))] + lines_of(s.skip(i + 1))
    } else {
        seq![s]
    }
}

/// `str::lines`.
pub fn lines(s: &str) -> (r: Vec<String>)
    ensures
        texts(r@) == lines_of(s@),
{
    let v = to_chars(s);
    let mut out: Vec<String> = Vec::new();
    let mut start: usize = 0;
    assert(v@.skip(0) =~= v@);
    assert(texts(out@) + lines_of(v@) =~= lines_of(v@));
    while start < v.len()
        invariant
            v@ == s@,
            start <= v@.len(),
            texts(out@) + lines_of(v@.skip(start as int)) == lines_of(s@),
        decreases v@.len() - start,
    {
        let i = chars_first(&v, '\n', start);
        let ghost before = texts(out@);
        let ghost rest = v@.skip(start as int);
        if i == v.len() {
            let piece = from_chars(&v, start, i);
            out.push(piece);
            assert(rest =~= piece@);
            assert(texts(out@) =~= before + seq![rest]);
            return out;
        }
        let end: usize = if i > start && v[i - 1] == '\r' {
            i - 1
        } else {
            i
        };
        let piece = from_chars(&v, start, end);
        out.push(piece);
        proof {
            assert(rest.take(i - start) =~= v@.subrange(start as int, i as int));
            assert(strip_cr(rest.take(i - start)) =~= piece@);
            assert(rest.skip(i - start + 1) =~= v@.skip(i + 1));
            assert(texts(out@) =~= before.push(piece@));
            assert(texts(out@) + lines_of(v@.skip(i + 1)) =~= before + (seq![piece@] + lines_of(
                v@.skip(i + 1),
            )));
        }
        start = i + 1;
    }
    assert(v@.skip(start as int) =~= Seq::<char>::empty());
    assert(texts(out@) + lines_of(v@.skip(start as int)) =~= texts(out@));
    out
}

/// Index of the first occurrence of `pat` in `s`, or `None`.
pub open spec fn find_of(s: Seq<char>, pat: Seq<char>) -> Option<int>
    decreases s.len(),
{
    if begins(s, pat) {
        Some(0int)
    } else if s.len() == 0 {
        None
    } else {
        match find_of(s.drop_first(), pat) {
            Some(i) => Some(i + 1),
            None => None,
        }
    }
}

/// [`find_of`] is the least index at which `pat` occurs, and is `None` exactly
/// when `pat` does not occur.
pub proof fn lemma_find_of(s: Seq<char>, pat: Seq<char>)
    ensures
        match find_of(s, pat) {
            Some(i) => is_first(s, pat, i),
            None => !contains(s, pat),
        },
    decreases s.len(),
{
    if !begins(s, pat) && s.len() > 0 {
        let t = s.drop_first();
        lemma_find_of(t, pat);
        assert forall|j: int| 0 <= j implies occurs_at(t, pat, j) == occurs_at(s, pat, j + 1) by {
            if j + 1 + pat.len() <= s.len() {
                assert(t.subrange(j, j + pat.len()) =~= s.subrange(j + 1, j + 1 + pat.len()));
            }
        }
        match find_of(t, pat) {
            Some(i) => {
                assert(occurs_at(s, pat, i + 1));
                assert forall|j: int| 0 <= j < i + 1 implies !occurs_at(s, pat, j) by {
                    if j > 0 {
                        assert(!occurs_at(t, pat, j - 1));
                    }
                }
            },
            None => {
                assert forall|j: int| !occurs_at(s, pat, j) by {
                    if j > 0 {
                        assert(!occurs_at(t, pat, j - 1));
                    }
                }
            },
        }
    }
}

/// The least index at which `pat` occurs is the one [`find_of`] gives.
pub proof fn lemma_find_of_is(s: Seq<char>, pat: Seq<char>, i: int)
    requires
        is_first(s, pat, i),
    ensures
        find_of(s, pat) == Some(i),
{
    lemma_find_of(s, pat);
    match find_of(s, pat) {
        Some(k) => {
            if k < i {
                assert(!occurs_at(s, pat, k));
            } else if i < k {
                assert(!occurs_at(s, pat, i));
            }
        },
        None => {},
    }
}

/// `str::find`, by character index.
pub fn find(s: &str, pat: &str) -> (r: Option<usize>)
    ensures
        match r {
            Some(i) => find_of(s@, pat@) == Some(i as int) && i + pat@.len() <= s@.len(),
            None => find_of(s@, pat@) is None,
        },
{
    let v = to_chars(s);
    let p = to_chars(pat);
    let found = chars_find(&v, &p, 0);
    proof {
        lemma_find_of(s@, pat@);
        match found {
            Some(i) => {
                lemma_find_of_is(s@, pat@, i as int);
            },
            None => {},
        }
    }
    found
}

/// `s` cut at the first occurrence of `pat`, which is dropped; `None` when it
/// does not occur.
pub open spec fn split_once_of(s: Seq<char>, pat: Seq<char>) -> Option<(Seq<char>, Seq<char>)> {
    match find_of(s, pat) {
        Some(i) => Some((s.take(i), s.skip(i + pat.len()))),
        None => None,
    }
}

/// The view of an optional pair of strings.
pub open spec fn opt_pair(p: Option<(String, String)>) -> Option<(Seq<char>, Seq<char>)> {
    match p {
        Some((a, b)) => Some((a@, b@)),
        None => None,
    }
}

/// `str::split_once`.
pub fn split_once(s: &str, pat: &str) -> (r: Option<(String, String)>)
    ensures
        opt_pair(r) == split_once_of(s@, pat@),
{
    match find(s, pat) {
        None => None,
        Some(i) => {
            let v = to_chars(s);
            let len: usize = v.len();
            let n: usize = to_chars(pat).len();
            let a = from_chars(&v, 0, i);
            let b = from_chars(&v, i + n, len);
            proof {
                assert(a@ =~= s@.take(i as int));
                assert(b@ =~= s@.skip(i + pat@.len()));
            }
            Some((a, b))
        },
    }
}

/// `s` without its leading `pat`; `None` when it does not begin with it.
pub open spec fn strip_prefix_of(s: Seq<char>, pat: Seq<char>) -> Option<Seq<char>> {
    if begins(s, pat) {
        Some(s.skip(pat.len() as int))
    } else {
        None
    }
}

/// `str::strip_prefix`.
pub fn strip_prefix(s: &str, pat: &str) -> (r: Option<String>)
    ensures
        opt_text(r) == strip_prefix_of(s@, pat@),
{
    let v = to_chars(s);
    let p = to_chars(pat);
    if chars_match_at(&v, &p, 0) {
        let r = from_chars(&v, p.len(), v.len());
        assert(r@ =~= s@.skip(pat@.len() as int));
        Some(r)
    } else {
        None
    }
}

/// Index of the last `c` in `s`; -1 when there is none.
pub open spec fn last_of(s: Seq<char>, c: char) -> int
    decreases s.len(),
{
    if s.len() == 0 {
        -1
    } else if s.last() == c {
        s.len() - 1
    } else {
        last_of(s.drop_last(), c)
    }
}

/// `s` cut at the last `c`, which is dropped; `None` when there is none.
pub open spec fn rsplit_once_of(s: Seq<char>, c: char) -> Option<(Seq<char>, Seq<char>)> {
    let i = last_of(s, c);
    if 0 <= i < s.len() {
        Some((s.take(i), s.skip(i + 1)))
    } else {
        None
    }
}

/// `str::rsplit_once` on one character.
pub fn rsplit_once(s: &str, c: char) -> (r: Option<(String, String)>)
    ensures
        opt_pair(r) == rsplit_once_of(s@, c),
{
    let v = to_chars(s);
    let mut i: usize = v.len();
    assert(v@.take(i as int) =~= v@);
    while i > 0
        invariant
            i <= v@.len(),
            v@ == s@,
            last_of(v@.take(i as int), c) == last_of(s@, c),
        decreases i,
    {
        if v[i - 1] == c {
            let a = from_chars(&v, 0, i - 1);
            let b = from_chars(&v, i, v.len());
            proof {
                assert(last_of(s@, c) == i - 1);
                assert(a@ =~= s@.take(i - 1));
                assert(b@ =~= s@.skip(i as int));
            }
            return Some((a, b));
        }
        assert(v@.take(i as int).drop_last() =~= v@.take(i - 1));
        i -= 1;
    }
    None
}

// ---------------------------------------------------------------- replacing

/// `s` with every occurrence of the non-empty `pat` replaced by `with`, found
/// from left to right without overlap.
pub open spec fn replace_of(s: Seq<char>, pat: Seq<char>, with: Seq<char>) -> Seq<char>
    decreases s.len(),
{
    if pat.len() == 0 || s.len() < pat.len() {
        s
    } else if begins(s, pat) {
        with + replace_of(s.skip(pat.len() as int), pat, with)
    } else {
        seq![s[0]] + replace_of(s.drop_first(), pat, with)
    }
}

/// `str::replace`, for a pattern that is not empty.
pub fn replace(s: &str, pat: &str, with: &str) -> (r: String)
    requires
        pat@.len() > 0,
    ensures
        r@ == replace_of(s@, pat@, with@),
{
    let v = to_chars(s);
    let p = to_chars(pat);
    let mut out = String::new();
    let mut i: usize = 0;
    assert(v@.skip(0) =~= v@);
    assert(out@ + replace_of(v@, p@, with@) =~= replace_of(v@, p@, with@));
    while i < v.len()
        invariant
            i <= v@.len(),
            v@ == s@,
            p@ == pat@,
            p@.len() > 0,
            out@ + replace_of(v@.skip(i as int), p@, with@) == replace_of(s@, p@, with@),
        decreases v@.len() - i,
    {
        let ghost rest = v@.skip(i as int);
        let ghost before = out@;
        if chars_match_at(&v, &p, i) {
            assert(rest.subrange(0, p@.len() as int) =~= v@.subrange(i as int, i + p@.len()));
            assert(begins(rest, p@));
            out.append(with);
            assert(rest.skip(p@.len() as int) =~= v@.skip(i + p@.len()));
            assert(out@ + replace_of(v@.skip(i + p@.len()), p@, with@) =~= before + (with@
                + replace_of(v@.skip(i + p@.len()), p@, with@)));
            i += p.len();
        } else {
            assert(!begins(rest, p@)) by {
                if begins(rest, p@) {
                    assert(rest.subrange(0, p@.len() as int) =~= v@.subrange(
                        i as int,
                        i + p@.len(),
                    ));
                }
            }
            let ghost tail = rest.drop_first();
            assert(tail =~= v@.skip(i + 1));
            out.push(v[i]);
            proof {
                if rest.len() < p@.len() {
                    assert(replace_of(tail, p@, with@) == tail);
                    assert(rest =~= seq![rest[0]] + tail);
                }
                assert(replace_of(rest, p@, with@) == seq![rest[0]] + replace_of(tail, p@, with@));
                assert(out@ + replace_of(tail, p@, with@) =~= before + (seq![rest[0]] + replace_of(
                    tail,
                    p@,
                    with@,
                )));
            }
            i += 1;
        }
    }
    assert(v@.skip(i as int) =~= Seq::<char>::empty());
    assert(out@ + replace_of(v@.skip(i as int), p@, with@) =~= out@);
    out
}

/// Where no occurrence of `pat` lies across a seam, the parts are replaced
/// separately.
pub proof fn lemma_replace_apart(u: Seq<char>, v: Seq<char>, pat: Seq<char>, with: Seq<char>)
    requires
        pat.len() > 0,
        forall|i: int|
            0 <= i < u.len() && u.len() < i + pat.len() ==> !#[trigger] occurs_at(u + v, pat, i),
    ensures
        replace_of(u + v, pat, with) == replace_of(u, pat, with) + replace_of(v, pat, with),
    decreases u.len(),
{
    let s = u + v;
    let n = pat.len() as int;
    if u.len() == 0 {
        assert(s =~= v);
        assert(replace_of(u, pat, with) + replace_of(v, pat, with) =~= replace_of(v, pat, with));
    } else if s.len() < n {
    } else if begins(s, pat) {
        assert(occurs_at(s, pat, 0));
        assert(n <= u.len());
        assert(u.subrange(0, n) =~= s.subrange(0, n));
        let w = u.skip(n);
        assert(s.skip(n) =~= w + v);
        assert forall|i: int| 0 <= i < w.len() && w.len() < i + n implies !#[trigger] occurs_at(
            w + v,
            pat,
            i,
        ) by {
            if occurs_at(w + v, pat, i) {
                assert((w + v).subrange(i, i + n) =~= s.subrange(i + n, i + n + n));
                assert(occurs_at(s, pat, i + n));
            }
        }
        lemma_replace_apart(w, v, pat, with);
        assert(replace_of(s, pat, with) =~= replace_of(u, pat, with) + replace_of(v, pat, with));
    } else {
        let w = u.drop_first();
        assert(s.drop_first() =~= w + v);
        assert(s[0] == u[0]);
        assert forall|i: int| 0 <= i < w.len() && w.len() < i + n implies !#[trigger] occurs_at(
            w + v,
            pat,
            i,
        ) by {
            if occurs_at(w + v, pat, i) {
                assert((w + v).subrange(i, i + n) =~= s.subrange(i + 1, i + 1 + n));
                assert(occurs_at(s, pat, i + 1));
            }
        }
        lemma_replace_apart(w, v, pat, with);
        if u.len() >= n {
            if begins(u, pat) {
                assert(s.subrange(0, n) =~= u.subrange(0, n));
            }
        } else {
            assert(u =~= seq![u[0]] + w);
        }
        assert(replace_of(s, pat, with) =~= replace_of(u, pat, with) + replace_of(v, pat, with));
    }
}

/// A text that ends or goes on with a character that `pat` does not hold is
/// replaced up to there and from there on.
pub proof fn lemma_replace_at_seam(u: Seq<char>, v: Seq<char>, pat: Seq<char>, with: Seq<char>)
    requires
        pat.len() > 0,
        (u.len() > 0 && !pat.contains(u.last())) || (v.len() > 0 && !pat.contains(v[0])),
    ensures
        replace_of(u + v, pat, with) == replace_of(u, pat, with) + replace_of(v, pat, with),
{
    assert forall|i: int| 0 <= i < u.len() && u.len() < i + pat.len() implies !#[trigger] occurs_at(
        u + v,
        pat,
        i,
    ) by {
        if occurs_at(u + v, pat, i) {
            let k = u.len() - i;
            let part = (u + v).subrange(i, i + pat.len());
            assert(part[k] == v[0] && part[k - 1] == u.last());
            assert(pat[k] == v[0] && pat[k - 1] == u.last());
        }
    }
    lemma_replace_apart(u, v, pat, with);
}

// ---------------------------------------------------------------- numbers

/// The decimal digit for `d`, which is below ten.
pub open spec fn digit_char(d: int) -> char {
    (('0' as int) + d) as char
}

/// `n` written in decimal, without leading zeros.
pub open spec fn decimal(n: nat) -> Seq<char>
    decreases n,
{
    if n < 10 {
        seq![digit_char(n as int)]
    } else {
        decimal(n / 10).push(digit_char((n % 10) as int))
    }
}

/// Is `c` one of `0` to `9`?
pub open spec fn is_digit(c: char) -> bool {
    '0' <= c <= '9'
}

/// Are all characters of `s` decimal digits?
pub open spec fn all_digits(s: Seq<char>) -> bool {
    forall|i: int| 0 <= i < s.len() ==> is_digit(#[trigger] s[i])
}

/// The number that a sequence of digits writes.
pub open spec fn digits_value(s: Seq<char>) -> nat
    decreases s.len(),
{
    if s.len() == 0 {
        0
    } else {
        digits_value(s.drop_last()) * 10 + ((s.last() as int) - ('0' as int)) as nat
    }
}

/// `s` without one leading plus sign.
pub open spec fn after_plus(s: Seq<char>) -> Seq<char> {
    if s.len() > 0 && s[0] == '+' {
        s.drop_first()
    } else {
        s
    }
}

/// What `str::parse::<u16>` accepts: an optional `+`, then at least one decimal
/// digit, for a value of at most 65535.
pub open spec fn parse_u16_of(s: Seq<char>) -> Option<u16> {
    let body = after_plus(s);
    if body.len() > 0 && all_digits(body) && digits_value(body) <= 65535 {
        Some(digits_value(body) as u16)
    } else {
        None
    }
}

/// `str::parse::<u16>().ok()`.
pub fn parse_u16(s: &str) -> (r: Option<u16>)
    ensures
        r == parse_u16_of(s@),
{
    let v = to_chars(s);
    let start: usize = if v.len() > 0 && v[0] == '+' {
        1
    } else {
        0
    };
    let ghost body = v@.skip(start as int);
    proof {
        if start == 0 {
            assert(body =~= s@);
        } else {
            assert(body =~= s@.drop_first());
        }
    }
    if start == v.len() {
        return None;
    }
    let mut val: u32 = 0;
    let mut i: usize = start;
    while i < v.len()
        invariant
            start <= i <= v@.len(),
            body == v@.skip(start as int),
            body == after_plus(s@),
            all_digits(body.take(i - start)),
            (val <= 65535 && val == digits_value(body.take(i - start))) || (val == 65536
                && digits_value(body.take(i - start)) > 65535),
        decreases v@.len() - i,
    {
        let c: char = v[i];
        assert(body[i - start] == c);
        if !('0' <= c && c <= '9') {
            assert(!is_digit(body[i - start]));
            return None;
        }
        let ghost here = body.take(i - start);
        let ghost next = body.take(i - start + 1);
        assert(next.drop_last() =~= here);
        assert(next.last() == c);
        assert(all_digits(next)) by {
            assert forall|j: int| 0 <= j < next.len() implies is_digit(#[trigger] next[j]) by {
                if j < here.len() {
                    assert(next[j] == here[j]);
                }
            }
        }
        let d: u32 = (c as u32) - 48;
        if val <= 65535 {
            let w: u32 = val * 10 + d;
            val = if w <= 65535 {
                w
            } else {
                65536
            };
        }
        i += 1;
    }
    assert(body.take(i - start) =~= body);
    if val <= 65535 {
        Some(val as u16)
    } else {
        None
    }
}

/// `n` in decimal.
pub fn decimal_u64(n: u64) -> (r: String)
    ensures
        r@ == decimal(n as nat),
    decreases n,
{
    let last: u8 = (n % 10) as u8;
    let c: char = (48u8 + last) as char;
    if n < 10 {
        let mut out = String::new();
        out.push(c);
        assert(out@ =~= decimal(n as nat));
        out
    } else {
        let mut out = decimal_u64(n / 10);
        out.push(c);
        out
    }
}

/// `n` in decimal.
pub fn decimal_u16(n: u16) -> (r: String)
    ensures
        r@ == decimal(n as nat),
{
    decimal_u64(n as u64)
}

/// A signed number in decimal, with a leading `-` when it is negative.
pub open spec fn decimal_int(n: int) -> Seq<char> {
    if n < 0 {
        seq!['-'] + decimal((-n) as nat)
    } else {
        decimal(n as nat)
    }
}

/// A signed number in decimal.
pub fn decimal_i32(n: i32) -> (r: String)
    ensures
        r@ == decimal_int(n as int),
{
    if n < 0 {
        let mut out = String::new();
        out.push('-');
        let m: i64 = -(n as i64);
        out.append(decimal_u64(m as u64).as_str());
        assert(out@ =~= decimal_int(n as int));
        out
    } else {
        decimal_u64(n as u64)
    }
}

/// Decimal notation is made of digits, never empty, and reads back as itself.
pub proof fn lemma_decimal(n: nat)
    ensures
        decimal(n).len() > 0,
        all_digits(decimal(n)),
        digits_value(decimal(n)) == n,
    decreases n,
{
    if n < 10 {
        let s = decimal(n);
        assert(s.drop_last() =~= Seq::<char>::empty());
        assert(digits_value(s.drop_last()) == 0);
    } else {
        lemma_decimal(n / 10);
        let s = decimal(n);
        assert(s.drop_last() =~= decimal(n / 10));
        assert forall|j: int| 0 <= j < s.len() implies is_digit(#[trigger] s[j]) by {
            if j < s.len() - 1 {
                assert(s[j] == decimal(n / 10)[j]);
            }
        }
    }
}

/// A port number written in decimal parses back to the same port.
pub proof fn law_port_round_trip(port: u16)
    ensures
        parse_u16_of(decimal(port as nat)) == Some(port),
{
    lemma_decimal(port as nat);
    let s = decimal(port as nat);
    assert(is_digit(s[0]));
}

// ---------------------------------------------------------------- joining

/// The texts of `list` with `sep` between neighbours.
pub open spec fn join_of(list: Seq<Seq<char>>, sep: Seq<char>) -> Seq<char>
    decreases list.len(),
{
    if list.len() == 0 {
        seq![]
    } else if list.len() == 1 {
        list[0]
    } else {
        join_of(list.drop_last(), sep) + sep + list.last()
    }
}

/// `[String]::join`.
pub fn join(list: &Vec<String>, sep: &str) -> (r: String)
    ensures
        r@ == join_of(texts(list@), sep@),
{
    let mut out = String::new();
    let mut i: usize = 0;
    let ghost all = texts(list@);
    while i < list.len()
        invariant
            i <= list@.len(),
            all == texts(list@),
            out@ == join_of(all.take(i as int), sep@),
        decreases list@.len() - i,
    {
        if i > 0 {
            out.append(sep);
        }
        out.append(list[i].as_str());
        proof {
            let next = all.take(i + 1);
            assert(next.drop_last() =~= all.take(i as int));
            assert(next.last() == list@[i as int]@);
            if i == 0 {
                assert(next[0] == list@[0]@);
                assert(out@ =~= next[0]);
            }
        }
        i += 1;
    }
    assert(all.take(i as int) =~= all);
    out
}

/// The words of `s`: its maximal runs of non-whitespace.
pub open spec fn words_of(s: Seq<char>) -> Seq<Seq<char>>
    decreases s.len(),
{
    if s.len() == 0 {
        seq![]
    } else if is_space(s[0]) {
        words_of(s.drop_first())
    } else {
        let n = word_len(s);
        if n <= 0 || n > s.len() {
            seq![]
        } else {
            seq![s.take(n)] + words_of(s.skip(n))
        }
    }
}

/// Length of the run of non-whitespace at the start of `s`.
pub open spec fn word_len(s: Seq<char>) -> int
    decreases s.len(),
{
    if s.len() == 0 || is_space(s[0]) {
        0
    } else {
        1 + word_len(s.drop_first())
    }
}

/// The run of non-whitespace that ends before index `i` has the length that
/// [`word_len`] gives.
proof fn lemma_word_len(s: Seq<char>, i: int)
    requires
        0 <= i <= s.len(),
        i < s.len() ==> is_space(s[i]),
        forall|j: int| 0 <= j < i ==> !is_space(s[j]),
    ensures
        word_len(s) == i,
    decreases s.len(),
{
    if i > 0 {
        let t = s.drop_first();
        assert forall|j: int| 0 <= j < i - 1 implies !is_space(t[j]) by {
            assert(t[j] == s[j + 1]);
        }
        if i < s.len() {
            assert(t[i - 1] == s[i]);
        }
        lemma_word_len(t, i - 1);
    }
}

/// `str::split_whitespace`.
pub fn words(s: &str) -> (r: Vec<String>)
    ensures
        texts(r@) == words_of(s@),
{
    let v = to_chars(s);
    let mut out: Vec<String> = Vec::new();
    let mut i: usize = 0;
    assert(v@.skip(0) =~= v@);
    assert(texts(out@) + words_of(v@) =~= words_of(v@));
    while i < v.len()
        invariant
            i <= v@.len(),
            v@ == s@,
            texts(out@) + words_of(v@.skip(i as int)) == words_of(s@),
        decreases v@.len() - i,
    {
        let ghost rest = v@.skip(i as int);
        let ghost before = texts(out@);
        assert(rest[0] == v@[i as int]);
        if is_whitespace(v[i]) {
            assert(rest.drop_first() =~= v@.skip(i + 1));
            i += 1;
        } else {
            let mut j: usize = i;
            while j < v.len() && !is_whitespace(v[j])
                invariant
                    i <= j <= v@.len(),
                    forall|k: int| i <= k < j ==> !is_space(v@[k]),
                decreases v@.len() - j,
            {
                j += 1;
            }
            let word = from_chars(&v, i, j);
            out.push(word);
            proof {
                assert forall|k: int| 0 <= k < j - i implies !is_space(rest[k]) by {
                    assert(rest[k] == v@[i + k]);
                }
                lemma_word_len(rest, j - i);
                if j == i {
                    assert(is_space(v@[i as int]));
                }
                assert(rest.take(j - i) =~= word@);
                assert(rest.skip(j - i) =~= v@.skip(j as int));
                assert(texts(out@) =~= before.push(word@));
                assert(texts(out@) + words_of(v@.skip(j as int)) =~= before + (seq![word@]
                    + words_of(v@.skip(j as int))));
            }
            i = j;
        }
    }
    assert(v@.skip(i as int) =~= Seq::<char>::empty());
    assert(texts(out@) + words_of(v@.skip(i as int)) =~= texts(out@));
    out
}

/// `n` blanks.
pub open spec fn blanks(n: nat) -> Seq<char> {
    Seq::new(n, |i: int| ' ')
}

/// `s`, filled up with blanks to `width` characters.
pub open spec fn padded(s: Seq<char>, width: nat) -> Seq<char> {
    if s.len() < width {
        s + blanks((width - s.len()) as nat)
    } else {
        s
    }
}

/// Fills `s` up with blanks to `width` characters.
pub fn pad(s: &str, width: usize) -> (r: String)
    ensures
        r@ == padded(s@, width as nat),
{
    let v = to_chars(s);
    let n: usize = v.len();
    let mut out = s.to_owned();
    let mut i: usize = n;
    assert(out@ =~= s@ + blanks(0));
    while i < width
        invariant
            n == s@.len(),
            n <= i,
            n <= width ==> i <= width,
            n > width ==> i == n,
            out@ == s@ + blanks((i - n) as nat),
        decreases width - i,
    {
        out.push(' ');
        i += 1;
        assert(out@ =~= s@ + blanks((i - n) as nat));
    }
    assert(s@ + blanks(0) =~= s@);
    out
}

// --------------------------------------------------------------- facts on texts

/// A text without `c` splits into itself.
pub proof fn lemma_split_whole(s: Seq<char>, c: char)
    requires
        !s.contains(c),
    ensures
        split_of(s, c) == seq![s],
{
    lemma_first_of(s, c);
}

/// Splitting takes the part before the first `c` off.
pub proof fn lemma_split_cons(a: Seq<char>, c: char, b: Seq<char>)
    requires
        !a.contains(c),
    ensures
        split_of(a + seq![c] + b, c) == seq![a] + split_of(b, c),
{
    let s = a + seq![c] + b;
    assert(s[a.len() as int] == c);
    assert forall|j: int| 0 <= j < a.len() implies s[j] != c by {
        assert(s[j] == a[j]);
        assert(a.contains(a[j]));
    }
    lemma_first_of_is(s, c, a.len() as int);
    assert(s.take(a.len() as int) =~= a);
    assert(s.skip((a.len() + 1) as int) =~= b);
}

/// Trimming leaves a text alone that neither begins nor ends with whitespace.
pub proof fn lemma_trim_same(s: Seq<char>)
    requires
        s.len() > 0 ==> !is_space(s[0]) && !is_space(s.last()),
    ensures
        trim_start_of(s) == s,
        trim_end_of(s) == s,
        trim_of(s) == s,
{
}

/// A decimal number holds digits only: no separator and nothing to trim.
pub proof fn lemma_decimal_plain(n: nat)
    ensures
        trim_of(decimal(n)) == decimal(n),
        forall|c: char| #[trigger] decimal(n).contains(c) ==> is_digit(c),
{
    lemma_decimal(n);
    lemma_trim_same(decimal(n));
}

/// What is left by trimming begins and ends with something else than
/// whitespace, and is part of the text.
pub proof fn lemma_trim_start(s: Seq<char>)
    ensures
        trim_start_of(s).len() <= s.len(),
        trim_start_of(s).len() > 0 ==> !is_space(trim_start_of(s)[0]),
    decreases s.len(),
{
    if s.len() > 0 && is_space(s[0]) {
        lemma_trim_start(s.drop_first());
    }
}

/// Trimming the start leaves a suffix.
pub proof fn lemma_trim_start_suffix(s: Seq<char>)
    ensures
        trim_start_of(s).len() <= s.len(),
        trim_start_of(s) == s.skip(s.len() - trim_start_of(s).len()),
    decreases s.len(),
{
    if s.len() > 0 && is_space(s[0]) {
        let rest = s.drop_first();
        lemma_trim_start_suffix(rest);
        let n = rest.len() - trim_start_of(rest).len();
        assert(rest.skip(n) =~= s.skip(n + 1));
    } else {
        assert(s.skip(0) =~= s);
    }
}

/// Trimming the end leaves a prefix that does not end with whitespace.
pub proof fn lemma_trim_end(s: Seq<char>)
    ensures
        trim_end_of(s).len() <= s.len(),
        trim_end_of(s) == s.take(trim_end_of(s).len() as int),
        trim_end_of(s).len() > 0 ==> !is_space(trim_end_of(s).last()),
        s.len() > 0 && !is_space(s[0]) ==> trim_end_of(s).len() > 0,
    decreases s.len(),
{
    if s.len() > 0 && is_space(s.last()) {
        lemma_trim_end(s.drop_last());
        let n = trim_end_of(s).len() as int;
        assert(s.drop_last().take(n) =~= s.take(n));
        if !is_space(s[0]) {
            assert(s.len() > 1);
            assert(s.drop_last()[0] == s[0]);
        }
    } else {
        assert(s.take(s.len() as int) =~= s);
    }
}

/// A trimmed text neither begins nor ends with whitespace; trimming it again
/// changes nothing.
pub proof fn lemma_trim_ends(s: Seq<char>)
    ensures
        trim_of(s).len() <= s.len(),
        trim_of(s).len() > 0 ==> !is_space(trim_of(s)[0]) && !is_space(trim_of(s).last()),
        trim_of(trim_of(s)) == trim_of(s),
{
    lemma_trim_start(s);
    lemma_trim_end(trim_start_of(s));
    lemma_trim_same(trim_of(s));
}

/// Whitespace at the end makes no difference to what trimming leaves.
pub proof fn lemma_trim_push(s: Seq<char>, c: char)
    requires
        is_space(c),
    ensures
        trim_of(s.push(c)) == trim_of(s),
    decreases s.len(),
{
    let t = s.push(c);
    if s.len() == 0 {
        assert(t.drop_first() =~= s);
    } else if is_space(s[0]) {
        assert(t.drop_first() =~= s.drop_first().push(c));
        lemma_trim_push(s.drop_first(), c);
    } else {
        assert(t.drop_last() =~= s);
    }
}

/// A dropped carriage return makes no difference to what trimming leaves.
pub proof fn lemma_trim_strip_cr(s: Seq<char>)
    ensures
        trim_of(strip_cr(s)) == trim_of(s),
{
    if s.len() > 0 && s.last() == '\r' {
        assert(s =~= s.drop_last().push('\r'));
        lemma_trim_push(s.drop_last(), '\r');
    }
}

/// The lines of a text that follows ended lines come after them.
pub proof fn lemma_lines_append(a: Seq<char>, b: Seq<char>)
    requires
        a.len() == 0 || a.last() == '\n',
    ensures
        lines_of(a + b) == lines_of(a) + lines_of(b),
    decreases a.len(),
{
    if a.len() == 0 {
        assert(a + b =~= b);
        assert(lines_of(a) + lines_of(b) =~= lines_of(b));
    } else {
        let s = a + b;
        lemma_first_of(a, '\n');
        let i = first_of(a, '\n');
        assert(i < a.len());
        assert forall|j: int| 0 <= j < i implies s[j] != '\n' by {
            assert(s[j] == a[j]);
        }
        assert(s[i] == a[i]);
        lemma_first_of_is(s, '\n', i);
        assert(s.take(i) =~= a.take(i));
        assert(s.skip(i + 1) =~= a.skip(i + 1) + b);
        let rest = a.skip(i + 1);
        assert(rest.len() > 0 ==> rest.last() == a.last());
        lemma_lines_append(rest, b);
        assert(lines_of(s) =~= lines_of(a) + lines_of(b));
    }
}

/// Ending the last line of a text leaves its lines as they are, but for a
/// carriage return at the very end.
pub proof fn lemma_lines_close(a: Seq<char>)
    requires
        a.len() > 0,
        a.last() != '\n',
    ensures
        lines_of(a).len() > 0,
        lines_of(a.push('\n')) == lines_of(a).drop_last().push(strip_cr(lines_of(a).last())),
    decreases a.len(),
{
    let s = a.push('\n');
    lemma_first_of(a, '\n');
    let i = first_of(a, '\n');
    assert forall|j: int| 0 <= j < i implies s[j] != '\n' by {
        assert(s[j] == a[j]);
    }
    lemma_first_of_is(s, '\n', i);
    assert(s.take(i) =~= a.take(i));
    if i < a.len() {
        let rest = a.skip(i + 1);
        assert(rest.len() > 0);
        assert(rest.last() == a.last());
        assert(s.skip(i + 1) =~= rest.push('\n'));
        lemma_lines_close(rest);
        assert(lines_of(s) =~= lines_of(a).drop_last().push(strip_cr(lines_of(a).last())));
    } else {
        assert(a.take(i) =~= a);
        assert(s.skip(i + 1) =~= Seq::<char>::empty());
        assert(lines_of(Seq::<char>::empty()) =~= Seq::<Seq<char>>::empty());
        assert(lines_of(s) =~= seq![strip_cr(a)]);
        assert(lines_of(a) =~= seq![a]);
        assert(lines_of(s) =~= lines_of(a).drop_last().push(strip_cr(lines_of(a).last())));
    }
}

/// A text holds itself.
pub proof fn lemma_contains_itself(s: Seq<char>)
    ensures
        contains(s, s),
{
    assert(s.subrange(0, s.len() as int) =~= s);
    assert(occurs_at(s, s, 0));
}

/// What one of two parts holds, both hold together.
pub proof fn lemma_contains_either(a: Seq<char>, b: Seq<char>, pat: Seq<char>)
    requires
        contains(a, pat) || contains(b, pat),
    ensures
        contains(a + b, pat),
{
    let s = a + b;
    if contains(a, pat) {
        let i = choose|i: int| occurs_at(a, pat, i);
        assert(s.subrange(i, i + pat.len()) =~= a.subrange(i, i + pat.len()));
        assert(occurs_at(s, pat, i));
    } else {
        let i = choose|i: int| occurs_at(b, pat, i);
        let k = a.len() + i;
        assert(s.subrange(k, k + pat.len()) =~= b.subrange(i, i + pat.len()));
        assert(occurs_at(s, pat, k));
    }
}

/// Where a pattern does not occur, replacing it changes nothing.
pub proof fn lemma_replace_absent(s: Seq<char>, pat: Seq<char>, with: Seq<char>)
    requires
        forall|i: int| !occurs_at(s, pat, i),
    ensures
        replace_of(s, pat, with) == s,
    decreases s.len(),
{
    if pat.len() > 0 && s.len() >= pat.len() {
        assert(!occurs_at(s, pat, 0));
        let rest = s.drop_first();
        assert forall|i: int| !occurs_at(rest, pat, i) by {
            if occurs_at(rest, pat, i) {
                assert(s.subrange(i + 1, i + 1 + pat.len()) =~= rest.subrange(i, i + pat.len()));
                assert(occurs_at(s, pat, i + 1));
            }
        }
        lemma_replace_absent(rest, pat, with);
        assert(seq![s[0]] + rest =~= s);
    }
}

/// A text holds what it ends with, written as two parts.
pub proof fn lemma_contains_pair(p: Seq<char>, x: Seq<char>, y: Seq<char>)
    ensures
        contains(p + x + y, x + y),
{
    let s = p + x + y;
    assert(s.subrange(p.len() as int, s.len() as int) =~= x + y);
    assert(occurs_at(s, x + y, p.len() as int));
}


// ----------------------------------------------------------------------- laws

/// Leading whitespace makes no difference to what trimming the start leaves.
proof fn lemma_trim_start_skips(a: Seq<char>, s: Seq<char>)
    requires
        forall|j: int| 0 <= j < a.len() ==> is_space(#[trigger] a[j]),
    ensures
        trim_start_of(a + s) == trim_start_of(s),
    decreases a.len(),
{
    if a.len() == 0 {
        assert(a + s =~= s);
    } else {
        assert((a + s)[0] == a[0]);
        assert((a + s).drop_first() =~= a.drop_first() + s);
        assert forall|j: int| 0 <= j < a.drop_first().len() implies is_space(
            #[trigger] a.drop_first()[j],
        ) by {
            assert(a.drop_first()[j] == a[j + 1]);
        }
        lemma_trim_start_skips(a.drop_first(), s);
    }
}

/// Trailing whitespace makes no difference to what trimming leaves.
proof fn lemma_trim_skips_end(s: Seq<char>, b: Seq<char>)
    requires
        forall|j: int| 0 <= j < b.len() ==> is_space(#[trigger] b[j]),
    ensures
        trim_of(s + b) == trim_of(s),
    decreases b.len(),
{
    if b.len() == 0 {
        assert(s + b =~= s);
    } else {
        let rest = b.drop_last();
        assert(s + b =~= (s + rest).push(b.last()));
        assert forall|j: int| 0 <= j < rest.len() implies is_space(#[trigger] rest[j]) by {
            assert(rest[j] == b[j]);
        }
        assert(is_space(b[b.len() - 1]));
        lemma_trim_push(s + rest, b.last());
        lemma_trim_skips_end(s, rest);
    }
}

/// Trimming takes the whitespace round a text off, and nothing else. Blanks,
/// tabs and line ends are whitespace, letters and digits are not.
pub proof fn law_trimming(a: Seq<char>, s: Seq<char>, b: Seq<char>)
    requires
        forall|j: int| 0 <= j < a.len() ==> is_space(#[trigger] a[j]),
        forall|j: int| 0 <= j < b.len() ==> is_space(#[trigger] b[j]),
        s.len() > 0 ==> !is_space(s[0]) && !is_space(s.last()),
    ensures
        trim_of(a + s + b) == s,
        is_space(' ') && is_space('\t') && is_space('\n') && is_space('\r'),
        forall|c: char| 'a' <= c <= 'z' || 'A' <= c <= 'Z' || '0' <= c <= '9' ==> !is_space(c),
{
    lemma_trim_skips_end(a + s, b);
    lemma_trim_start_skips(a, s);
    lemma_trim_same(s);
}

/// A lower-case text has no upper-case letter, and differs from the text only in
/// those. Making it lower case again changes nothing.
pub proof fn law_lower_case(s: Seq<char>, i: int)
    ensures
        lower_of(s).len() == s.len(),
        0 <= i < s.len() ==> !('A' <= lower_of(s)[i] <= 'Z'),
        0 <= i < s.len() && !('A' <= s[i] <= 'Z') ==> lower_of(s)[i] == s[i],
        0 <= i < s.len() && 'A' <= s[i] <= 'Z' ==> lower_of(s)[i] as int == s[i] as int + 32,
        lower_of(lower_of(s)) == lower_of(s),
{
    assert forall|j: int| 0 <= j < s.len() implies !('A' <= #[trigger] lower_of(s)[j] <= 'Z') by {
        assert(lower_of(s)[j] == lower_char(s[j]));
    }
    assert(lower_of(lower_of(s)) =~= lower_of(s));
}

/// The parts of a text between separators hold no separator, and put together
/// again give the text.
pub proof fn law_splitting(s: Seq<char>, c: char)
    ensures
        split_of(s, c).len() > 0,
        forall|i: int|
            0 <= i < split_of(s, c).len() ==> !(#[trigger] split_of(s, c)[i]).contains(c),
        join_of(split_of(s, c), seq![c]) == s,
    decreases s.len(),
{
    lemma_first_of(s, c);
    let i = first_of(s, c);
    let parts = split_of(s, c);
    if 0 <= i < s.len() {
        let rest = s.skip(i + 1);
        law_splitting(rest, c);
        let head = s.take(i);
        assert(!head.contains(c)) by {
            if head.contains(c) {
                let j = choose|j: int| 0 <= j < head.len() && head[j] == c;
                assert(s[j] == c);
            }
        }
        let tail = split_of(rest, c);
        assert forall|k: int| 0 <= k < parts.len() implies !(#[trigger] parts[k]).contains(c) by {
            if k > 0 {
                assert(parts[k] == tail[k - 1]);
            }
        }
        lemma_join_cons(head, tail, seq![c]);
        assert(s =~= head + seq![c] + rest);
    } else {
        assert(!s.contains(c));
        assert(parts[0] == s);
    }
}

/// Joining a list with one more text in front.
proof fn lemma_join_cons(a: Seq<char>, list: Seq<Seq<char>>, sep: Seq<char>)
    requires
        list.len() > 0,
    ensures
        join_of(seq![a] + list, sep) == a + sep + join_of(list, sep),
    decreases list.len(),
{
    let all = seq![a] + list;
    if list.len() == 1 {
        assert(all.drop_last() =~= seq![a]);
        assert(join_of(all.drop_last(), sep) == a);
        assert(all.last() == list[0]);
    } else {
        assert(all.drop_last() =~= seq![a] + list.drop_last());
        lemma_join_cons(a, list.drop_last(), sep);
        assert(all.last() == list.last());
        assert(join_of(all, sep) =~= a + sep + join_of(list, sep));
    }
}

/// The lines of a text: what stands before the first line end is the first line,
/// without a carriage return, and the lines of the rest follow.
pub proof fn law_lines(line: Seq<char>, rest: Seq<char>)
    requires
        !line.contains('\n'),
        line.len() > 0 ==> line.last() != '\r',
    ensures
        lines_of(line + seq!['\n'] + rest) == seq![line] + lines_of(rest),
        lines_of(line + seq!['\r', '\n'] + rest) == seq![line] + lines_of(rest),
        line.len() > 0 ==> lines_of(line) == seq![line],
        lines_of(Seq::empty()).len() == 0,
{
    let n = line.len() as int;
    let s = line + seq!['\n'] + rest;
    assert(s[n] == '\n');
    assert forall|j: int| 0 <= j < n implies s[j] != '\n' by {
        assert(line.contains(line[j]));
    }
    lemma_first_of_is(s, '\n', n);
    assert(s.take(n) =~= line);
    assert(s.skip(n + 1) =~= rest);
    let t = line + seq!['\r', '\n'] + rest;
    assert(t[n + 1] == '\n');
    assert forall|j: int| 0 <= j < n + 1 implies t[j] != '\n' by {
        if j < n {
            assert(line.contains(line[j]));
        }
    }
    lemma_first_of_is(t, '\n', n + 1);
    assert(t.take(n + 1) =~= line.push('\r'));
    assert(t.take(n + 1).drop_last() =~= line);
    assert(t.skip(n + 2) =~= rest);
    lemma_first_of(line, '\n');
}

/// The first word of a text is what stands before its first whitespace, and the
/// words of the rest follow. Whitespace in front makes no difference.
pub proof fn law_words(word: Seq<char>, gap: char, rest: Seq<char>)
    requires
        word.len() > 0,
        forall|j: int| 0 <= j < word.len() ==> !is_space(#[trigger] word[j]),
        is_space(gap),
    ensures
        words_of(word + seq![gap] + rest) == seq![word] + words_of(rest),
        words_of(word) == seq![word],
        words_of(seq![gap] + rest) == words_of(rest),
        words_of(Seq::empty()).len() == 0,
{
    let n = word.len() as int;
    let s = word + seq![gap] + rest;
    assert(s[n] == gap);
    assert forall|j: int| 0 <= j < n implies !is_space(s[j]) by {
        assert(s[j] == word[j]);
    }
    assert(s[0] == word[0]);
    lemma_word_len(s, n);
    assert(s.take(n) =~= word);
    let behind = seq![gap] + rest;
    assert(behind.drop_first() =~= rest);
    assert(words_of(behind) == words_of(rest));
    assert(s.skip(n) =~= behind);
    assert(words_of(s) == seq![word] + words_of(behind));
    lemma_word_len(word, n);
    assert(word.take(n) =~= word);
    let none = word.skip(n);
    assert(none =~= Seq::<char>::empty());
    assert(words_of(none).len() == 0);
    assert(words_of(word) =~= seq![word] + words_of(none));
}

/// A number above the greatest port is no port, and neither is an empty text.
pub proof fn law_ports_are_bounded(n: nat)
    ensures
        n > 65535 ==> parse_u16_of(decimal(n)) is None,
        parse_u16_of(Seq::empty()) is None,
{
    lemma_decimal(n);
    assert(is_digit(decimal(n)[0]));
}

/// Padding keeps the text and fills it up with blanks, to the width where it is
/// shorter.
pub proof fn law_padding(s: Seq<char>, width: nat, i: int)
    ensures
        begins(padded(s, width), s),
        s.len() < width ==> padded(s, width).len() == width,
        s.len() >= width ==> padded(s, width) == s,
        s.len() <= i < padded(s, width).len() ==> padded(s, width)[i] == ' ',
{
    assert(padded(s, width).subrange(0, s.len() as int) =~= s);
}

} // verus!
