//! How indentation orders the lines of a YAML file: a line opens the block of
//! the deeper lines that follow it.

use vstd::prelude::*;

use crate::text::{lemma_split_cons, lemma_split_whole, split_of};

verus! {

/// The number of blanks a line begins with.
pub open spec fn indent_of(line: Seq<char>) -> int
    decreases line.len(),
{
    if line.len() > 0 && line[0] == ' ' {
        1 + indent_of(line.drop_first())
    } else {
        0
    }
}

/// Does line `j` lie in the block that line `k` opens?
pub open spec fn in_block(lines: Seq<Seq<char>>, k: int, j: int) -> bool {
    &&& 0 <= k < j < lines.len()
    &&& forall|x: int| k < x <= j ==> indent_of(#[trigger] lines[x]) > indent_of(lines[k])
}

/// Does the block that line `k` opens hold this line?
pub open spec fn block_holds(lines: Seq<Seq<char>>, k: int, line: Seq<char>) -> bool {
    exists|j: int| #[trigger] in_block(lines, k, j) && lines[j] == line
}

/// Does the block that line `k` opens hold the line `key`, with `item` in the
/// block which that one opens?
pub open spec fn nested(
    lines: Seq<Seq<char>>,
    k: int,
    key: Seq<char>,
    item: Seq<char>,
) -> bool {
    exists|e: int| #[trigger]
        in_block(lines, k, e) && lines[e] == key && block_holds(lines, e, item)
}

/// Does line `k` open an entry, two levels in, of the section that the line
/// `section` opens?
pub open spec fn opens_entry(lines: Seq<Seq<char>>, section: Seq<char>, k: int) -> bool {
    exists|s: int| #[trigger]
        in_block(lines, s, k) && lines[s] == section && indent_of(lines[k]) == indent_of(
            lines[s],
        ) + 2
}

/// A list of lines, each ended.
pub open spec fn unlines(list: Seq<Seq<char>>) -> Seq<char>
    decreases list.len(),
{
    if list.len() == 0 {
        seq![]
    } else {
        unlines(list.drop_last()) + list.last() + seq!['\n']
    }
}

/// A line that begins with `n` blanks and then something else.
pub proof fn lemma_indent(line: Seq<char>, n: int)
    requires
        0 <= n <= line.len(),
        forall|j: int| 0 <= j < n ==> line[j] == ' ',
        n < line.len() ==> line[n] != ' ',
    ensures
        indent_of(line) == n,
    decreases line.len(),
{
    if n > 0 {
        lemma_indent(line.drop_first(), n - 1);
    }
}

/// One more line comes after the others.
pub proof fn lemma_unlines_take(list: Seq<Seq<char>>, k: int)
    requires
        0 <= k < list.len(),
    ensures
        unlines(list.take(k + 1)) == unlines(list.take(k)) + list[k] + seq!['\n'],
{
    assert(list.take(k + 1).drop_last() =~= list.take(k));
}

/// The text of two lists of lines is that of one after that of the other.
pub proof fn lemma_unlines_add(a: Seq<Seq<char>>, b: Seq<Seq<char>>)
    ensures
        unlines(a + b) == unlines(a) + unlines(b),
    decreases b.len(),
{
    if b.len() == 0 {
        assert(a + b =~= a);
        assert(unlines(a) + unlines(b) =~= unlines(a));
    } else {
        assert((a + b).drop_last() =~= a + b.drop_last());
        lemma_unlines_add(a, b.drop_last());
        assert(unlines(a + b) =~= unlines(a) + unlines(b));
    }
}

/// Splitting the text of ended lines gives the lines, and nothing behind them.
pub proof fn lemma_split_unlines(list: Seq<Seq<char>>)
    requires
        forall|j: int| 0 <= j < list.len() ==> !(#[trigger] list[j]).contains('\n'),
    ensures
        split_of(unlines(list), '\n') == list.push(Seq::<char>::empty()),
    decreases list.len(),
{
    let empty = Seq::<char>::empty();
    if list.len() == 0 {
        lemma_split_whole(empty, '\n');
        assert(seq![empty] =~= list.push(empty));
    } else {
        let first = list[0];
        let rest = list.drop_first();
        assert(list =~= seq![first] + rest);
        lemma_unlines_add(seq![first], rest);
        assert(seq![first].drop_last() =~= Seq::<Seq<char>>::empty());
        assert(unlines(seq![first].drop_last()) =~= empty);
        assert(unlines(seq![first]) =~= first + seq!['\n']);
        assert(unlines(list) =~= first + seq!['\n'] + unlines(rest));
        assert forall|j: int| 0 <= j < rest.len() implies !(#[trigger] rest[j]).contains('\n') by {
            assert(rest[j] == list[j + 1]);
        }
        lemma_split_unlines(rest);
        lemma_split_cons(first, '\n', unlines(rest));
        assert(seq![first] + rest.push(empty) =~= list.push(empty));
    }
}

} // verus!
