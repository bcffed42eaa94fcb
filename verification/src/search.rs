//! Regular-expression searches, done by the `regex` crate.

use vstd::prelude::*;

use crate::text::opt_text;

verus! {

/// Group 1 of every match of `pattern` in `text`, in order, as
/// `regex::Regex::captures_iter` yields them; `None` when the pattern is
/// rejected.
pub uninterp spec fn regex_groups(pattern: Seq<char>, text: Seq<char>) -> Option<
    Seq<Option<Seq<char>>>,
>;

/// Group 1 of the match that `regex::Regex::captures` reports, if there is a
/// match; `None` on the outside when the pattern is rejected.
pub uninterp spec fn regex_group(pattern: Seq<char>, text: Seq<char>) -> Option<
    Option<Option<Seq<char>>>,
>;

/// What `regex::Regex::replace_all` makes of `text`; `None` when the pattern is
/// rejected.
pub uninterp spec fn regex_replaced(
    pattern: Seq<char>,
    text: Seq<char>,
    with: Seq<char>,
) -> Option<Seq<char>>;

/// The view of a list of groups.
pub open spec fn group_texts(groups: Seq<Option<String>>) -> Seq<Option<Seq<char>>> {
    groups.map_values(|g: Option<String>| opt_text(g))
}

/// The view of the groups of all matches.
pub open spec fn all_group_texts(r: Option<Vec<Option<String>>>) -> Option<
    Seq<Option<Seq<char>>>,
> {
    match r {
        Some(groups) => Some(group_texts(groups@)),
        None => None,
    }
}

/// The view of the group of one match.
pub open spec fn one_group_text(r: Option<Option<Option<String>>>) -> Option<
    Option<Option<Seq<char>>>,
> {
    match r {
        Some(Some(g)) => Some(Some(opt_text(g))),
        Some(None) => Some(None),
        None => None,
    }
}

/// `regex::Regex::new`, then `captures_iter`: group 1 of each match, in order.
/// A function of the pattern and the text; a rejected pattern gives `None`.
#[verifier::external_body]
pub(crate) fn groups(pattern: &str, text: &str) -> (r: Option<Vec<Option<String>>>)
    ensures
        all_group_texts(r) == regex_groups(pattern@, text@),
{
    let re = regex::Regex::new(pattern).ok()?;
    Some(re.captures_iter(text).map(|c| c.get(1).map(|m| m.as_str().to_string())).collect())
}

/// `regex::Regex::new`, then `captures`: group 1 of the first match. A function
/// of the pattern and the text; a rejected pattern gives `None`.
#[verifier::external_body]
pub(crate) fn group(pattern: &str, text: &str) -> (r: Option<Option<Option<String>>>)
    ensures
        one_group_text(r) == regex_group(pattern@, text@),
{
    let re = regex::Regex::new(pattern).ok()?;
    Some(re.captures(text).map(|c| c.get(1).map(|m| m.as_str().to_string())))
}

/// `regex::Regex::new`, then `replace_all`. A function of the pattern, the text
/// and the replacement; a rejected pattern gives `None`.
#[verifier::external_body]
pub(crate) fn replaced(pattern: &str, text: &str, with: &str) -> (r: Option<String>)
    ensures
        opt_text(r) == regex_replaced(pattern@, text@, with@),
{
    let re = regex::Regex::new(pattern).ok()?;
    Some(re.replace_all(text, with).into_owned())
}

/// The groups that took part in their match, in order.
pub open spec fn present(groups: Seq<Option<Seq<char>>>) -> Seq<Seq<char>>
    decreases groups.len(),
{
    if groups.len() == 0 {
        seq![]
    } else {
        let before = present(groups.drop_last());
        match groups.last() {
            Some(t) => before.push(t),
            None => before,
        }
    }
}

/// The groups that took part in their match; none for a rejected pattern.
pub open spec fn found_of(groups: Option<Seq<Option<Seq<char>>>>) -> Seq<Seq<char>> {
    match groups {
        Some(list) => present(list),
        None => seq![],
    }
}

/// Keeps the groups that took part in their match.
pub fn found(groups: Option<Vec<Option<String>>>) -> (r: Vec<String>)
    ensures
        crate::text::texts(r@) == found_of(all_group_texts(groups)),
{
    let mut out: Vec<String> = Vec::new();
    let list = match groups {
        Some(list) => list,
        None => {
            assert(crate::text::texts(out@) =~= Seq::<Seq<char>>::empty());
            return out;
        },
    };
    let mut i: usize = 0;
    let ghost all = group_texts(list@);
    assert(crate::text::texts(out@) =~= present(all.take(0)));
    while i < list.len()
        invariant
            i <= list@.len(),
            all == group_texts(list@),
            crate::text::texts(out@) == present(all.take(i as int)),
        decreases list@.len() - i,
    {
        let ghost before = crate::text::texts(out@);
        assert(all.take(i + 1).drop_last() =~= all.take(i as int));
        match &list[i] {
            Some(t) => {
                let ghost word = t@;
                out.push(t.clone());
                assert(crate::text::texts(out@) =~= before.push(word));
            },
            None => {},
        }
        i += 1;
    }
    assert(all.take(i as int) =~= all);
    out
}

/// What a search found is what the groups hold that took part in a match, and
/// nothing where the pattern was rejected.
pub proof fn law_groups_that_matched_are_found(
    groups: Seq<Option<Seq<char>>>,
    text: Seq<char>,
)
    ensures
        found_of(None).len() == 0,
        found_of(Some(groups)).contains(text) <==> groups.contains(Some(text)),
        found_of(Some(groups)).len() <= groups.len(),
    decreases groups.len(),
{
    if groups.len() > 0 {
        let rest = groups.drop_last();
        law_groups_that_matched_are_found(rest, text);
        let all = present(groups);
        let before = present(rest);
        if groups.contains(Some(text)) {
            let i = choose|i: int| 0 <= i < groups.len() && groups[i] == Some(text);
            if i < rest.len() {
                assert(rest[i] == Some(text));
                let k = choose|k: int| 0 <= k < before.len() && before[k] == text;
                assert(all[k] == text);
            } else {
                assert(all[before.len() as int] == text);
            }
        }
        if all.contains(text) {
            let k = choose|k: int| 0 <= k < all.len() && all[k] == text;
            if k < before.len() {
                assert(before[k] == text);
                let i = choose|i: int| 0 <= i < rest.len() && rest[i] == Some(text);
                assert(groups[i] == Some(text));
            } else {
                assert(groups[groups.len() - 1] == Some(text));
            }
        }
    }
}

/// What was found comes in the order of the matches.
pub proof fn law_matches_keep_the_order(a: Seq<Option<Seq<char>>>, b: Seq<Option<Seq<char>>>)
    ensures
        found_of(Some(a + b)) == found_of(Some(a)) + found_of(Some(b)),
    decreases b.len(),
{
    if b.len() == 0 {
        assert(a + b =~= a);
        assert(present(a) + present(b) =~= present(a));
    } else {
        assert((a + b).drop_last() =~= a + b.drop_last());
        assert((a + b).last() == b.last());
        law_matches_keep_the_order(a, b.drop_last());
        assert(present(a + b) =~= present(a) + present(b));
    }
}

} // verus!
