//! Decide which top-level domain henk should use.
//!
//! Default: `.test` (RFC 6761 reserved).
//! Fallback: `.henk` when Valet/Herd is detected (they own `.test`).
//! Override: whatever the user passes via `--tld`.

use vstd::prelude::*;
use vstd::string::*;

use crate::consts::{DEFAULT_TLD, FALLBACK_TLD, RESERVED_TLDS};
use crate::text::{begins, eq, from_chars, lower, lower_char, lower_of, to_chars};

verus! {

/// The TLD henk will use, and why.
#[derive(Debug)]
pub struct TldChoice {
    pub value: String,
    pub reason: TldReason,
}

/// Why a TLD was chosen.
#[derive(Debug, Clone, Copy, PartialEq, Eq, Structural)]
pub enum TldReason {
    /// Default `.test`.
    Default,
    /// `.henk` because Valet/Herd is on the box.
    ValetHerdFallback,
    /// User passed `--tld <foo>`.
    UserOverride,
}

/// The view of a [`TldChoice`].
pub struct TldChoiceView {
    pub value: Seq<char>,
    pub reason: TldReason,
}

impl View for TldChoice {
    type V = TldChoiceView;

    open spec fn view(&self) -> TldChoiceView {
        TldChoiceView { value: self.value@, reason: self.reason }
    }
}

/// `s` without its leading dots.
pub open spec fn undotted(s: Seq<char>) -> Seq<char>
    decreases s.len(),
{
    if s.len() > 0 && s[0] == '.' {
        undotted(s.drop_first())
    } else {
        s
    }
}

/// A TLD as henk stores it: no leading dots, ASCII lower case.
pub open spec fn clean_of(s: Seq<char>) -> Seq<char> {
    lower_of(undotted(s))
}

/// Normalises a TLD the user typed.
pub fn clean(s: &str) -> (r: String)
    ensures
        r@ == clean_of(s@),
{
    let v = to_chars(s);
    let mut i: usize = 0;
    assert(v@.skip(0) =~= v@);
    while i < v.len() && v[i] == '.'
        invariant
            i <= v@.len(),
            v@ == s@,
            undotted(v@.skip(i as int)) == undotted(s@),
        decreases v@.len() - i,
    {
        assert(v@.skip(i as int).drop_first() =~= v@.skip(i + 1));
        i += 1;
    }
    let rest = from_chars(&v, i, v.len());
    assert(rest@ =~= v@.skip(i as int));
    lower(rest.as_str())
}

/// The one-line explanation of a choice.
pub open spec fn summary_of(choice: TldChoiceView) -> Seq<char> {
    "TLD: ."@ + choice.value + match choice.reason {
        TldReason::Default => "  (default — RFC 6761 reserved for testing)"@,
        TldReason::ValetHerdFallback => "  (Valet/Herd already owns `.test`, falling back)"@,
        TldReason::UserOverride => "  (--tld override)"@,
    }
}

impl TldChoice {
    /// The TLD, without leading dot.
    pub fn value(&self) -> (r: &str)
        ensures
            r@ == self@.value,
    {
        self.value.as_str()
    }

    /// Why it was chosen.
    pub fn reason(&self) -> (r: TldReason)
        ensures
            r == self@.reason,
    {
        self.reason
    }

    /// One line naming the TLD and the reason.
    pub fn summary(&self) -> (r: String)
        ensures
            r@ == summary_of(self@),
    {
        let head = "TLD: .".to_owned().concat(self.value.as_str());
        match self.reason {
            TldReason::Default => head.concat("  (default — RFC 6761 reserved for testing)"),
            TldReason::ValetHerdFallback => head.concat(
                "  (Valet/Herd already owns `.test`, falling back)",
            ),
            TldReason::UserOverride => head.concat("  (--tld override)"),
        }
    }
}

/// The rule: an override wins; otherwise Valet or Herd forces the fallback.
pub open spec fn decision(
    user_override: Option<Seq<char>>,
    valet_present: bool,
    herd_present: bool,
) -> TldChoiceView {
    match user_override {
        Some(raw) => TldChoiceView { value: clean_of(raw), reason: TldReason::UserOverride },
        None => if valet_present || herd_present {
            TldChoiceView { value: FALLBACK_TLD@, reason: TldReason::ValetHerdFallback }
        } else {
            TldChoiceView { value: DEFAULT_TLD@, reason: TldReason::Default }
        },
    }
}

/// The view of an optional string slice.
pub open spec fn opt_str(s: Option<&str>) -> Option<Seq<char>> {
    match s {
        Some(t) => Some(t@),
        None => None,
    }
}

/// Picks the TLD.
pub fn decide(user_override: Option<&str>, valet_present: bool, herd_present: bool) -> (r:
    TldChoice)
    ensures
        r@ == decision(opt_str(user_override), valet_present, herd_present),
{
    if let Some(raw) = user_override {
        return TldChoice { value: clean(raw), reason: TldReason::UserOverride };
    }
    if valet_present || herd_present {
        return TldChoice {
            value: FALLBACK_TLD.to_owned(),
            reason: TldReason::ValetHerdFallback,
        };
    }
    TldChoice { value: DEFAULT_TLD.to_owned(), reason: TldReason::Default }
}

/// Is this TLD on the reserved list, whatever its dots and case?
pub open spec fn reserved(tld: Seq<char>) -> bool {
    exists|i: int| 0 <= i < RESERVED_TLDS@.len() && (#[trigger] RESERVED_TLDS@[i])@ == clean_of(tld)
}

/// True if the given TLD is on the reserved-don't-use list.
pub fn is_reserved(tld: &str) -> (r: bool)
    ensures
        r == reserved(tld@),
{
    let wanted = clean(tld);
    let mut i: usize = 0;
    while i < 4
        invariant
            i <= 4,
            wanted@ == clean_of(tld@),
            RESERVED_TLDS@.len() == 4,
            forall|j: int| 0 <= j < i ==> (#[trigger] RESERVED_TLDS@[j])@ != clean_of(tld@),
        decreases 4 - i,
    {
        if eq(RESERVED_TLDS[i], wanted.as_str()) {
            assert(RESERVED_TLDS@[i as int]@ == clean_of(tld@));
            return true;
        }
        i += 1;
    }
    false
}

/// A cleaned TLD has no leading dot and cleaning it again changes nothing.
pub proof fn law_clean_settles(s: Seq<char>)
    ensures
        clean_of(s).len() > 0 ==> clean_of(s)[0] != '.',
        clean_of(clean_of(s)) == clean_of(s),
{
    lemma_undotted(s);
    let u = undotted(s);
    let c = clean_of(s);
    assert(undotted(c) == c);
    assert forall|i: int| 0 <= i < c.len() implies lower_char(#[trigger] c[i]) == c[i] by {
        assert(c[i] == lower_char(u[i]));
    }
    assert(lower_of(c) =~= c);
}

/// What is left without leading dots does not begin with one.
proof fn lemma_undotted(s: Seq<char>)
    ensures
        undotted(s).len() > 0 ==> undotted(s)[0] != '.',
    decreases s.len(),
{
    if s.len() > 0 && s[0] == '.' {
        lemma_undotted(s.drop_first());
    }
}

/// Without an override, `.test` is used exactly when neither Valet nor Herd is
/// present, and `.henk` otherwise.
pub proof fn law_test_is_left_to_valet_and_herd(valet_present: bool, herd_present: bool)
    ensures
        decision(None, valet_present, herd_present).value == "test"@ <==> !(valet_present
            || herd_present),
        decision(None, valet_present, herd_present).value == "henk"@ <==> valet_present
            || herd_present,
{
    reveal_strlit("test");
    reveal_strlit("henk");
    assert("test"@[0] == 't');
    assert("henk"@[0] == 'h');
}

/// A cleaned override is honoured whatever else is installed.
pub proof fn law_override_wins(raw: Seq<char>, valet_present: bool, herd_present: bool)
    ensures
        decision(Some(raw), valet_present, herd_present) == decision(Some(raw), false, false),
        decision(Some(raw), valet_present, herd_present).value == clean_of(raw),
{
}

/// The TLDs that henk picks by itself are not reserved.
pub proof fn law_own_tlds_are_not_reserved(valet_present: bool, herd_present: bool)
    ensures
        !reserved(decision(None, valet_present, herd_present).value),
{
    reveal_strlit("test");
    reveal_strlit("henk");
    reveal_strlit("local");
    reveal_strlit("localhost");
    reveal_strlit("example");
    reveal_strlit("invalid");
    let v = decision(None, valet_present, herd_present).value;
    assert(v.len() == 4);
    assert(v[0] != '.');
    assert(undotted(v) == v);
    assert(clean_of(v).len() == 4);
    assert forall|i: int| 0 <= i < RESERVED_TLDS@.len() implies (#[trigger] RESERVED_TLDS@[i])@
        != clean_of(v) by {
        assert(RESERVED_TLDS@[i]@.len() >= 5);
    }
}

/// Leading dots and ASCII case make no difference to what is reserved.
pub proof fn law_reserved_ignores_dots_and_case(a: Seq<char>, b: Seq<char>)
    requires
        clean_of(a) == clean_of(b),
    ensures
        reserved(a) == reserved(b),
{
}

/// `.local`, `.localhost`, `.example` and `.invalid` are reserved, however they
/// are dotted or cased, and no other TLD is.
pub proof fn law_reserved_names(tld: Seq<char>)
    ensures
        reserved(tld) <==> {
            ||| clean_of(tld) == "local"@
            ||| clean_of(tld) == "localhost"@
            ||| clean_of(tld) == "example"@
            ||| clean_of(tld) == "invalid"@
        },
{
    assert(RESERVED_TLDS@.len() == 4);
    assert(RESERVED_TLDS@[0]@ == "local"@);
    assert(RESERVED_TLDS@[1]@ == "localhost"@);
    assert(RESERVED_TLDS@[2]@ == "example"@);
    assert(RESERVED_TLDS@[3]@ == "invalid"@);
}

/// Cleaning takes a leading dot off and folds case; a TLD that has neither stays
/// as it was typed.
pub proof fn law_clean_takes_dots_off(s: Seq<char>)
    ensures
        clean_of(seq!['.'] + s) == clean_of(s),
        clean_of(lower_of(s)) == clean_of(s),
        (s.len() > 0 ==> s[0] != '.') ==> clean_of(s) == lower_of(s),
        (forall|i: int| 0 <= i < s.len() ==> #[trigger] s[i] != '.' && !('A' <= s[i] <= 'Z'))
            ==> clean_of(s) == s,
{
    assert((seq!['.'] + s).drop_first() =~= s);
    lemma_undotted_lower(s);
    assert(lower_of(lower_of(undotted(s))) =~= lower_of(undotted(s)));
    if forall|i: int| 0 <= i < s.len() ==> #[trigger] s[i] != '.' && !('A' <= s[i] <= 'Z') {
        assert(s.len() > 0 ==> s[0] != '.');
        assert(lower_of(s) =~= s);
    }
}

/// Folding case and taking dots off may change places.
proof fn lemma_undotted_lower(s: Seq<char>)
    ensures
        undotted(lower_of(s)) == lower_of(undotted(s)),
    decreases s.len(),
{
    let low = lower_of(s);
    if s.len() > 0 {
        assert(low[0] == lower_char(s[0]));
        assert(low[0] == '.' <==> s[0] == '.');
        if s[0] == '.' {
            assert(low.drop_first() =~= lower_of(s.drop_first()));
            lemma_undotted_lower(s.drop_first());
        }
    }
}

/// The summary names the TLD that was chosen.
pub proof fn law_summary_names_the_tld(choice: TldChoiceView)
    ensures
        begins(summary_of(choice), "TLD: ."@ + choice.value),
{
    let head = "TLD: ."@ + choice.value;
    assert(summary_of(choice).subrange(0, head.len() as int) =~= head);
}

} // verus!
