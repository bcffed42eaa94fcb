//! `henk doctor`: the detection report, then what `state.json` records against
//! what is there.

use vstd::prelude::*;
use vstd::string::*;

use crate::config::Config;
use crate::consts::STACK_VERSION;
use crate::manifest::state::{henk_packages, StateManifest, StateView, StepState, StepView};
use crate::manifest::steps::{
    DNSMASQ_DROPIN, MKCERT_CA, RESOLVER_FILE, STACK_RENDERED, STACK_UP, WILDCARD_CERT,
};
use crate::paint::{bold, bold_of, gray, gray_of, green, green_of, red, red_of, yellow, yellow_of};
use crate::project::file_provider::lemma_contains_inside;
use crate::text::{
    begins, contains, decimal, decimal_u64, ends, join, join_of, lemma_contains_either,
    lemma_contains_itself, lemma_contains_pair, opt_text, pad, padded, texts,
};

verus! {

/// How a step is shown.
pub open spec fn status_text(steps: Map<Seq<char>, StepView>, name: Seq<char>) -> Seq<char> {
    if steps.dom().contains(name) {
        let step = steps[name];
        match step.state {
            StepState::Complete => green_of("✓ complete"@),
            StepState::Pending => gray_of("· pending"@),
            StepState::Failed => red_of("✗ failed"@) + " "@ + (match step.error {
                Some(e) => e,
                None => seq![],
            }),
            StepState::Skipped => gray_of("○ skipped"@),
        }
    } else {
        gray_of("· unrecorded"@)
    }
}

/// The line of a step.
pub open spec fn step_line(steps: Map<Seq<char>, StepView>, name: Seq<char>) -> Seq<char> {
    "    "@ + padded(name, 18) + "  "@ + status_text(steps, name) + "\n"@
}

/// The packages henk installed, as one text.
pub open spec fn packages_text(steps: Map<Seq<char>, StepView>) -> Seq<char> {
    if henk_packages(steps).len() == 0 {
        "(none)"@
    } else {
        join_of(henk_packages(steps), ", "@)
    }
}

/// The summary of the state manifest.
pub open spec fn state_summary(s: StateView) -> Seq<char> {
    bold_of("State manifest"@) + "\n  schema_version:  "@ + decimal(s.schema_version as nat)
        + "\n  stack_version:   "@ + decimal(s.stack_version as nat) + "\n  init_runs:       "@
        + decimal(s.init_runs.len()) + "\n  brew (henk):     "@ + packages_text(s.steps)
        + "\n\n  steps:\n"@ + step_line(s.steps, MKCERT_CA@) + step_line(s.steps, WILDCARD_CERT@)
        + step_line(s.steps, DNSMASQ_DROPIN@) + step_line(s.steps, RESOLVER_FILE@) + step_line(
        s.steps,
        STACK_RENDERED@,
    ) + step_line(s.steps, STACK_UP@) + "\n"@
}

/// Shows a step.
fn show_step(state: &StateManifest, name: &str) -> (r: String)
    requires
        state.wf(),
    ensures
        r@ == step_line(state@.steps, name@),
{
    let status = match state.steps.get(name) {
        Some(step) => {
            assert(state@.steps[name@] == step@);
            match step.state {
                StepState::Complete => green("✓ complete"),
                StepState::Pending => gray("· pending"),
                StepState::Failed => {
                    let error = match &step.error {
                        Some(e) => e.clone(),
                        None => {
                            let none = String::new();
                            assert(none@ =~= Seq::<char>::empty());
                            none
                        },
                    };
                    red("✗ failed").concat(" ").concat(error.as_str())
                },
                StepState::Skipped => gray("○ skipped"),
            }
        },
        None => gray("· unrecorded"),
    };
    "    ".to_owned().concat(pad(name, 18).as_str()).concat("  ").concat(status.as_str()).concat(
        "\n",
    )
}

/// The summary of the state manifest, as it is printed.
pub fn print_state_summary(state: &StateManifest) -> (r: String)
    requires
        state.wf(),
    ensures
        r@ == state_summary(state@),
{
    let pkgs = state.brew_packages_we_installed();
    assert(texts(pkgs@).len() == pkgs@.len());
    let pkg_text = if pkgs.len() == 0 {
        "(none)".to_owned()
    } else {
        join(&pkgs, ", ")
    };
    let runs: u64 = state.init_runs.len() as u64;
    assert(state@.init_runs.len() == state.init_runs@.len());
    bold("State manifest").concat("\n  schema_version:  ").concat(
        decimal_u64(state.schema_version as u64).as_str(),
    ).concat("\n  stack_version:   ").concat(decimal_u64(state.stack_version as u64).as_str()).concat(
        "\n  init_runs:       ",
    ).concat(decimal_u64(runs).as_str()).concat("\n  brew (henk):     ").concat(
        pkg_text.as_str(),
    ).concat("\n\n  steps:\n").concat(show_step(state, MKCERT_CA).as_str()).concat(
        show_step(state, WILDCARD_CERT).as_str(),
    ).concat(show_step(state, DNSMASQ_DROPIN).as_str()).concat(
        show_step(state, RESOLVER_FILE).as_str(),
    ).concat(show_step(state, STACK_RENDERED).as_str()).concat(
        show_step(state, STACK_UP).as_str(),
    ).concat("\n")
}

// ------------------------------------------------------------------------ drift

/// The path that a step recorded.
pub open spec fn recorded_path_of(steps: Map<Seq<char>, StepView>, name: Seq<char>) -> Option<
    Seq<char>,
> {
    if steps.dom().contains(name) {
        steps[name].path
    } else {
        None
    }
}

/// The path that a step recorded.
pub fn recorded_path(state: &StateManifest, name: &str) -> (r: Option<String>)
    requires
        state.wf(),
    ensures
        opt_text(r) == recorded_path_of(state@.steps, name@),
{
    match state.steps.get(name) {
        Some(step) => {
            assert(state@.steps[name@] == step@);
            match &step.path {
                Some(p) => Some(p.clone()),
                None => None,
            }
        },
        None => None,
    }
}

/// What of the recorded files exists.
#[derive(Debug)]
pub struct DriftFacts {
    /// The recorded wildcard certificate exists.
    pub cert: bool,
    /// The recorded resolver file exists.
    pub resolver: bool,
    /// The recorded dnsmasq drop-in exists.
    pub drop_in: bool,
    /// Path of the stack's compose file, when it can be formed.
    pub compose_path: Option<String>,
    /// The compose file exists.
    pub compose: bool,
}

/// A list of one text, or of none.
pub open spec fn entry_if(flag: bool, text: Seq<char>) -> Seq<Seq<char>> {
    if flag {
        seq![text]
    } else {
        seq![]
    }
}

/// A text, or nothing.
pub open spec fn or_nothing(t: Option<Seq<char>>) -> Seq<char> {
    match t {
        Some(s) => s,
        None => seq![],
    }
}

/// The drift: every recorded file that is gone, a stack that was never rendered,
/// and a stack of an older version than this binary ships.
pub open spec fn drift_of(s: StateView, tld: Seq<char>, facts: DriftFacts) -> Seq<Seq<char>> {
    let cert = recorded_path_of(s.steps, WILDCARD_CERT@);
    let resolver = recorded_path_of(s.steps, RESOLVER_FILE@);
    let drop_in = recorded_path_of(s.steps, DNSMASQ_DROPIN@);
    let compose = opt_text(facts.compose_path);
    entry_if(
        cert is Some && !facts.cert,
        "wildcard cert recorded at "@ + or_nothing(cert) + " but file is missing"@,
    ) + entry_if(
        resolver is Some && !facts.resolver,
        "resolver file recorded at "@ + or_nothing(resolver) + " but missing — `*."@ + tld
            + "` won't resolve"@,
    ) + entry_if(
        drop_in is Some && !facts.drop_in,
        "dnsmasq drop-in recorded at "@ + or_nothing(drop_in) + " but missing"@,
    ) + entry_if(
        compose is Some && !facts.compose,
        "traefik compose file missing at "@ + or_nothing(compose)
            + " — templates haven't been rendered"@,
    ) + entry_if(
        s.stack_version < STACK_VERSION,
        "the running stack is v"@ + decimal(s.stack_version as nat) + " but this henk ships v"@
            + decimal(STACK_VERSION as nat) + " — run `henk up`"@,
    )
}

/// Cross-checks `state.json` with what exists.
pub fn collect_drift(state: &StateManifest, cfg: &Config, facts: &DriftFacts) -> (r: Vec<String>)
    requires
        state.wf(),
    ensures
        texts(r@) == drift_of(state@, cfg@.tld, *facts),
{
    let mut out: Vec<String> = Vec::new();
    let ghost cert = recorded_path_of(state@.steps, WILDCARD_CERT@);
    let ghost resolver = recorded_path_of(state@.steps, RESOLVER_FILE@);
    let ghost drop_in = recorded_path_of(state@.steps, DNSMASQ_DROPIN@);
    let ghost compose = opt_text(facts.compose_path);
    if let Some(p) = recorded_path(state, WILDCARD_CERT) {
        if !facts.cert {
            out.push(
                "wildcard cert recorded at ".to_owned().concat(p.as_str()).concat(
                    " but file is missing",
                ),
            );
        }
    }
    let ghost one = entry_if(
        cert is Some && !facts.cert,
        "wildcard cert recorded at "@ + or_nothing(cert) + " but file is missing"@,
    );
    assert(texts(out@) =~= one);
    if let Some(p) = recorded_path(state, RESOLVER_FILE) {
        if !facts.resolver {
            out.push(
                "resolver file recorded at ".to_owned().concat(p.as_str()).concat(
                    " but missing — `*.",
                ).concat(cfg.tld.as_str()).concat("` won't resolve"),
            );
        }
    }
    let ghost two = one + entry_if(
        resolver is Some && !facts.resolver,
        "resolver file recorded at "@ + or_nothing(resolver) + " but missing — `*."@ + cfg@.tld
            + "` won't resolve"@,
    );
    assert(texts(out@) =~= two);
    if let Some(p) = recorded_path(state, DNSMASQ_DROPIN) {
        if !facts.drop_in {
            out.push(
                "dnsmasq drop-in recorded at ".to_owned().concat(p.as_str()).concat(
                    " but missing",
                ),
            );
        }
    }
    let ghost three = two + entry_if(
        drop_in is Some && !facts.drop_in,
        "dnsmasq drop-in recorded at "@ + or_nothing(drop_in) + " but missing"@,
    );
    assert(texts(out@) =~= three);
    if let Some(p) = &facts.compose_path {
        if !facts.compose {
            out.push(
                "traefik compose file missing at ".to_owned().concat(p.as_str()).concat(
                    " — templates haven't been rendered",
                ),
            );
        }
    }
    let ghost four = three + entry_if(
        compose is Some && !facts.compose,
        "traefik compose file missing at "@ + or_nothing(compose)
            + " — templates haven't been rendered"@,
    );
    assert(texts(out@) =~= four);
    if state.stack_version < STACK_VERSION {
        out.push(
            "the running stack is v".to_owned().concat(
                decimal_u64(state.stack_version as u64).as_str(),
            ).concat(" but this henk ships v").concat(decimal_u64(STACK_VERSION as u64).as_str()).concat(
            " — run `henk up`"),
        );
    }
    assert(texts(out@) =~= four + entry_if(
        state@.stack_version < STACK_VERSION,
        "the running stack is v"@ + decimal(state@.stack_version as nat)
            + " but this henk ships v"@ + decimal(STACK_VERSION as nat) + " — run `henk up`"@,
    ));
    out
}

/// One line per drift entry.
pub open spec fn drift_lines(drift: Seq<Seq<char>>) -> Seq<char>
    decreases drift.len(),
{
    if drift.len() == 0 {
        seq![]
    } else {
        drift_lines(drift.drop_last()) + "    · "@ + drift.last() + "\n"@
    }
}

/// The verdict on drift, with the way to fix it unless that is under way.
pub open spec fn drift_text(drift: Seq<Seq<char>>, repair: bool) -> Seq<char> {
    (if drift.len() == 0 {
        "  "@ + green_of("✓"@) + "  no drift between state.json and the running system.\n"@
    } else {
        "  "@ + yellow_of("!"@) + "  drift detected:\n"@ + drift_lines(drift)
    }) + "\n"@ + (if !repair && drift.len() > 0 {
        "  Run `henk doctor --repair` to fix these.\n"@
    } else {
        seq![]
    })
}

/// The verdict on drift, as it is printed.
pub fn print_drift(drift: &Vec<String>, repair: bool) -> (r: String)
    ensures
        r@ == drift_text(texts(drift@), repair),
{
    let ghost all = texts(drift@);
    assert(all.len() == drift@.len());
    let mut entries = String::new();
    let mut i: usize = 0;
    assert(entries@ =~= drift_lines(all.take(0)));
    while i < drift.len()
        invariant
            i <= drift@.len(),
            all == texts(drift@),
            entries@ == drift_lines(all.take(i as int)),
        decreases drift@.len() - i,
    {
        assert(all.take(i + 1).drop_last() =~= all.take(i as int));
        assert(all.take(i + 1).last() == drift@[i as int]@);
        entries = entries.concat("    · ").concat(drift[i].as_str()).concat("\n");
        i += 1;
    }
    assert(all.take(i as int) =~= all);
    let head = if drift.len() == 0 {
        "  ".to_owned().concat(green("✓").as_str()).concat(
            "  no drift between state.json and the running system.\n",
        )
    } else {
        "  ".to_owned().concat(yellow("!").as_str()).concat("  drift detected:\n").concat(
            entries.as_str(),
        )
    };
    let tail = if !repair && drift.len() > 0 {
        "  Run `henk doctor --repair` to fix these.\n".to_owned()
    } else {
        let none = String::new();
        assert(none@ =~= Seq::<char>::empty());
        none
    };
    head.concat("\n").concat(tail.as_str())
}

/// What is printed when there is no state manifest.
pub fn print_state_missing() -> (r: String)
    ensures
        r@ == "  "@ + gray_of("·"@)
            + "  state.json is missing — `henk init` predates state tracking,\n  or you initialised on a clone before M7. Re-run `henk init` to backfill\n  the manifest; doctor stops here without it.\n\n"@,
{
    "  ".to_owned().concat(gray("·").as_str()).concat(
        "  state.json is missing — `henk init` predates state tracking,\n  or you initialised on a clone before M7. Re-run `henk init` to backfill\n  the manifest; doctor stops here without it.\n\n",
    )
}

/// How far a run of `henk doctor` goes.
#[derive(Debug, Clone, Copy, PartialEq, Eq, Structural)]
pub enum DoctorOutcome {
    /// There is no config: say so and stop.
    NotInitialised,
    /// Print the report, say that the state manifest is missing and stop.
    StateMissing,
    /// Print the report, the state and the drift.
    Report,
    /// The same, then bring the stack up again.
    Repair,
}

/// How far a run goes: only `--repair` changes anything, and only on a host that
/// has both a config and a state manifest.
pub fn outcome(config: bool, state: bool, repair: bool) -> (r: DoctorOutcome)
    ensures
        r == (if !config {
            DoctorOutcome::NotInitialised
        } else if !state {
            DoctorOutcome::StateMissing
        } else if repair {
            DoctorOutcome::Repair
        } else {
            DoctorOutcome::Report
        }),
{
    if !config {
        DoctorOutcome::NotInitialised
    } else if !state {
        DoctorOutcome::StateMissing
    } else if repair {
        DoctorOutcome::Repair
    } else {
        DoctorOutcome::Report
    }
}

/// There is no drift exactly when every recorded file exists, the stack has been
/// rendered, and it is at the version this binary ships.
pub proof fn law_no_drift(s: StateView, tld: Seq<char>, facts: DriftFacts)
    ensures
        drift_of(s, tld, facts).len() == 0 <==> {
            &&& recorded_path_of(s.steps, WILDCARD_CERT@) is Some ==> facts.cert
            &&& recorded_path_of(s.steps, RESOLVER_FILE@) is Some ==> facts.resolver
            &&& recorded_path_of(s.steps, DNSMASQ_DROPIN@) is Some ==> facts.drop_in
            &&& facts.compose_path is Some ==> facts.compose
            &&& s.stack_version >= STACK_VERSION
        },
{
}

/// Is a text in the list that holds this one?
pub open spec fn mentioned(list: Seq<Seq<char>>, what: Seq<char>) -> bool {
    exists|i: int| 0 <= i < list.len() && contains(#[trigger] list[i], what)
}

/// What one of two lists mentions, both mention together.
proof fn lemma_mentioned_add(a: Seq<Seq<char>>, b: Seq<Seq<char>>, what: Seq<char>)
    ensures
        mentioned(a, what) || mentioned(b, what) ==> mentioned(a + b, what),
{
    if mentioned(a, what) {
        let i = choose|i: int| 0 <= i < a.len() && contains(#[trigger] a[i], what);
        assert((a + b)[i] == a[i]);
    }
    if mentioned(b, what) {
        let i = choose|i: int| 0 <= i < b.len() && contains(#[trigger] b[i], what);
        assert((a + b)[a.len() + i] == b[i]);
    }
}

/// An entry with a path in it mentions the path.
proof fn lemma_mentioned_entry(head: Seq<char>, path: Seq<char>, tail: Seq<char>)
    ensures
        mentioned(entry_if(true, head + path + tail), path),
{
    lemma_contains_itself(path);
    lemma_contains_inside(head, path, tail, path);
    assert(entry_if(true, head + path + tail)[0] == head + path + tail);
}

/// Every recorded file that is gone is reported by its path, and so is a compose
/// file that was never rendered; a stack that is behind is reported with both
/// versions.
pub proof fn law_drift_names_what_is_gone(s: StateView, tld: Seq<char>, facts: DriftFacts)
    ensures
        ({
            let list = drift_of(s, tld, facts);
            &&& recorded_path_of(s.steps, WILDCARD_CERT@) matches Some(p) ==> (!facts.cert
                ==> mentioned(list, p))
            &&& recorded_path_of(s.steps, RESOLVER_FILE@) matches Some(p) ==> (!facts.resolver
                ==> mentioned(list, p))
            &&& recorded_path_of(s.steps, DNSMASQ_DROPIN@) matches Some(p) ==> (!facts.drop_in
                ==> mentioned(list, p))
            &&& facts.compose_path matches Some(p) ==> (!facts.compose ==> mentioned(list, p@))
            &&& s.stack_version < STACK_VERSION ==> mentioned(
                list,
                "v"@ + decimal(s.stack_version as nat) + " but this henk ships v"@ + decimal(
                    STACK_VERSION as nat,
                ),
            )
        }),
{
    let cert = recorded_path_of(s.steps, WILDCARD_CERT@);
    let resolver = recorded_path_of(s.steps, RESOLVER_FILE@);
    let drop_in = recorded_path_of(s.steps, DNSMASQ_DROPIN@);
    let compose = opt_text(facts.compose_path);
    let a = entry_if(
        cert is Some && !facts.cert,
        "wildcard cert recorded at "@ + or_nothing(cert) + " but file is missing"@,
    );
    let b = entry_if(
        resolver is Some && !facts.resolver,
        "resolver file recorded at "@ + or_nothing(resolver) + " but missing — `*."@ + tld
            + "` won't resolve"@,
    );
    let c = entry_if(
        drop_in is Some && !facts.drop_in,
        "dnsmasq drop-in recorded at "@ + or_nothing(drop_in) + " but missing"@,
    );
    let e = entry_if(
        compose is Some && !facts.compose,
        "traefik compose file missing at "@ + or_nothing(compose)
            + " — templates haven't been rendered"@,
    );
    let f = entry_if(
        s.stack_version < STACK_VERSION,
        "the running stack is v"@ + decimal(s.stack_version as nat) + " but this henk ships v"@
            + decimal(STACK_VERSION as nat) + " — run `henk up`"@,
    );
    let list = drift_of(s, tld, facts);
    assert(list == a + b + c + e + f);
    if cert is Some && !facts.cert {
        lemma_mentioned_entry("wildcard cert recorded at "@, cert->0, " but file is missing"@);
        lemma_mentioned_add(a, b, cert->0);
        lemma_mentioned_add(a + b, c, cert->0);
        lemma_mentioned_add(a + b + c, e, cert->0);
        lemma_mentioned_add(a + b + c + e, f, cert->0);
    }
    if resolver is Some && !facts.resolver {
        let tail = " but missing — `*."@ + tld + "` won't resolve"@;
        lemma_mentioned_entry("resolver file recorded at "@, resolver->0, tail);
        assert("resolver file recorded at "@ + resolver->0 + tail =~= "resolver file recorded at "@
            + resolver->0 + " but missing — `*."@ + tld + "` won't resolve"@);
        lemma_mentioned_add(a, b, resolver->0);
        lemma_mentioned_add(a + b, c, resolver->0);
        lemma_mentioned_add(a + b + c, e, resolver->0);
        lemma_mentioned_add(a + b + c + e, f, resolver->0);
    }
    if drop_in is Some && !facts.drop_in {
        lemma_mentioned_entry("dnsmasq drop-in recorded at "@, drop_in->0, " but missing"@);
        lemma_mentioned_add(a + b, c, drop_in->0);
        lemma_mentioned_add(a + b + c, e, drop_in->0);
        lemma_mentioned_add(a + b + c + e, f, drop_in->0);
    }
    if compose is Some && !facts.compose {
        lemma_mentioned_entry(
            "traefik compose file missing at "@,
            compose->0,
            " — templates haven't been rendered"@,
        );
        lemma_mentioned_add(a + b + c, e, compose->0);
        lemma_mentioned_add(a + b + c + e, f, compose->0);
    }
    if s.stack_version < STACK_VERSION {
        let x = decimal(s.stack_version as nat);
        let y = decimal(STACK_VERSION as nat);
        let mid = "v"@ + x + " but this henk ships v"@ + y;
        reveal_strlit("the running stack is v");
        reveal_strlit("the running stack is ");
        reveal_strlit("v");
        assert("the running stack is v"@ =~= "the running stack is "@ + "v"@);
        lemma_mentioned_entry("the running stack is "@, mid, " — run `henk up`"@);
        assert("the running stack is "@ + mid + " — run `henk up`"@ =~= "the running stack is v"@ + x
            + " but this henk ships v"@ + y + " — run `henk up`"@);
        lemma_mentioned_add(a + b + c + e, f, mid);
    }
}

/// The report of drift shows every entry; the way to repair is named exactly when
/// there is drift and it is not being repaired already.
pub proof fn law_drift_is_shown(drift: Seq<Seq<char>>, repair: bool, i: int)
    ensures
        0 <= i < drift.len() ==> contains(drift_text(drift, repair), drift[i]),
        drift.len() > 0 && !repair ==> ends(
            drift_text(drift, repair),
            "  Run `henk doctor --repair` to fix these.\n"@,
        ),
        drift.len() == 0 ==> drift_text(drift, repair) == "  "@ + green_of("✓"@)
            + "  no drift between state.json and the running system.\n"@ + "\n"@,
        drift.len() > 0 && repair ==> drift_text(drift, repair) == "  "@ + yellow_of("!"@)
            + "  drift detected:\n"@ + drift_lines(drift) + "\n"@,
{
    let all = drift_text(drift, repair);
    let head = "  "@ + yellow_of("!"@) + "  drift detected:\n"@;
    let hint = "  Run `henk doctor --repair` to fix these.\n"@;
    if drift.len() > 0 && !repair {
        assert(all.subrange(all.len() - hint.len(), all.len() as int) =~= hint);
    }
    if drift.len() == 0 {
        assert(all =~= "  "@ + green_of("✓"@)
            + "  no drift between state.json and the running system.\n"@ + "\n"@);
    }
    if drift.len() > 0 && repair {
        assert(all =~= head + drift_lines(drift) + "\n"@);
    }
    if 0 <= i < drift.len() {
        let tail = all.skip((head + drift_lines(drift)).len() as int);
        assert(all =~= head + drift_lines(drift) + tail);
        lemma_drift_line(drift, i);
        lemma_contains_inside(head, drift_lines(drift), tail, drift[i]);
    }
}

/// Every entry has its line.
proof fn lemma_drift_line(drift: Seq<Seq<char>>, i: int)
    requires
        0 <= i < drift.len(),
    ensures
        contains(drift_lines(drift), drift[i]),
    decreases drift.len(),
{
    let empty = Seq::<char>::empty();
    let before = drift_lines(drift.drop_last());
    let last = "    · "@ + drift.last() + "\n"@;
    assert(drift_lines(drift) =~= before + last);
    if i < drift.len() - 1 {
        assert(drift.drop_last()[i] == drift[i]);
        lemma_drift_line(drift.drop_last(), i);
        assert(drift_lines(drift) =~= empty + before + last);
        lemma_contains_inside(empty, before, last, drift[i]);
    } else {
        lemma_contains_itself(drift[i]);
        lemma_contains_inside("    · "@, drift[i], "\n"@, drift[i]);
        assert(drift_lines(drift) =~= before + last + empty);
        lemma_contains_inside(before, last, empty, drift[i]);
    }
}

/// A recorded step is shown by how it came out, a failed one with its error; a
/// step without a record is shown as such.
pub proof fn law_steps_are_shown(steps: Map<Seq<char>, StepView>, name: Seq<char>)
    ensures
        !steps.dom().contains(name) ==> status_text(steps, name) == gray_of("· unrecorded"@),
        steps.dom().contains(name) && steps[name].state == StepState::Complete ==> status_text(
            steps,
            name,
        ) == green_of("✓ complete"@),
        steps.dom().contains(name) && steps[name].state == StepState::Pending ==> status_text(
            steps,
            name,
        ) == gray_of("· pending"@),
        steps.dom().contains(name) && steps[name].state == StepState::Skipped ==> status_text(
            steps,
            name,
        ) == gray_of("○ skipped"@),
        steps.dom().contains(name) && steps[name].state == StepState::Failed ==> begins(
            status_text(steps, name),
            red_of("✗ failed"@),
        ) && (steps[name].error matches Some(e) ==> ends(status_text(steps, name), e)),
{
    if steps.dom().contains(name) && steps[name].state == StepState::Failed {
        let t = status_text(steps, name);
        let head = red_of("✗ failed"@);
        assert(t.subrange(0, head.len() as int) =~= head);
        if let Some(e) = steps[name].error {
            assert(t.subrange(t.len() - e.len(), t.len() as int) =~= e);
        }
    }
}

/// The path of a step is the one it was completed with; a step without a record
/// has none.
pub proof fn law_recorded_path(steps: Map<Seq<char>, StepView>, name: Seq<char>, step: StepView)
    ensures
        recorded_path_of(steps.insert(name, step), name) == step.path,
        recorded_path_of(steps.remove(name), name) is None,
{
}

/// The packages named are those that henk installed, or `(none)`.
pub proof fn law_own_packages_are_named(steps: Map<Seq<char>, StepView>)
    ensures
        henk_packages(steps).len() == 0 ==> packages_text(steps) == "(none)"@,
        henk_packages(steps).len() == 1 ==> packages_text(steps) == henk_packages(steps)[0],
        henk_packages(steps).len() > 0 ==> packages_text(steps) == join_of(
            henk_packages(steps),
            ", "@,
        ),
{
}

/// The summary has a line for each of the six steps, and says which version of
/// the stack is recorded.
pub proof fn law_summary_shows_the_steps(s: StateView)
    ensures
        contains(
            state_summary(s),
            "\n  stack_version:   "@ + decimal(s.stack_version as nat),
        ),
        contains(state_summary(s), step_line(s.steps, "mkcert_ca"@)),
        contains(state_summary(s), step_line(s.steps, "wildcard_cert"@)),
        contains(state_summary(s), step_line(s.steps, "dnsmasq_dropin"@)),
        contains(state_summary(s), step_line(s.steps, "resolver_file"@)),
        contains(state_summary(s), step_line(s.steps, "stack_rendered"@)),
        contains(state_summary(s), step_line(s.steps, "stack_up"@)),
{
    let v = decimal(s.stack_version as nat);
    let top = bold_of("State manifest"@) + "\n  schema_version:  "@ + decimal(
        s.schema_version as nat,
    );
    let version = "\n  stack_version:   "@ + v;
    let h1 = top + "\n  stack_version:   "@ + v;
    let h2 = h1 + "\n  init_runs:       "@;
    let h3 = h2 + decimal(s.init_runs.len());
    let h4 = h3 + "\n  brew (henk):     "@;
    let h5 = h4 + packages_text(s.steps);
    let head = h5 + "\n\n  steps:\n"@;
    lemma_contains_pair(top, "\n  stack_version:   "@, v);
    lemma_contains_either(h1, "\n  init_runs:       "@, version);
    lemma_contains_either(h2, decimal(s.init_runs.len()), version);
    lemma_contains_either(h3, "\n  brew (henk):     "@, version);
    lemma_contains_either(h4, packages_text(s.steps), version);
    lemma_contains_either(h5, "\n\n  steps:\n"@, version);
    let a = step_line(s.steps, MKCERT_CA@);
    let b = step_line(s.steps, WILDCARD_CERT@);
    let c = step_line(s.steps, DNSMASQ_DROPIN@);
    let d = step_line(s.steps, RESOLVER_FILE@);
    let e = step_line(s.steps, STACK_RENDERED@);
    let f = step_line(s.steps, STACK_UP@);
    assert(state_summary(s) == head + a + b + c + d + e + f + "\n"@);
    lemma_six_parts(head, a, b, c, d, e, f, version);
    lemma_contains_itself(a);
    lemma_six_parts(head, a, b, c, d, e, f, a);
    lemma_contains_itself(b);
    lemma_six_parts(head, a, b, c, d, e, f, b);
    lemma_contains_itself(c);
    lemma_six_parts(head, a, b, c, d, e, f, c);
    lemma_contains_itself(d);
    lemma_six_parts(head, a, b, c, d, e, f, d);
    lemma_contains_itself(e);
    lemma_six_parts(head, a, b, c, d, e, f, e);
    lemma_contains_itself(f);
    lemma_six_parts(head, a, b, c, d, e, f, f);
}

/// A text holds what one of its parts holds.
proof fn lemma_six_parts(
    head: Seq<char>,
    a: Seq<char>,
    b: Seq<char>,
    c: Seq<char>,
    d: Seq<char>,
    e: Seq<char>,
    f: Seq<char>,
    pat: Seq<char>,
)
    requires
        contains(head, pat) || contains(a, pat) || contains(b, pat) || contains(c, pat) || contains(
            d,
            pat,
        ) || contains(e, pat) || contains(f, pat),
    ensures
        contains(head + a + b + c + d + e + f + "\n"@, pat),
{
    if contains(head, pat) || contains(a, pat) {
        lemma_contains_either(head, a, pat);
    }
    if contains(head + a, pat) || contains(b, pat) {
        lemma_contains_either(head + a, b, pat);
    }
    if contains(head + a + b, pat) || contains(c, pat) {
        lemma_contains_either(head + a + b, c, pat);
    }
    if contains(head + a + b + c, pat) || contains(d, pat) {
        lemma_contains_either(head + a + b + c, d, pat);
    }
    if contains(head + a + b + c + d, pat) || contains(e, pat) {
        lemma_contains_either(head + a + b + c + d, e, pat);
    }
    lemma_contains_either(head + a + b + c + d + e, f, pat);
    lemma_contains_either(head + a + b + c + d + e + f, "\n"@, pat);
}

} // verus!
