//! `henk update`: what is recorded and said around a self-update.

use vstd::prelude::*;
use vstd::string::*;

use crate::paint::{
    bold, bold_of, bright_green, bright_green_of, bright_red, bright_red_of, gray, gray_of, yellow,
    yellow_of,
};
use crate::project::file_provider::lemma_contains_inside;
use crate::text::{begins, contains, lemma_contains_itself};

verus! {

/// The audit entry of a request.
pub open spec fn audit_op_of(check: bool) -> Seq<char> {
    if check {
        "henk update --check"@
    } else {
        "henk update"@
    }
}

/// The audit entry of a request. Every request is recorded, whatever comes of
/// it.
pub fn audit_op(check: bool) -> (r: String)
    ensures
        r@ == audit_op_of(check),
{
    if check {
        "henk update --check".to_owned()
    } else {
        "henk update".to_owned()
    }
}

/// The audit entry of a failed update.
pub const AUDIT_FAILED: &'static str = "henk update (failed)";

/// What is printed when there is no install receipt: henk was built from source.
pub fn print_receipt_missing(error: &str) -> (r: String)
    ensures
        r@ == "  "@ + gray_of("·"@) + "  Could not load install receipt: "@ + error@
            + "\n\n  This usually means henk was built from source rather than\n  installed via the release installer. To update, pull the\n  latest source and rebuild:\n\n    git pull && cargo build --release\n\n"@,
{
    "  ".to_owned().concat(gray("·").as_str()).concat("  Could not load install receipt: ").concat(
        error,
    ).concat(
        "\n\n  This usually means henk was built from source rather than\n  installed via the release installer. To update, pull the\n  latest source and rebuild:\n\n    git pull && cargo build --release\n\n",
    )
}

/// What a check found.
#[derive(Debug)]
pub enum CheckOutcome {
    /// There is a newer version.
    Newer,
    /// There is none.
    UpToDate,
    /// It could not be found out.
    Failed(String),
}

/// What is printed about a check.
pub open spec fn check_text(outcome: CheckOutcome) -> Seq<char> {
    match outcome {
        CheckOutcome::Newer => "  "@ + bright_green_of("↑"@)
            + "  A newer version of henk is available.\n  Run "@ + bold_of("henk update"@)
            + " to install it.\n\n"@,
        CheckOutcome::UpToDate => "  "@ + bright_green_of("✓"@) + "  henk is up to date.\n\n"@,
        CheckOutcome::Failed(e) => "  "@ + gray_of("·"@) + "  Could not check for updates: "@ + e@
            + "\n\n  Check https://github.com/fivespark/henk/releases manually.\n\n"@,
    }
}

/// What is printed about a check.
pub fn print_check(outcome: &CheckOutcome) -> (r: String)
    ensures
        r@ == check_text(*outcome),
{
    match outcome {
        CheckOutcome::Newer => "  ".to_owned().concat(bright_green("↑").as_str()).concat(
            "  A newer version of henk is available.\n  Run ",
        ).concat(bold("henk update").as_str()).concat(" to install it.\n\n"),
        CheckOutcome::UpToDate => "  ".to_owned().concat(bright_green("✓").as_str()).concat(
            "  henk is up to date.\n\n",
        ),
        CheckOutcome::Failed(e) => "  ".to_owned().concat(gray("·").as_str()).concat(
            "  Could not check for updates: ",
        ).concat(e.as_str()).concat(
            "\n\n  Check https://github.com/fivespark/henk/releases manually.\n\n",
        ),
    }
}

/// How an update came out.
#[derive(Debug)]
pub enum UpdateOutcome {
    /// This version is installed now.
    Updated(String),
    /// The latest version was installed already.
    AlreadyLatest,
    /// The update failed.
    Failed(String),
}

/// The stack is upgraded after every update that did not fail: the binary can
/// have reached the latest version in some other way.
pub open spec fn upgrades_stack(outcome: UpdateOutcome) -> bool {
    !(outcome is Failed)
}

/// Is the stack to be upgraded?
pub fn should_upgrade_stack(outcome: &UpdateOutcome) -> (r: bool)
    ensures
        r == upgrades_stack(*outcome),
{
    match outcome {
        UpdateOutcome::Failed(_) => false,
        _ => true,
    }
}

/// What is printed about an update.
pub open spec fn update_text(outcome: UpdateOutcome) -> Seq<char> {
    match outcome {
        UpdateOutcome::Updated(v) => "  "@ + bright_green_of("✓"@) + "  Updated to "@ + bold_of(v@)
            + "\n"@,
        UpdateOutcome::AlreadyLatest => "  "@ + bright_green_of("✓"@)
            + "  Already on the latest version.\n"@,
        UpdateOutcome::Failed(e) => "  "@ + bright_red_of("✗"@) + "  Update failed: "@ + e@
            + "\n\n  Download manually from https://github.com/fivespark/henk/releases\n"@,
    }
}

/// What is printed about an update.
pub fn print_update(outcome: &UpdateOutcome) -> (r: String)
    ensures
        r@ == update_text(*outcome),
{
    match outcome {
        UpdateOutcome::Updated(v) => "  ".to_owned().concat(bright_green("✓").as_str()).concat(
            "  Updated to ",
        ).concat(bold(v.as_str()).as_str()).concat("\n"),
        UpdateOutcome::AlreadyLatest => "  ".to_owned().concat(bright_green("✓").as_str()).concat(
            "  Already on the latest version.\n",
        ),
        UpdateOutcome::Failed(e) => "  ".to_owned().concat(bright_red("✗").as_str()).concat(
            "  Update failed: ",
        ).concat(e.as_str()).concat(
            "\n\n  Download manually from https://github.com/fivespark/henk/releases\n",
        ),
    }
}

/// What is printed before the stack is upgraded.
pub fn print_upgrading() -> (r: String)
    ensures
        r@ == "\n  "@ + gray_of("⤷"@) + "  Bringing the stack up to date ...\n\n"@,
{
    "\n  ".to_owned().concat(gray("⤷").as_str()).concat("  Bringing the stack up to date ...\n\n")
}

/// What is printed after the stack was upgraded; nothing when that worked.
pub fn upgrade_stack(succeeded: bool) -> (r: Option<String>)
    ensures
        match r {
            Some(text) => !succeeded && text@ == "  "@ + yellow_of("!"@)
                + "  The new henk is installed, but the stack wasn't upgraded.\n  Run "@ + bold_of(
                "henk up"@,
            ) + " to finish.\n\n"@,
            None => succeeded,
        },
{
    if succeeded {
        return None;
    }
    Some(
        "  ".to_owned().concat(yellow("!").as_str()).concat(
            "  The new henk is installed, but the stack wasn't upgraded.\n  Run ",
        ).concat(bold("henk up").as_str()).concat(" to finish.\n\n"),
    )
}

/// The stack is upgraded after an update and when the latest version was there
/// already, and left alone only when the update failed.
pub proof fn law_failed_updates_leave_the_stack(outcome: UpdateOutcome)
    ensures
        outcome is Updated ==> upgrades_stack(outcome),
        outcome is AlreadyLatest ==> upgrades_stack(outcome),
        outcome is Failed ==> !upgrades_stack(outcome),
{
}

/// A check and an update are told apart in the audit log.
pub proof fn law_checks_are_audited_as_checks()
    ensures
        audit_op_of(true) != audit_op_of(false),
        begins(audit_op_of(true), audit_op_of(false)),
        audit_op_of(false) == "henk update"@,
{
    reveal_strlit("henk update --check");
    reveal_strlit("henk update");
    assert("henk update --check"@.len() != "henk update"@.len());
    assert("henk update --check"@.subrange(0, "henk update"@.len() as int) =~= "henk update"@);
}

/// What is printed names the version that is installed now, and passes the error
/// of a failure on.
pub proof fn law_outcomes_are_told(outcome: UpdateOutcome, check: CheckOutcome)
    ensures
        outcome matches UpdateOutcome::Updated(v) ==> contains(update_text(outcome), v@),
        outcome matches UpdateOutcome::Failed(e) ==> contains(update_text(outcome), e@),
        check matches CheckOutcome::Failed(e) ==> contains(check_text(check), e@),
        check is Newer ==> contains(
            check_text(check),
            "  A newer version of henk is available.\n  Run "@,
        ),
        check is UpToDate ==> contains(check_text(check), "  henk is up to date.\n\n"@),
{
    let ok = "  "@ + bright_green_of("✓"@);
    match outcome {
        UpdateOutcome::Updated(v) => {
            lemma_contains_itself(v@);
            lemma_contains_inside("\u{1b}[1m"@, v@, "\u{1b}[0m"@, v@);
            lemma_contains_inside(ok + "  Updated to "@, bold_of(v@), "\n"@, v@);
        },
        UpdateOutcome::AlreadyLatest => {},
        UpdateOutcome::Failed(e) => {
            lemma_contains_itself(e@);
            lemma_contains_inside(
                "  "@ + bright_red_of("✗"@) + "  Update failed: "@,
                e@,
                "\n\n  Download manually from https://github.com/fivespark/henk/releases\n"@,
                e@,
            );
        },
    }
    match check {
        CheckOutcome::Newer => {
            let t = "  A newer version of henk is available.\n  Run "@;
            let rest = bold_of("henk update"@) + " to install it.\n\n"@;
            lemma_contains_itself(t);
            lemma_contains_inside("  "@ + bright_green_of("↑"@), t, rest, t);
            assert(check_text(check) =~= "  "@ + bright_green_of("↑"@) + t + rest);
        },
        CheckOutcome::UpToDate => {
            let t = "  henk is up to date.\n\n"@;
            let empty = Seq::<char>::empty();
            lemma_contains_itself(t);
            lemma_contains_inside(ok, t, empty, t);
            assert(check_text(check) =~= ok + t + empty);
        },
        CheckOutcome::Failed(e) => {
            lemma_contains_itself(e@);
            lemma_contains_inside(
                "  "@ + gray_of("·"@) + "  Could not check for updates: "@,
                e@,
                "\n\n  Check https://github.com/fivespark/henk/releases manually.\n\n"@,
                e@,
            );
        },
    }
}

} // verus!
