//! The state manifest and its operations.

use vstd::prelude::*;
use vstd::string::*;

use crate::clock::{now, Timestamp};
use crate::consts::{STACK_VERSION, STATE_SCHEMA_VERSION};
use crate::manifest::steps::{BREW_DNSMASQ, BREW_MKCERT, BREW_NSS, STACK_UP};
use crate::stack::paths::{
    config_dir_in, config_dir_of, home, join, joined, place, placed, under_home, Home, HomePath,
    PathError,
};
use crate::table::Table;
use crate::text::{eq, opt_text, texts};

verus! {

/// Name of the state file.
pub const FILENAME: &'static str = "state.json";

/// Path of the state file, for a given home directory.
pub fn path_in(home: &str) -> (r: String)
    ensures
        r@ == joined(config_dir_of(home@), FILENAME@),
{
    join(config_dir_in(home).as_str(), FILENAME)
}

/// Path of `~/.config/henk/state.json`.
///
/// `found` is what `home` gave; an error in it is passed on.
pub fn path_from(found: Result<Home, PathError>) -> (r: Result<HomePath, PathError>)
    ensures
        placed(found, joined(config_dir_of(""@), FILENAME@), r),
{
    place(found, path_in(""))
}

/// Path of `~/.config/henk/state.json`.
pub fn path() -> (r: Result<HomePath, PathError>)
    ensures
        under_home(r, joined(config_dir_of(""@), FILENAME@)),
{
    path_from(home())
}

/// Where a step stands.
#[derive(Debug, Clone, Copy, PartialEq, Eq, Structural)]
pub enum StepState {
    Pending,
    Complete,
    Failed,
    Skipped,
}

/// Who installed a package.
#[derive(Debug, Clone, Copy, PartialEq, Eq, Structural)]
pub enum InstalledBy {
    /// henk ran `brew install` for it.
    Henk,
    /// It was on the box before.
    Preexisting,
}

/// A recorded step.
#[derive(Debug, PartialEq, Eq)]
pub struct Step {
    pub state: StepState,
    /// Path the step produced (cert file, resolver file, etc.).
    pub path: Option<String>,
    /// For `brew_*` steps: who installed the package.
    pub installed_by: Option<InstalledBy>,
    /// Last error message of a failed step.
    pub error: Option<String>,
    /// When the step last changed.
    pub updated_at: Timestamp,
}

/// The view of a [`Step`].
#[verifier::ext_equal]
pub struct StepView {
    pub state: StepState,
    pub path: Option<Seq<char>>,
    pub installed_by: Option<InstalledBy>,
    pub error: Option<Seq<char>>,
    pub updated_at: Timestamp,
}

impl View for Step {
    type V = StepView;

    open spec fn view(&self) -> StepView {
        StepView {
            state: self.state,
            path: opt_text(self.path),
            installed_by: self.installed_by,
            error: opt_text(self.error),
            updated_at: self.updated_at,
        }
    }
}

/// One run of `henk init`.
#[derive(Debug, PartialEq, Eq)]
pub struct InitRun {
    pub started_at: Timestamp,
    pub completed_at: Option<Timestamp>,
    /// `in_progress` until the run is closed with its result.
    pub result: String,
}

/// The view of an [`InitRun`].
#[verifier::ext_equal]
pub struct RunView {
    pub started_at: Timestamp,
    pub completed_at: Option<Timestamp>,
    pub result: Seq<char>,
}

impl View for InitRun {
    type V = RunView;

    open spec fn view(&self) -> RunView {
        RunView {
            started_at: self.started_at,
            completed_at: self.completed_at,
            result: self.result@,
        }
    }
}

/// A linked project, mirroring its `.henk.toml`.
#[derive(Debug, PartialEq, Eq)]
pub struct LinkedProject {
    pub slug: String,
    pub path: String,
    pub mode: String,
    pub hosts: Vec<String>,
    /// Every file henk created inside the project.
    pub files_written: Vec<String>,
    /// `.env` keys henk appended.
    pub env_appended: Vec<String>,
}

/// The view of a [`LinkedProject`].
#[verifier::ext_equal]
pub struct ProjectView {
    pub slug: Seq<char>,
    pub path: Seq<char>,
    pub mode: Seq<char>,
    pub hosts: Seq<Seq<char>>,
    pub files_written: Seq<Seq<char>>,
    pub env_appended: Seq<Seq<char>>,
}

impl View for LinkedProject {
    type V = ProjectView;

    open spec fn view(&self) -> ProjectView {
        ProjectView {
            slug: self.slug@,
            path: self.path@,
            mode: self.mode@,
            hosts: texts(self.hosts@),
            files_written: texts(self.files_written@),
            env_appended: texts(self.env_appended@),
        }
    }
}

/// A privileged operation that was carried out.
#[derive(Debug, PartialEq, Eq)]
pub struct AuditEntry {
    pub ts: Timestamp,
    pub op: String,
    pub exit: i32,
}

/// The view of an [`AuditEntry`].
#[verifier::ext_equal]
pub struct AuditView {
    pub ts: Timestamp,
    pub op: Seq<char>,
    pub exit: i32,
}

impl View for AuditEntry {
    type V = AuditView;

    open spec fn view(&self) -> AuditView {
        AuditView { ts: self.ts, op: self.op@, exit: self.exit }
    }
}

/// What henk has done on this machine.
#[derive(Debug, PartialEq, Eq)]
pub struct StateManifest {
    pub schema_version: u32,
    pub stack_version: u32,
    /// TLD without leading dot, as in the config.
    pub tld: String,
    pub init_runs: Vec<InitRun>,
    /// Step records by name; see [`crate::manifest::steps`].
    pub steps: Table<Step>,
    /// The linked projects, so that `uninstall` can walk them.
    pub linked_projects: Vec<LinkedProject>,
    /// Append-only log of privileged operations.
    pub audit: Vec<AuditEntry>,
}

/// The view of a [`StateManifest`].
#[verifier::ext_equal]
pub struct StateView {
    pub schema_version: u32,
    pub stack_version: u32,
    pub tld: Seq<char>,
    pub init_runs: Seq<RunView>,
    pub steps: Map<Seq<char>, StepView>,
    pub linked_projects: Seq<ProjectView>,
    pub audit: Seq<AuditView>,
}

/// The views of the step records.
pub open spec fn step_views(steps: Table<Step>) -> Map<Seq<char>, StepView> {
    steps@.map_values(|s: Step| s@)
}

/// The views of the init runs.
pub open spec fn run_views(runs: Seq<InitRun>) -> Seq<RunView> {
    runs.map_values(|r: InitRun| r@)
}

/// The views of the audit log.
pub open spec fn audit_views(log: Seq<AuditEntry>) -> Seq<AuditView> {
    log.map_values(|e: AuditEntry| e@)
}

impl View for StateManifest {
    type V = StateView;

    open spec fn view(&self) -> StateView {
        StateView {
            schema_version: self.schema_version,
            stack_version: self.stack_version,
            tld: self.tld@,
            init_runs: run_views(self.init_runs@),
            steps: step_views(self.steps),
            linked_projects: self.linked_projects@.map_values(|p: LinkedProject| p@),
            audit: audit_views(self.audit@),
        }
    }
}

/// A manifest in which nothing has been done yet.
pub open spec fn blank(tld: Seq<char>) -> StateView {
    StateView {
        schema_version: STATE_SCHEMA_VERSION,
        stack_version: STACK_VERSION,
        tld,
        init_runs: seq![],
        steps: Map::empty(),
        linked_projects: seq![],
        audit: seq![],
    }
}

/// The same manifest with one more audit entry.
pub open spec fn audited(s: StateView, ts: Timestamp, op: Seq<char>, exit: i32) -> StateView {
    StateView { audit: s.audit.push(AuditView { ts, op, exit }), ..s }
}

/// The same manifest with a step recorded.
pub open spec fn recorded(s: StateView, name: Seq<char>, step: StepView) -> StateView {
    StateView { steps: s.steps.insert(name, step), ..s }
}

/// A completed step.
pub open spec fn completed_step(
    path: Option<Seq<char>>,
    installed_by: Option<InstalledBy>,
    ts: Timestamp,
) -> StepView {
    StepView { state: StepState::Complete, path, installed_by, error: None, updated_at: ts }
}

/// A failed step.
pub open spec fn failed_step(error: Seq<char>, ts: Timestamp) -> StepView {
    StepView {
        state: StepState::Failed,
        path: None,
        installed_by: None,
        error: Some(error),
        updated_at: ts,
    }
}

/// The same manifest with an init run begun.
pub open spec fn run_opened(s: StateView, ts: Timestamp) -> StateView {
    StateView {
        init_runs: s.init_runs.push(
            RunView { started_at: ts, completed_at: None, result: "in_progress"@ },
        ),
        ..s
    }
}

/// The same manifest with the last init run closed; the same when there is none.
pub open spec fn run_closed(s: StateView, result: Seq<char>, ts: Timestamp) -> StateView {
    if s.init_runs.len() == 0 {
        s
    } else {
        StateView {
            init_runs: s.init_runs.drop_last().push(
                RunView {
                    started_at: s.init_runs.last().started_at,
                    completed_at: Some(ts),
                    result,
                },
            ),
            ..s
        }
    }
}

/// Did henk itself install the package of this step?
pub open spec fn henk_installed(steps: Map<Seq<char>, StepView>, name: Seq<char>) -> bool {
    steps.dom().contains(name) && steps[name].installed_by == Some(InstalledBy::Henk)
        && steps[name].state == StepState::Complete
}

/// A package, if henk installed it.
pub open spec fn package_if(
    steps: Map<Seq<char>, StepView>,
    name: Seq<char>,
    pkg: Seq<char>,
) -> Seq<Seq<char>> {
    if henk_installed(steps, name) {
        seq![pkg]
    } else {
        seq![]
    }
}

/// The packages that henk installed.
pub open spec fn henk_packages(steps: Map<Seq<char>, StepView>) -> Seq<Seq<char>> {
    package_if(steps, BREW_MKCERT@, "mkcert"@) + package_if(steps, BREW_NSS@, "nss"@) + package_if(
        steps,
        BREW_DNSMASQ@,
        "dnsmasq"@,
    )
}

/// Does the record say that henk has set the stack up: was it brought up, or did
/// a run of `henk init` succeed?
pub open spec fn stack_recorded(s: StateView) -> bool {
    ||| s.steps.dom().contains(STACK_UP@) && s.steps[STACK_UP@].state == StepState::Complete
    ||| exists|i: int| 0 <= i < s.init_runs.len() && (#[trigger] s.init_runs[i]).result == "success"@
}

impl Default for StateManifest {
    fn default() -> (r: StateManifest)
        ensures
            r@ == blank(seq![]),
            r.wf(),
    {
        let tld = String::new();
        assert(tld@ =~= Seq::<char>::empty());
        StateManifest::blank_for(tld)
    }
}

impl StateManifest {
    /// The step records can be looked up.
    pub open spec fn wf(&self) -> bool {
        self.steps.wf()
    }

    /// A manifest in which nothing has been done yet.
    fn blank_for(tld: String) -> (r: StateManifest)
        ensures
            r@ == blank(tld@),
            r.wf(),
    {
        let r = StateManifest {
            schema_version: STATE_SCHEMA_VERSION,
            stack_version: STACK_VERSION,
            tld,
            init_runs: Vec::new(),
            steps: Table::new(),
            linked_projects: Vec::new(),
            audit: Vec::new(),
        };
        assert(r@ =~= blank(tld@));
        r
    }

    /// The state to go on with at a given moment: what is there, otherwise a
    /// skeleton for the TLD whose creation is the first audit entry.
    pub fn load_or_init_at(existing: Option<StateManifest>, tld: &str, ts: Timestamp) -> (r:
        StateManifest)
        ensures
            match existing {
                Some(s) => r == s,
                None => r.wf() && r@ == audited(blank(tld@), ts, "state.json created"@, 0),
            },
    {
        match existing {
            Some(s) => s,
            None => {
                let mut s = StateManifest::blank_for(tld.to_owned());
                s.audit_at("state.json created", 0, ts);
                s
            },
        }
    }

    /// The state to go on with: what is there, otherwise a skeleton for the TLD.
    pub fn load_or_init(existing: Option<StateManifest>, tld: &str) -> (r: StateManifest)
        ensures
            match existing {
                Some(s) => r == s,
                None => r.wf() && exists|ts: Timestamp|
                    r@ == #[trigger] audited(blank(tld@), ts, "state.json created"@, 0),
            },
    {
        StateManifest::load_or_init_at(existing, tld, now())
    }

    /// Records a step under its name.
    fn record(&mut self, name: &str, step: Step)
        requires
            old(self).wf(),
        ensures
            final(self).wf(),
            final(self)@ == recorded(old(self)@, name@, step@),
    {
        let ghost before = self@;
        let ghost view = step@;
        self.steps.insert(name.to_owned(), step);
        assert(step_views(self.steps) =~= before.steps.insert(name@, view));
        assert(self@ =~= recorded(before, name@, view));
    }

    /// Marks a step complete at a given moment.
    pub fn mark_step_complete_at(
        &mut self,
        name: &str,
        path: Option<String>,
        installed_by: Option<InstalledBy>,
        ts: Timestamp,
    )
        requires
            old(self).wf(),
        ensures
            final(self).wf(),
            final(self)@ == recorded(
                old(self)@,
                name@,
                completed_step(opt_text(path), installed_by, ts),
            ),
    {
        self.record(
            name,
            Step {
                state: StepState::Complete,
                path,
                installed_by,
                error: None,
                updated_at: ts,
            },
        );
    }

    /// Marks a step complete, with the path it produced or who installed the
    /// package.
    pub fn mark_step_complete(
        &mut self,
        name: &str,
        path: Option<String>,
        installed_by: Option<InstalledBy>,
    )
        requires
            old(self).wf(),
        ensures
            final(self).wf(),
            exists|ts: Timestamp|
                final(self)@ == recorded(
                    old(self)@,
                    name@,
                    #[trigger] completed_step(opt_text(path), installed_by, ts),
                ),
    {
        self.mark_step_complete_at(name, path, installed_by, now());
    }

    /// Marks a step failed at a given moment.
    pub fn mark_step_failed_at(&mut self, name: &str, error: &str, ts: Timestamp)
        requires
            old(self).wf(),
        ensures
            final(self).wf(),
            final(self)@ == recorded(old(self)@, name@, failed_step(error@, ts)),
    {
        self.record(
            name,
            Step {
                state: StepState::Failed,
                path: None,
                installed_by: None,
                error: Some(error.to_owned()),
                updated_at: ts,
            },
        );
    }

    /// Marks a step failed.
    pub fn mark_step_failed(&mut self, name: &str, error: &str)
        requires
            old(self).wf(),
        ensures
            final(self).wf(),
            exists|ts: Timestamp|
                final(self)@ == recorded(old(self)@, name@, #[trigger] failed_step(error@, ts)),
    {
        self.mark_step_failed_at(name, error, now());
    }

    /// Appends to the audit log at a given moment.
    pub fn audit_at(&mut self, op: &str, exit: i32, ts: Timestamp)
        ensures
            final(self)@ == audited(old(self)@, ts, op@, exit),
            final(self).wf() == old(self).wf(),
    {
        let ghost before = self@;
        let entry = AuditEntry { ts, op: op.to_owned(), exit };
        let ghost view = entry@;
        self.audit.push(entry);
        assert(audit_views(self.audit@) =~= before.audit.push(view));
        assert(self@ =~= audited(before, ts, op@, exit));
    }

    /// Appends to the audit log.
    pub fn audit(&mut self, op: &str, exit: i32)
        ensures
            exists|ts: Timestamp| final(self)@ == #[trigger] audited(old(self)@, ts, op@, exit),
            final(self).wf() == old(self).wf(),
    {
        self.audit_at(op, exit, now());
    }

    /// Begins an init run at a given moment.
    pub fn open_init_run_at(&mut self, ts: Timestamp)
        ensures
            final(self)@ == run_opened(old(self)@, ts),
            final(self).wf() == old(self).wf(),
    {
        let ghost before = self@;
        let run = InitRun {
            started_at: ts,
            completed_at: None,
            result: "in_progress".to_owned(),
        };
        let ghost view = run@;
        self.init_runs.push(run);
        assert(run_views(self.init_runs@) =~= before.init_runs.push(view));
        assert(self@ =~= run_opened(before, ts));
    }

    /// Begins an init run.
    pub fn open_init_run(&mut self)
        ensures
            exists|ts: Timestamp| final(self)@ == #[trigger] run_opened(old(self)@, ts),
            final(self).wf() == old(self).wf(),
    {
        self.open_init_run_at(now());
    }

    /// Closes the last init run at a given moment.
    pub fn close_init_run_at(&mut self, result: &str, ts: Timestamp)
        ensures
            final(self)@ == run_closed(old(self)@, result@, ts),
            final(self).wf() == old(self).wf(),
    {
        let ghost before = self@;
        match self.init_runs.pop() {
            Some(last) => {
                assert(run_views(self.init_runs@) =~= before.init_runs.drop_last());
                assert(last@ == before.init_runs.last());
                let run = InitRun {
                    started_at: last.started_at,
                    completed_at: Some(ts),
                    result: result.to_owned(),
                };
                let ghost view = run@;
                self.init_runs.push(run);
                assert(run_views(self.init_runs@) =~= before.init_runs.drop_last().push(view));
                assert(self@ =~= run_closed(before, result@, ts));
            },
            None => {
                assert(self@ =~= before);
            },
        }
    }

    /// Closes the last init run with its result; nothing happens when there is
    /// none.
    pub fn close_init_run(&mut self, result: &str)
        ensures
            exists|ts: Timestamp| final(self)@ == #[trigger] run_closed(old(self)@, result@, ts),
            final(self).wf() == old(self).wf(),
    {
        self.close_init_run_at(result, now());
    }

    /// Did henk itself install the package of this step?
    fn installed_by_henk(&self, name: &str) -> (r: bool)
        requires
            self.wf(),
        ensures
            r == henk_installed(self@.steps, name@),
    {
        match self.steps.get(name) {
            Some(step) => {
                assert(self@.steps[name@] == step@);
                step.installed_by == Some(InstalledBy::Henk) && step.state == StepState::Complete
            },
            None => false,
        }
    }

    /// Brew packages that henk itself installed: what `uninstall --deep` may
    /// remove.
    pub fn brew_packages_we_installed(&self) -> (r: Vec<String>)
        requires
            self.wf(),
        ensures
            texts(r@) == henk_packages(self@.steps),
    {
        let ghost steps = self@.steps;
        let mut out: Vec<String> = Vec::new();
        if self.installed_by_henk(BREW_MKCERT) {
            out.push("mkcert".to_owned());
        }
        let ghost one = package_if(steps, BREW_MKCERT@, "mkcert"@);
        assert(texts(out@) =~= one);
        if self.installed_by_henk(BREW_NSS) {
            out.push("nss".to_owned());
        }
        let ghost two = one + package_if(steps, BREW_NSS@, "nss"@);
        assert(texts(out@) =~= two);
        if self.installed_by_henk(BREW_DNSMASQ) {
            out.push("dnsmasq".to_owned());
        }
        assert(texts(out@) =~= two + package_if(steps, BREW_DNSMASQ@, "dnsmasq"@));
        out
    }

    /// Does the record say that henk has set the stack up?
    pub fn records_stack(&self) -> (r: bool)
        requires
            self.wf(),
        ensures
            r == stack_recorded(self@),
    {
        if let Some(step) = self.steps.get(STACK_UP) {
            assert(self@.steps[STACK_UP@] == step@);
            if step.state == StepState::Complete {
                return true;
            }
        }
        let ghost runs = self@.init_runs;
        let mut i: usize = 0;
        while i < self.init_runs.len()
            invariant
                i <= self.init_runs@.len(),
                runs == run_views(self.init_runs@),
                forall|j: int| 0 <= j < i ==> (#[trigger] runs[j]).result != "success"@,
            decreases self.init_runs@.len() - i,
        {
            assert(runs[i as int] == self.init_runs@[i as int]@);
            if eq(self.init_runs[i].result.as_str(), "success") {
                return true;
            }
            i += 1;
        }
        false
    }

    /// The stack on disk matches what this binary ships: takes note of it. Says
    /// whether the state changed and has to be saved. The recorded version is
    /// never lowered.
    pub fn record_stack_version(&mut self) -> (r: bool)
        ensures
            final(self)@ == (StateView {
                stack_version: if old(self)@.stack_version < STACK_VERSION {
                    STACK_VERSION
                } else {
                    old(self)@.stack_version
                },
                ..old(self)@
            }),
            r == (old(self)@.stack_version < STACK_VERSION),
            final(self).wf() == old(self).wf(),
    {
        let ghost before = self@;
        if self.stack_version < STACK_VERSION {
            self.stack_version = STACK_VERSION;
            assert(self@ =~= StateView { stack_version: STACK_VERSION, ..before });
            true
        } else {
            false
        }
    }
}

/// For steps that carry no install attribution.
pub fn no_install_attribution() -> (r: Option<InstalledBy>)
    ensures
        r is None,
{
    None
}

/// A state that remembers whether it has to be saved.
#[derive(Debug)]
pub struct StateGuard {
    pub inner: StateManifest,
    pub dirty: bool,
}

impl StateGuard {
    /// Guards the state to go on with. Nothing has to be saved yet.
    pub fn open(existing: Option<StateManifest>, tld: &str) -> (r: StateGuard)
        ensures
            !r.dirty,
            match existing {
                Some(s) => r.inner == s,
                None => r.inner.wf() && exists|ts: Timestamp|
                    r.inner@ == #[trigger] audited(blank(tld@), ts, "state.json created"@, 0),
            },
    {
        StateGuard { inner: StateManifest::load_or_init(existing, tld), dirty: false }
    }

    /// The state, to read.
    pub fn state(&self) -> (r: &StateManifest)
        ensures
            *r == self.inner,
    {
        &self.inner
    }

    /// The state, to change. From here on it has to be saved.
    pub fn state_mut(&mut self) -> (r: &mut StateManifest)
        ensures
            *r == old(self).inner,
            final(self).inner == *final(r),
            final(self).dirty,
    {
        self.dirty = true;
        &mut self.inner
    }
}

// ------------------------------------------------------------------------- laws

/// No operation rewrites the audit log: each leaves it as it was or appends to
/// it.
pub proof fn law_audit_is_append_only(
    s: StateView,
    name: Seq<char>,
    step: StepView,
    ts: Timestamp,
    op: Seq<char>,
    exit: i32,
    result: Seq<char>,
)
    ensures
        recorded(s, name, step).audit == s.audit,
        run_opened(s, ts).audit == s.audit,
        run_closed(s, result, ts).audit == s.audit,
        audited(s, ts, op, exit).audit.drop_last() == s.audit,
        s.audit.is_prefix_of(audited(s, ts, op, exit).audit),
{
    assert(s.audit.push(AuditView { ts, op, exit }).drop_last() =~= s.audit);
    assert(s.audit.push(AuditView { ts, op, exit }).take(s.audit.len() as int) =~= s.audit);
}

/// Recording a step leaves every other step as it was.
pub proof fn law_steps_are_independent(
    s: StateView,
    name: Seq<char>,
    step: StepView,
    other: Seq<char>,
)
    requires
        other != name,
    ensures
        recorded(s, name, step).steps.dom().contains(other) == s.steps.dom().contains(other),
        s.steps.dom().contains(other) ==> recorded(s, name, step).steps[other] == s.steps[other],
        recorded(s, name, step).steps[name] == step,
{
}

/// A package is offered for removal exactly when henk installed it; one that was
/// there before never is.
pub proof fn law_preexisting_packages_survive(steps: Map<Seq<char>, StepView>)
    ensures
        henk_packages(steps).contains("mkcert"@) <==> henk_installed(steps, BREW_MKCERT@),
        henk_packages(steps).contains("nss"@) <==> henk_installed(steps, BREW_NSS@),
        henk_packages(steps).contains("dnsmasq"@) <==> henk_installed(steps, BREW_DNSMASQ@),
        forall|pkg: Seq<char>| #[trigger]
            henk_packages(steps).contains(pkg) ==> pkg == "mkcert"@ || pkg == "nss"@ || pkg
                == "dnsmasq"@,
{
    reveal_strlit("mkcert");
    reveal_strlit("nss");
    reveal_strlit("dnsmasq");
    let a = package_if(steps, BREW_MKCERT@, "mkcert"@);
    let b = package_if(steps, BREW_NSS@, "nss"@);
    let c = package_if(steps, BREW_DNSMASQ@, "dnsmasq"@);
    let all = henk_packages(steps);
    assert("mkcert"@.len() == 6);
    assert("nss"@.len() == 3);
    assert("dnsmasq"@.len() == 7);
    assert forall|i: int| 0 <= i < all.len() implies (#[trigger] all[i] == "mkcert"@
        && henk_installed(steps, BREW_MKCERT@)) || (all[i] == "nss"@ && henk_installed(
        steps,
        BREW_NSS@,
    )) || (all[i] == "dnsmasq"@ && henk_installed(steps, BREW_DNSMASQ@)) by {
        if i < a.len() {
            assert(all[i] == a[i]);
        } else if i < a.len() + b.len() {
            assert(all[i] == b[i - a.len()]);
        } else {
            assert(all[i] == c[i - a.len() - b.len()]);
        }
    }
    if henk_installed(steps, BREW_MKCERT@) {
        assert(all[0] == a[0]);
    }
    if henk_installed(steps, BREW_NSS@) {
        assert(all[a.len() as int] == b[0]);
    }
    if henk_installed(steps, BREW_DNSMASQ@) {
        assert(all[(a.len() + b.len()) as int] == c[0]);
    }
}

/// Closing the run that was just opened completes it and leaves the earlier runs
/// alone.
pub proof fn law_runs_pair_up(s: StateView, begun: Timestamp, ended: Timestamp, result: Seq<char>)
    ensures
        run_closed(run_opened(s, begun), result, ended).init_runs == s.init_runs.push(
            RunView { started_at: begun, completed_at: Some(ended), result },
        ),
{
    let opened = run_opened(s, begun);
    assert(opened.init_runs.drop_last() =~= s.init_runs);
}

/// A completed step is on record as complete, with its path and with who
/// installed the package; a failed one is on record as failed, with its error.
pub proof fn law_outcomes_are_recorded(
    s: StateView,
    name: Seq<char>,
    path: Option<Seq<char>>,
    by: Option<InstalledBy>,
    error: Seq<char>,
    ts: Timestamp,
)
    ensures
        ({
            let done = recorded(s, name, completed_step(path, by, ts));
            &&& done.steps.dom().contains(name)
            &&& done.steps[name].state == StepState::Complete
            &&& done.steps[name].path == path
            &&& done.steps[name].installed_by == by
            &&& done.steps[name].error is None
            &&& done.steps[name].updated_at == ts
        }),
        ({
            let failed = recorded(s, name, failed_step(error, ts));
            &&& failed.steps.dom().contains(name)
            &&& failed.steps[name].state == StepState::Failed
            &&& failed.steps[name].path is None
            &&& failed.steps[name].installed_by is None
            &&& failed.steps[name].error == Some(error)
            &&& failed.steps[name].updated_at == ts
        }),
{
}

/// A package is listed as henk's own as soon as its step is completed with henk
/// as the installer, and not when it was there before or when the step failed.
pub proof fn law_only_own_packages_are_removed(
    s: StateView,
    path: Option<Seq<char>>,
    by: Option<InstalledBy>,
    error: Seq<char>,
    ts: Timestamp,
)
    ensures
        henk_packages(
            recorded(s, "brew_mkcert"@, completed_step(path, by, ts)).steps,
        ).contains("mkcert"@) <==> by == Some(InstalledBy::Henk),
        henk_packages(
            recorded(s, "brew_nss"@, completed_step(path, by, ts)).steps,
        ).contains("nss"@) <==> by == Some(InstalledBy::Henk),
        henk_packages(
            recorded(s, "brew_dnsmasq"@, completed_step(path, by, ts)).steps,
        ).contains("dnsmasq"@) <==> by == Some(InstalledBy::Henk),
        !henk_packages(recorded(s, "brew_mkcert"@, failed_step(error, ts)).steps).contains(
            "mkcert"@,
        ),
        !henk_packages(recorded(s, "brew_nss"@, failed_step(error, ts)).steps).contains("nss"@),
        !henk_packages(recorded(s, "brew_dnsmasq"@, failed_step(error, ts)).steps).contains(
            "dnsmasq"@,
        ),
        henk_packages(blank(s.tld).steps).len() == 0,
{
    let step = completed_step(path, by, ts);
    let bad = failed_step(error, ts);
    law_preexisting_packages_survive(recorded(s, "brew_mkcert"@, step).steps);
    law_preexisting_packages_survive(recorded(s, "brew_nss"@, step).steps);
    law_preexisting_packages_survive(recorded(s, "brew_dnsmasq"@, step).steps);
    law_preexisting_packages_survive(recorded(s, "brew_mkcert"@, bad).steps);
    law_preexisting_packages_survive(recorded(s, "brew_nss"@, bad).steps);
    law_preexisting_packages_survive(recorded(s, "brew_dnsmasq"@, bad).steps);
}

/// A run that was just begun is the last one: in progress, with no end.
pub proof fn law_new_runs_are_in_progress(s: StateView, ts: Timestamp)
    ensures
        run_opened(s, ts).init_runs.len() == s.init_runs.len() + 1,
        run_opened(s, ts).init_runs.drop_last() == s.init_runs,
        run_opened(s, ts).init_runs.last().started_at == ts,
        run_opened(s, ts).init_runs.last().completed_at is None,
        run_opened(s, ts).init_runs.last().result == "in_progress"@,
        run_opened(s, ts).steps == s.steps,
        run_opened(s, ts).tld == s.tld,
{
    assert(run_opened(s, ts).init_runs.drop_last() =~= s.init_runs);
}

/// Closing a run gives the last one its result and its end, and keeps when it
/// began and all the runs before it.
pub proof fn law_closed_runs_have_a_result(s: StateView, result: Seq<char>, ts: Timestamp)
    ensures
        run_closed(s, result, ts).init_runs.len() == s.init_runs.len(),
        s.init_runs.len() > 0 ==> ({
            let last = run_closed(s, result, ts).init_runs.last();
            &&& last.started_at == s.init_runs.last().started_at
            &&& last.completed_at == Some(ts)
            &&& last.result == result
        }),
        forall|i: int|
            0 <= i < s.init_runs.len() - 1 ==> #[trigger] run_closed(s, result, ts).init_runs[i]
                == s.init_runs[i],
        run_closed(s, result, ts).steps == s.steps,
        run_closed(s, result, ts).tld == s.tld,
{
}

/// The stack counts as set up once a run has succeeded or its step is complete.
/// A fresh record, a run that has only begun and a step that failed do not make
/// it so.
pub proof fn law_stack_is_recorded_by_success(
    s: StateView,
    tld: Seq<char>,
    path: Option<Seq<char>>,
    by: Option<InstalledBy>,
    error: Seq<char>,
    ts: Timestamp,
)
    ensures
        s.init_runs.len() > 0 ==> stack_recorded(run_closed(s, "success"@, ts)),
        stack_recorded(recorded(s, "stack_up"@, completed_step(path, by, ts))),
        !stack_recorded(blank(tld)),
        stack_recorded(run_opened(s, ts)) <==> stack_recorded(s),
        s.init_runs.len() == 0 ==> !stack_recorded(
            recorded(s, "stack_up"@, failed_step(error, ts)),
        ),
{
    reveal_strlit("success");
    reveal_strlit("in_progress");
    assert("success"@.len() != "in_progress"@.len());
    let closed = run_closed(s, "success"@, ts);
    if s.init_runs.len() > 0 {
        assert(closed.init_runs[s.init_runs.len() - 1].result == "success"@);
    }
    let opened = run_opened(s, ts);
    if stack_recorded(opened) && exists|i: int|
        0 <= i < opened.init_runs.len() && (#[trigger] opened.init_runs[i]).result == "success"@ {
        let i = choose|i: int|
            0 <= i < opened.init_runs.len() && (#[trigger] opened.init_runs[i]).result
                == "success"@;
        assert(i < s.init_runs.len());
        assert(s.init_runs[i].result == "success"@);
    }
    if exists|i: int|
        0 <= i < s.init_runs.len() && (#[trigger] s.init_runs[i]).result == "success"@ {
        let i = choose|i: int|
            0 <= i < s.init_runs.len() && (#[trigger] s.init_runs[i]).result == "success"@;
        assert(opened.init_runs[i].result == "success"@);
    }
}

/// A fresh record knows its TLD and nothing else: no runs, steps, projects or
/// audit entries.
pub proof fn law_fresh_records_are_empty(tld: Seq<char>)
    ensures
        blank(tld).tld == tld,
        blank(tld).init_runs.len() == 0,
        blank(tld).steps.dom() == Set::<Seq<char>>::empty(),
        blank(tld).linked_projects.len() == 0,
        blank(tld).audit.len() == 0,
{
}

} // verus!
