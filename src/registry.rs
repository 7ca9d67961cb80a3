use vstd::prelude::*;
use vstd::string::*;

use crate::process::{
    backoff_schedule, lemma_restart_cycle, restart_permitted, ExitStatus, SupervisedProcess,
    INITIAL_BACKOFF_SECS, MAX_BACKOFF_SECS,
};
use crate::service::RestartPolicy;
use crate::service::{copy_strings, strings_view, ServiceSpec, ServiceSpecView};
use crate::text::text_eq;

verus! {

/// Why a registry operation did not succeed.
#[derive(Debug)]
pub enum RegistryError {
    /// No service is registered under the name.
    NotFound,
    /// A service is already registered under the name.
    AlreadyExists,
    /// The service has no supervised process.
    NotRunning,
    /// The service's command is empty.
    EmptyCommand,
    /// The operating system could not create the process.
    SpawnFailed(String),
}

/// The runtime state of one service as reported to clients.
#[derive(Debug)]
pub struct StatusInfo {
    pub name: String,
    pub running: bool,
    pub restart_count: u32,
    pub last_start_secs_ago: Option<u64>,
}

/// What starting a service calls for.
#[derive(Debug)]
pub enum StartPlan {
    /// The service already runs: nothing to do.
    AlreadyRunning,
    /// Launch a process with this argument vector, then report it with
    /// `complete_start`.
    Launch(Vec<String>),
}

/// The outcome of a non-blocking wait on a supervised process.
#[derive(Debug, Clone, Copy, PartialEq, Eq, Structural)]
pub enum Probe {
    /// The process still runs.
    Running,
    /// The process has terminated with this status and was reaped.
    Exited(ExitStatus),
    /// The wait itself failed.
    Failed,
}

/// What one pass of the supervision loop calls for, for one service.
#[derive(Debug)]
pub enum MonitorAction<H> {
    /// Nothing: the name is no longer supervised, or its wait failed.
    Nothing,
    /// The definition is gone: the entry was dropped; terminate this process.
    Orphaned(Option<H>),
    /// The process runs: probe the health of this definition.
    CheckHealth(ServiceSpec),
    /// Wait this many seconds, then relaunch (see `restart_args`).
    Restart(u64),
    /// The process exited and its policy forbids a restart: the entry was
    /// dropped.
    Retired(ExitStatus),
}

/// Whether `p` is the record of a process just launched for the definition
/// `spec` as `child` at time `now`.
pub open spec fn freshly_started<H>(
    p: SupervisedProcess<H>,
    spec: ServiceSpecView,
    child: H,
    now: u64,
) -> bool {
    &&& p.child == Some(child)
    &&& strings_view(p.cmd@) == spec.cmd
    &&& p.restart_policy == spec.restart
    &&& p.restart_count == 1
    &&& p.last_start == Some(now)
    &&& p.backoff == INITIAL_BACKOFF_SECS
}

/// Whole seconds from `start` to `now`, both in milliseconds; zero if the
/// clock reads earlier than the start.
pub open spec fn secs_between(start: u64, now: u64) -> u64 {
    if start <= now {
        ((now - start) / 1000) as u64
    } else {
        0
    }
}

/// Whether `info` reports the state of the process `p` of `name` at time
/// `now`.
pub open spec fn reports<H>(info: StatusInfo, name: Seq<char>, p: SupervisedProcess<H>, now: u64) -> bool {
    &&& info.name@ == name
    &&& info.running == p.running()
    &&& info.restart_count == p.restart_count
    &&& info.last_start_secs_ago == match p.last_start {
        Some(t) => Some(secs_between(t, now)),
        None => None::<u64>,
    }
}

/// Whether no name occurs twice.
pub open spec fn names_unique(names: Seq<Seq<char>>) -> bool {
    forall|i: int, j: int| 0 <= i < j < names.len() ==> names[i] != names[j]
}

/// The names of the definitions, in order.
pub open spec fn spec_names(specs: Seq<ServiceSpecView>) -> Seq<Seq<char>> {
    specs.map_values(|s: ServiceSpecView| s.name)
}

/// Whether the sequence of definitions holds one named `name`.
pub open spec fn lists_name(specs: Seq<ServiceSpecView>, name: Seq<char>) -> bool {
    exists|i: int| 0 <= i < specs.len() && specs[i].name == name
}

/// The definition named `name` in `specs`, when `lists_name(specs, name)`.
pub open spec fn spec_named(specs: Seq<ServiceSpecView>, name: Seq<char>) -> ServiceSpecView {
    specs[choose|i: int| 0 <= i < specs.len() && specs[i].name == name]
}

/// Whether the entry at index `i` of the table is named `name`.
pub open spec fn entry_at<H>(
    entries: Seq<(String, SupervisedProcess<H>)>,
    name: Seq<char>,
    i: int,
) -> bool {
    0 <= i < entries.len() && entries[i].0@ == name
}

/// Whether the table of supervised processes has an entry named `name`.
pub open spec fn has_entry<H>(entries: Seq<(String, SupervisedProcess<H>)>, name: Seq<char>) -> bool {
    exists|i: int| entry_at(entries, name, i)
}

/// The supervised process named `name`, when `has_entry(entries, name)`.
pub open spec fn entry_named<H>(
    entries: Seq<(String, SupervisedProcess<H>)>,
    name: Seq<char>,
) -> SupervisedProcess<H> {
    entries[choose|i: int| entry_at(entries, name, i)].1
}

/// Whether `x` occurs exactly once in `s`.
pub open spec fn occurs_once<A>(s: Seq<A>, x: A) -> bool {
    exists|i: int|
        0 <= i < s.len() && s[i] == x && forall|j: int| 0 <= j < s.len() && s[j] == x ==> j == i
}

/// The service registry: definitions keyed by name, and the supervised
/// process of each started service, keyed by name.
pub struct Registry<H> {
    services: Vec<ServiceSpec>,
    processes: Vec<(String, SupervisedProcess<H>)>,
}

impl<H> Registry<H> {
    /// The registered definitions, in order of registration.
    pub closed spec fn specs(&self) -> Seq<ServiceSpecView> {
        self.services@.map_values(|s: ServiceSpec| s@)
    }

    /// The supervised processes with their names.
    pub closed spec fn procs(&self) -> Seq<(String, SupervisedProcess<H>)> {
        self.processes@
    }

    /// The names of the supervised processes, in table order.
    pub open spec fn proc_names(&self) -> Seq<Seq<char>> {
        self.procs().map_values(|e: (String, SupervisedProcess<H>)| e.0@)
    }

    /// Whether a definition is registered under `name`.
    pub open spec fn has_spec(&self, name: Seq<char>) -> bool {
        lists_name(self.specs(), name)
    }

    /// The definition registered under `name`, when `has_spec(name)`.
    pub open spec fn spec_of(&self, name: Seq<char>) -> ServiceSpecView {
        spec_named(self.specs(), name)
    }

    /// Whether `name` has a supervised process.
    pub open spec fn has_proc(&self, name: Seq<char>) -> bool {
        has_entry(self.procs(), name)
    }

    /// The supervised process of `name`, when `has_proc(name)`.
    pub open spec fn proc_of(&self, name: Seq<char>) -> SupervisedProcess<H> {
        entry_named(self.procs(), name)
    }

    /// Every name but `name` has the same supervised process, or none, in
    /// `new` as in `old`.
    pub open spec fn others_kept(old: &Self, new: &Self, name: Seq<char>) -> bool {
        forall|n: Seq<char>|
            n != name ==> {
                &&& #[trigger] new.has_proc(n) == old.has_proc(n)
                &&& old.has_proc(n) ==> new.proc_of(n) == old.proc_of(n)
            }
    }

    /// Whether `name` has a supervised process that holds a live process.
    pub open spec fn is_running(&self, name: Seq<char>) -> bool {
        self.has_proc(name) && self.proc_of(name).running()
    }

    /// Names are unique in both stores, and every supervised process has a
    /// command to run and a backoff within bounds.
    pub open spec fn wf(&self) -> bool {
        &&& names_unique(spec_names(self.specs()))
        &&& names_unique(self.proc_names())
        &&& self.entries_ok()
    }

    /// Every supervised process has a command and a backoff within bounds.
    pub open spec fn entries_ok(&self) -> bool {
        forall|i: int|
            0 <= i < self.procs().len() ==> {
                &&& (#[trigger] self.procs()[i]).1.wf()
                &&& self.procs()[i].1.cmd@.len() > 0
            }
    }

    /// An empty registry.
    pub fn new() -> (r: Self)
        ensures
            r.wf(),
            r.specs().len() == 0,
            r.procs().len() == 0,
    {
        let r = Registry { services: Vec::new(), processes: Vec::new() };
        assert(r.specs() =~= Seq::<ServiceSpecView>::empty());
        r
    }

    /// The entry at index `i` is the one `proc_of` names.
    proof fn lemma_proc_index(&self, name: Seq<char>, i: int)
        requires
            names_unique(self.proc_names()),
            entry_at(self.procs(), name, i),
        ensures
            self.has_proc(name),
            self.proc_of(name) == self.procs()[i].1,
    {
        let j = choose|j: int| entry_at(self.procs(), name, j);
        assert(self.proc_names()[i] == self.proc_names()[j]);
    }

    /// Removing the entry at `i0` drops its name and keeps every other entry.
    proof fn lemma_procs_remove(old: &Self, new: &Self, i0: int)
        requires
            names_unique(old.proc_names()),
            0 <= i0 < old.procs().len(),
            new.procs() == old.procs().remove(i0),
        ensures
            names_unique(new.proc_names()),
            old.entries_ok() ==> new.entries_ok(),
            !new.has_proc(old.procs()[i0].0@),
            Self::others_kept(old, new, old.procs()[i0].0@),
    {
        let m = old.procs()[i0].0@;
        Self::lemma_procs_remove_unique(old, new, i0);
        if new.has_proc(m) {
            let j = choose|j: int| entry_at(new.procs(), m, j);
            let oj = if j < i0 { j } else { j + 1 };
            assert(old.proc_names()[oj] == old.proc_names()[i0]);
        }
        assert forall|n: Seq<char>| n != m implies {
            &&& #[trigger] new.has_proc(n) == old.has_proc(n)
            &&& old.has_proc(n) ==> new.proc_of(n) == old.proc_of(n)
        } by {
            if new.has_proc(n) {
                let j = choose|j: int| entry_at(new.procs(), n, j);
                let oj = if j < i0 { j } else { j + 1 };
                assert(entry_at(old.procs(), n, oj));
                old.lemma_proc_index(n, oj);
                new.lemma_proc_index(n, j);
            }
            if old.has_proc(n) {
                let k = choose|k: int| entry_at(old.procs(), n, k);
                assert(k != i0);
                let nk = if k < i0 { k } else { k - 1 };
                assert(entry_at(new.procs(), n, nk));
            }
        }
    }

    /// Removing an entry keeps names unique and entries well formed.
    proof fn lemma_procs_remove_unique(old: &Self, new: &Self, i0: int)
        requires
            names_unique(old.proc_names()),
            0 <= i0 < old.procs().len(),
            new.procs() == old.procs().remove(i0),
        ensures
            names_unique(new.proc_names()),
            old.entries_ok() ==> new.entries_ok(),
    {
        if old.entries_ok() {
            assert forall|i: int| 0 <= i < new.procs().len() implies {
                &&& (#[trigger] new.procs()[i]).1.wf()
                &&& new.procs()[i].1.cmd@.len() > 0
            } by {
                let oi = if i < i0 { i } else { i + 1 };
                assert(new.procs()[i] == old.procs()[oi]);
            }
        }
        assert forall|a: int, b: int| 0 <= a < b < new.proc_names().len() implies new.proc_names()[a]
            != new.proc_names()[b] by {
            let oa = if a < i0 { a } else { a + 1 };
            let ob = if b < i0 { b } else { b + 1 };
            assert(new.proc_names()[a] == old.proc_names()[oa]);
            assert(new.proc_names()[b] == old.proc_names()[ob]);
        }
    }

    /// Appending an entry under a new name adds that name and keeps every
    /// other entry.
    proof fn lemma_procs_push(old: &Self, new: &Self, e: (String, SupervisedProcess<H>))
        requires
            names_unique(old.proc_names()),
            !old.has_proc(e.0@),
            new.procs() == old.procs().push(e),
        ensures
            names_unique(new.proc_names()),
            old.entries_ok() && e.1.wf() && e.1.cmd@.len() > 0 ==> new.entries_ok(),
            new.has_proc(e.0@),
            new.proc_of(e.0@) == e.1,
            Self::others_kept(old, new, e.0@),
    {
        let len = old.procs().len() as int;
        if old.entries_ok() && e.1.wf() && e.1.cmd@.len() > 0 {
            assert forall|i: int| 0 <= i < new.procs().len() implies {
                &&& (#[trigger] new.procs()[i]).1.wf()
                &&& new.procs()[i].1.cmd@.len() > 0
            } by {
                if i < len {
                    assert(new.procs()[i] == old.procs()[i]);
                }
            }
        }
        assert forall|a: int, b: int| 0 <= a < b < new.proc_names().len() implies new.proc_names()[a]
            != new.proc_names()[b] by {
            assert(new.proc_names()[a] == old.proc_names()[a]);
            if b < len {
                assert(new.proc_names()[b] == old.proc_names()[b]);
            } else {
                assert(new.proc_names()[b] == e.0@);
                if new.proc_names()[a] == new.proc_names()[b] {
                    assert(entry_at(old.procs(), e.0@, a));
                }
            }
        }
        assert(entry_at(new.procs(), e.0@, len));
        new.lemma_proc_index(e.0@, len);
        assert forall|n: Seq<char>| n != e.0@ implies {
            &&& #[trigger] new.has_proc(n) == old.has_proc(n)
            &&& old.has_proc(n) ==> new.proc_of(n) == old.proc_of(n)
        } by {
            if new.has_proc(n) {
                let j = choose|j: int| entry_at(new.procs(), n, j);
                assert(entry_at(old.procs(), n, j));
                old.lemma_proc_index(n, j);
                new.lemma_proc_index(n, j);
            }
            if old.has_proc(n) {
                let k = choose|k: int| entry_at(old.procs(), n, k);
                assert(entry_at(new.procs(), n, k));
            }
        }
    }

    /// Replacing the process of the entry at `i0` keeps every name and every
    /// other entry.
    proof fn lemma_procs_update(old: &Self, new: &Self, i0: int, p: SupervisedProcess<H>)
        requires
            names_unique(old.proc_names()),
            0 <= i0 < old.procs().len(),
            new.procs() == old.procs().update(i0, (old.procs()[i0].0, p)),
        ensures
            names_unique(new.proc_names()),
            old.entries_ok() && p.wf() && p.cmd@.len() > 0 ==> new.entries_ok(),
            new.proc_names() == old.proc_names(),
            new.has_proc(old.procs()[i0].0@),
            new.proc_of(old.procs()[i0].0@) == p,
            Self::others_kept(old, new, old.procs()[i0].0@),
    {
        let m = old.procs()[i0].0@;
        assert(new.proc_names() =~= old.proc_names());
        Self::lemma_procs_update_entries(old, new, i0, p);
        assert(entry_at(new.procs(), m, i0));
        new.lemma_proc_index(m, i0);
        assert forall|n: Seq<char>| n != m implies {
            &&& #[trigger] new.has_proc(n) == old.has_proc(n)
            &&& old.has_proc(n) ==> new.proc_of(n) == old.proc_of(n)
        } by {
            if new.has_proc(n) {
                let j = choose|j: int| entry_at(new.procs(), n, j);
                assert(entry_at(old.procs(), n, j));
                old.lemma_proc_index(n, j);
                new.lemma_proc_index(n, j);
            }
            if old.has_proc(n) {
                let k = choose|k: int| entry_at(old.procs(), n, k);
                assert(entry_at(new.procs(), n, k));
            }
        }
    }

    proof fn lemma_procs_update_entries(old: &Self, new: &Self, i0: int, p: SupervisedProcess<H>)
        requires
            0 <= i0 < old.procs().len(),
            new.procs() == old.procs().update(i0, (old.procs()[i0].0, p)),
        ensures
            old.entries_ok() && p.wf() && p.cmd@.len() > 0 ==> new.entries_ok(),
    {
        if old.entries_ok() && p.wf() && p.cmd@.len() > 0 {
            assert forall|i: int| 0 <= i < new.procs().len() implies {
                &&& (#[trigger] new.procs()[i]).1.wf()
                &&& new.procs()[i].1.cmd@.len() > 0
            } by {
                if i != i0 {
                    assert(new.procs()[i] == old.procs()[i]);
                }
            }
        }
    }

    /// The index of the supervised process of `name`.
    fn find_proc(&self, name: &str) -> (r: Option<usize>)
        requires
            self.wf(),
        ensures
            r is None ==> !self.has_proc(name@),
            r is Some ==> {
                &&& entry_at(self.procs(), name@, r->0 as int)
                &&& self.has_proc(name@)
                &&& self.proc_of(name@) == self.procs()[r->0 as int].1
            },
    {
        let mut i: usize = 0;
        while i < self.processes.len()
            invariant
                i <= self.processes@.len(),
                self.wf(),
                forall|k: int| 0 <= k < i ==> !entry_at(self.procs(), name@, k),
            decreases self.processes@.len() - i,
        {
            if text_eq(self.processes[i].0.as_str(), name) {
                proof {
                    self.lemma_proc_index(name@, i as int);
                }
                return Some(i);
            }
            i = i + 1;
        }
        None
    }

    /// The index of the definition named `name`.
    fn find_spec(&self, name: &str) -> (r: Option<usize>)
        requires
            self.wf(),
        ensures
            r is None ==> !self.has_spec(name@),
            r is Some ==> {
                &&& r->0 < self.services@.len()
                &&& self.specs()[r->0 as int].name == name@
                &&& self.spec_of(name@) == self.specs()[r->0 as int]
            },
    {
        let mut i: usize = 0;
        while i < self.services.len()
            invariant
                i <= self.services@.len(),
                self.wf(),
                forall|k: int| 0 <= k < i ==> self.specs()[k].name != name@,
            decreases self.services@.len() - i,
        {
            if text_eq(self.services[i].name.as_str(), name) {
                assert(self.specs()[i as int] == self.services@[i as int]@);
                assert(self.specs()[i as int].name == name@);
                let ghost j = choose|j: int|
                    0 <= j < self.specs().len() && self.specs()[j].name == name@;
                assert(spec_names(self.specs())[i as int] == spec_names(self.specs())[j]);
                return Some(i);
            }
            i = i + 1;
        }
        None
    }

    /// Adds a definition: fails if its command is empty, or if its name is
    /// already registered.
    pub fn register(&mut self, spec: ServiceSpec) -> (r: Result<(), RegistryError>)
        requires
            old(self).wf(),
        ensures
            final(self).wf(),
            final(self).procs() == old(self).procs(),
            spec@.cmd.len() == 0 ==> {
                &&& r matches Err(RegistryError::EmptyCommand)
                &&& final(self).specs() == old(self).specs()
            },
            spec@.cmd.len() > 0 && old(self).has_spec(spec@.name) ==> {
                &&& r matches Err(RegistryError::AlreadyExists)
                &&& final(self).specs() == old(self).specs()
            },
            spec@.cmd.len() > 0 && !old(self).has_spec(spec@.name) ==> {
                &&& r is Ok
                &&& final(self).specs() == old(self).specs().push(spec@)
                &&& final(self).has_spec(spec@.name)
                &&& final(self).spec_of(spec@.name) == spec@
            },
    {
        if spec.cmd.len() == 0 {
            return Err(RegistryError::EmptyCommand);
        }
        match self.find_spec(spec.name.as_str()) {
            Some(_) => Err(RegistryError::AlreadyExists),
            None => {
                let ghost old_specs = self.specs();
                let ghost v = spec@;
                self.services.push(spec);
                assert(self.specs() =~= old_specs.push(v));
                assert forall|a: int, b: int|
                    0 <= a < b < spec_names(self.specs()).len() implies spec_names(self.specs())[a]
                    != spec_names(self.specs())[b] by {
                    if b == old_specs.len() && spec_names(self.specs())[a] == spec_names(
                        self.specs(),
                    )[b] {
                        assert(old_specs[a].name == v.name);
                    }
                    if b < old_specs.len() {
                        assert(spec_names(self.specs())[a] == spec_names(old_specs)[a]);
                        assert(spec_names(self.specs())[b] == spec_names(old_specs)[b]);
                    }
                }
                let ghost n = old_specs.len() as int;
                assert(self.specs()[n].name == v.name);
                let ghost k = choose|k: int|
                    0 <= k < self.specs().len() && self.specs()[k].name == v.name;
                assert(spec_names(self.specs())[k] == spec_names(self.specs())[n]);
                Ok(())
            },
        }
    }

    /// A copy of every registered definition, in order of registration.
    pub fn list(&self) -> (r: Vec<ServiceSpec>)
        ensures
            r@.map_values(|s: ServiceSpec| s@) == self.specs(),
    {
        let mut r: Vec<ServiceSpec> = Vec::new();
        let mut i: usize = 0;
        while i < self.services.len()
            invariant
                i <= self.services@.len(),
                r@.map_values(|s: ServiceSpec| s@) == self.specs().subrange(0, i as int),
            decreases self.services@.len() - i,
        {
            let ghost before = r@;
            r.push(self.services[i].duplicate());
            assert(r@.map_values(|s: ServiceSpec| s@) =~= before.map_values(|s: ServiceSpec| s@).push(
                self.services@[i as int]@,
            ));
            assert(self.specs().subrange(0, i + 1) =~= self.specs().subrange(0, i as int).push(
                self.specs()[i as int],
            ));
            i = i + 1;
        }
        assert(self.specs().subrange(0, i as int) =~= self.specs());
        r
    }

    /// The runtime state of `name`: an error when it has no supervised
    /// process. `now` is the current time in milliseconds.
    pub fn status(&self, name: &str, now: u64) -> (r: Result<StatusInfo, RegistryError>)
        requires
            self.wf(),
        ensures
            !self.has_proc(name@) ==> r matches Err(RegistryError::NotRunning),
            self.has_proc(name@) ==> (r matches Ok(info) && reports(
                info,
                name@,
                self.proc_of(name@),
                now,
            )),
    {
        match self.find_proc(name) {
            None => Err(RegistryError::NotRunning),
            Some(i) => {
                let p = &self.processes[i].1;
                let since = match p.last_start {
                    Some(t) => Some(
                        if t <= now {
                            (now - t) / 1000
                        } else {
                            0
                        },
                    ),
                    None => None,
                };
                Ok(
                    StatusInfo {
                        name: String::from_str(name),
                        running: p.is_running(),
                        restart_count: p.restart_count,
                        last_start_secs_ago: since,
                    },
                )
            },
        }
    }

    /// Decides what starting `name` takes: an error when no definition has
    /// that name or its command is empty, nothing when it already runs, else
    /// the argument vector to launch.
    pub fn begin_start(&self, name: &str) -> (r: Result<StartPlan, RegistryError>)
        requires
            self.wf(),
        ensures
            !self.has_spec(name@) <==> r matches Err(RegistryError::NotFound),
            self.has_spec(name@) && self.is_running(name@) <==> r matches Ok(StartPlan::AlreadyRunning),
            self.has_spec(name@) && !self.is_running(name@) && self.spec_of(name@).cmd.len() == 0
                <==> r matches Err(RegistryError::EmptyCommand),
            self.has_spec(name@) && !self.is_running(name@) && self.spec_of(name@).cmd.len() > 0
                <==> r matches Ok(StartPlan::Launch(_)),
            r matches Ok(StartPlan::Launch(argv)) ==> strings_view(argv@) == self.spec_of(name@).cmd,
    {
        let j = match self.find_spec(name) {
            None => {
                return Err(RegistryError::NotFound);
            },
            Some(j) => j,
        };
        match self.find_proc(name) {
            Some(i) => {
                if self.processes[i].1.is_running() {
                    return Ok(StartPlan::AlreadyRunning);
                }
            },
            None => {},
        }
        let spec = &self.services[j];
        if spec.cmd.len() == 0 {
            Err(RegistryError::EmptyCommand)
        } else {
            Ok(StartPlan::Launch(copy_strings(&spec.cmd)))
        }
    }

    /// Records that the process `child` was launched for `name` at time `now`:
    /// a fresh supervised process takes the name's slot.
    pub fn complete_start(&mut self, name: &str, child: H, now: u64)
        requires
            old(self).wf(),
            old(self).has_spec(name@),
            old(self).spec_of(name@).cmd.len() > 0,
            !old(self).is_running(name@),
        ensures
            final(self).wf(),
            final(self).specs() == old(self).specs(),
            final(self).has_proc(name@),
            freshly_started(final(self).proc_of(name@), old(self).spec_of(name@), child, now),
            Self::others_kept(old(self), final(self), name@),
    {
        let j = self.find_spec(name).unwrap();
        let cmd = copy_strings(&self.services[j].cmd);
        let mut sp = SupervisedProcess::new(cmd, self.services[j].restart);
        sp.record_spawn(child, now);
        let ghost before = *self;
        match self.find_proc(name) {
            Some(i) => {
                self.processes.remove(i);
                proof {
                    Self::lemma_procs_remove(&before, self, i as int);
                }
            },
            None => {},
        }
        let ghost mid = *self;
        assert(Self::others_kept(&before, &mid, name@));
        let entry = (String::from_str(name), sp);
        self.processes.push(entry);
        proof {
            Self::lemma_procs_push(&mid, self, entry);
            assert(self.specs() == before.specs());
            assert forall|n: Seq<char>| n != name@ implies {
                &&& #[trigger] self.has_proc(n) == before.has_proc(n)
                &&& before.has_proc(n) ==> self.proc_of(n) == before.proc_of(n)
            } by {
                assert(self.has_proc(n) == mid.has_proc(n));
                assert(mid.has_proc(n) == before.has_proc(n));
            }
            assert(Self::others_kept(&before, self, name@));
        }
    }

    /// The names of all supervised processes.
    pub fn supervised_names(&self) -> (r: Vec<String>)
        ensures
            r@.map_values(|s: String| s@) == self.proc_names(),
    {
        let mut r: Vec<String> = Vec::new();
        let mut i: usize = 0;
        while i < self.processes.len()
            invariant
                i <= self.processes@.len(),
                r@.map_values(|s: String| s@) == self.proc_names().subrange(0, i as int),
            decreases self.processes@.len() - i,
        {
            let ghost before = r@;
            r.push(self.processes[i].0.clone());
            assert(r@.map_values(|s: String| s@) =~= before.map_values(|s: String| s@).push(
                self.processes@[i as int].0@,
            ));
            assert(self.proc_names().subrange(0, i + 1) =~= self.proc_names().subrange(
                0,
                i as int,
            ).push(self.proc_names()[i as int]));
            i = i + 1;
        }
        assert(self.proc_names().subrange(0, i as int) =~= self.proc_names());
        r
    }

    /// One pass of the supervision loop over `name`, given the outcome of a
    /// non-blocking wait on its process. A service whose definition is gone
    /// is dropped; one whose process exited is restarted after a backoff or
    /// dropped, as its policy says; one left without a process, after a
    /// failed relaunch, is relaunched after a backoff.
    pub fn monitor_step(&mut self, name: &str, probe: Probe) -> (r: MonitorAction<H>)
        requires
            old(self).wf(),
        ensures
            final(self).wf(),
            final(self).specs() == old(self).specs(),
            Self::others_kept(old(self), final(self), name@),
            !old(self).has_proc(name@) ==> r is Nothing && final(self).procs() == old(self).procs(),
            old(self).has_proc(name@) && !old(self).has_spec(name@) ==> {
                &&& r == MonitorAction::Orphaned(old(self).proc_of(name@).child)
                &&& !final(self).has_proc(name@)
            },
            old(self).has_proc(name@) && old(self).has_spec(name@) ==> {
                let p = old(self).proc_of(name@);
                if !p.running() {
                    &&& r == MonitorAction::<H>::Restart(p.backoff)
                    &&& final(self).has_proc(name@)
                    &&& final(self).proc_of(name@) == p.backed_off()
                } else {
                    match probe {
                        Probe::Running => {
                            &&& r matches MonitorAction::CheckHealth(spec)
                            &&& spec@ == old(self).spec_of(name@)
                            &&& final(self).procs() == old(self).procs()
                        },
                        Probe::Failed => {
                            &&& r is Nothing
                            &&& final(self).procs() == old(self).procs()
                        },
                        Probe::Exited(status) => if restart_permitted(
                            p.restart_policy,
                            Some(status),
                        ) {
                            &&& r == MonitorAction::<H>::Restart(p.backoff)
                            &&& final(self).has_proc(name@)
                            &&& final(self).proc_of(name@) == p.released().backed_off()
                        } else {
                            &&& r == MonitorAction::<H>::Retired(status)
                            &&& !final(self).has_proc(name@)
                        },
                    }
                }
            },
    {
        let i = match self.find_proc(name) {
            None => {
                return MonitorAction::Nothing;
            },
            Some(i) => i,
        };
        let j = match self.find_spec(name) {
            None => {
                let child = self.stop(name);
                return MonitorAction::Orphaned(child);
            },
            Some(j) => j,
        };
        let ghost before = *self;
        let ghost p = self.procs()[i as int].1;
        if !self.processes[i].1.is_running() {
            let delay = self.processes[i].1.take_backoff();
            proof {
                Self::lemma_procs_update(&before, self, i as int, p.backed_off());
            }
            return MonitorAction::Restart(delay);
        }
        match probe {
            Probe::Running => MonitorAction::CheckHealth(self.services[j].duplicate()),
            Probe::Failed => MonitorAction::Nothing,
            Probe::Exited(status) => {
                if self.processes[i].1.should_restart(Some(status)) {
                    self.processes[i].1.poll_exit(Some(status));
                    let delay = self.processes[i].1.take_backoff();
                    proof {
                        assert(self.procs() =~= before.procs().update(
                            i as int,
                            (before.procs()[i as int].0, p.released().backed_off()),
                        ));
                        Self::lemma_procs_update(&before, self, i as int, p.released().backed_off());
                    }
                    MonitorAction::Restart(delay)
                } else {
                    self.stop(name);
                    MonitorAction::Retired(status)
                }
            },
        }
    }

    /// The process handle of `name`, if it runs, lent out for a non-blocking
    /// wait. Whatever is done through the borrow, the handle stays in its slot
    /// and nothing else changes.
    pub fn child_mut(&mut self, name: &str) -> (r: Option<&mut H>)
        requires
            old(self).wf(),
        ensures
            r is Some <==> old(self).is_running(name@),
            r is None ==> *final(self) == *old(self),
            r matches Some(c) ==> {
                &&& *c == old(self).proc_of(name@).child->0
                &&& final(self).specs() == old(self).specs()
                &&& exists|i: int|
                    entry_at(old(self).procs(), name@, i) && final(self).procs() == old(
                        self,
                    ).procs().update(
                        i,
                        (
                            old(self).procs()[i].0,
                            SupervisedProcess { child: Some(*final(c)), ..old(self).procs()[i].1 },
                        ),
                    )
            },
    {
        match self.find_proc(name) {
            None => None,
            Some(i) => {
                if !self.processes[i].1.is_running() {
                    return None;
                }
                let entry = &mut self.processes[i];
                match &mut entry.1.child {
                    Some(c) => Some(c),
                    None => None,
                }
            },
        }
    }

    /// The argument vector to relaunch `name` with: present when `name` is
    /// supervised and holds no process.
    pub fn restart_args(&self, name: &str) -> (r: Option<Vec<String>>)
        requires
            self.wf(),
        ensures
            r is Some <==> self.has_proc(name@) && !self.proc_of(name@).running(),
            r matches Some(argv) ==> argv@ == self.proc_of(name@).cmd@ && argv@.len() > 0,
    {
        match self.find_proc(name) {
            None => None,
            Some(i) => {
                if self.processes[i].1.is_running() {
                    None
                } else {
                    assert(self.procs()[i as int].1.cmd@.len() > 0);
                    match self.processes[i].1.launch_args() {
                        Ok(argv) => Some(argv),
                        Err(_) => None,
                    }
                }
            },
        }
    }

    /// Records that `name` was relaunched as `child` at time `now`.
    pub fn complete_restart(&mut self, name: &str, child: H, now: u64)
        requires
            old(self).wf(),
            old(self).has_proc(name@),
            !old(self).proc_of(name@).running(),
        ensures
            final(self).wf(),
            final(self).specs() == old(self).specs(),
            final(self).has_proc(name@),
            final(self).proc_of(name@) == old(self).proc_of(name@).spawned(child, now),
            Self::others_kept(old(self), final(self), name@),
    {
        let i = self.find_proc(name).unwrap();
        let ghost before = *self;
        let ghost p = self.procs()[i as int].1;
        self.processes[i].1.record_spawn(child, now);
        proof {
            Self::lemma_procs_update(&before, self, i as int, p.spawned(child, now));
        }
    }

    /// Removes the supervised process of `name`, if any, and hands back its
    /// process handle, if it runs, for the caller to terminate.
    pub fn stop(&mut self, name: &str) -> (r: Option<H>)
        requires
            old(self).wf(),
        ensures
            final(self).wf(),
            final(self).specs() == old(self).specs(),
            !final(self).has_proc(name@),
            r == if old(self).has_proc(name@) {
                old(self).proc_of(name@).child
            } else {
                None::<H>
            },
            Self::others_kept(old(self), final(self), name@),
            !old(self).has_proc(name@) ==> final(self).procs() == old(self).procs(),
    {
        match self.find_proc(name) {
            None => None,
            Some(i) => {
                let ghost before = *self;
                let (_, mut p) = self.processes.remove(i);
                proof {
                    Self::lemma_procs_remove(&before, self, i as int);
                }
                p.kill()
            },
        }
    }

    /// Stops `name`, as `stop` does, then removes its definition. Succeeds
    /// whether or not the name was registered.
    pub fn unregister(&mut self, name: &str) -> (r: Option<H>)
        requires
            old(self).wf(),
        ensures
            final(self).wf(),
            !final(self).has_spec(name@),
            !final(self).has_proc(name@),
            r == if old(self).has_proc(name@) {
                old(self).proc_of(name@).child
            } else {
                None::<H>
            },
            !old(self).has_proc(name@) ==> final(self).procs() == old(self).procs(),
            Self::others_kept(old(self), final(self), name@),
            !old(self).has_spec(name@) ==> final(self).specs() == old(self).specs(),
            forall|i: int|
                0 <= i < old(self).specs().len() && old(self).specs()[i].name == name@
                    ==> final(self).specs() == old(self).specs().remove(i),
    {
        let handle = self.stop(name);
        let ghost mid = *self;
        match self.find_spec(name) {
            None => {},
            Some(j) => {
                let ghost before = self.specs();
                self.services.remove(j);
                proof {
                    assert(self.specs() =~= before.remove(j as int));
                    assert forall|a: int, b: int|
                        0 <= a < b < spec_names(self.specs()).len() implies spec_names(
                        self.specs(),
                    )[a] != spec_names(self.specs())[b] by {
                        let oa = if a < j { a } else { a + 1 };
                        let ob = if b < j { b } else { b + 1 };
                        assert(spec_names(self.specs())[a] == spec_names(before)[oa]);
                        assert(spec_names(self.specs())[b] == spec_names(before)[ob]);
                    }
                    if self.has_spec(name@) {
                        let k = choose|k: int|
                            0 <= k < self.specs().len() && self.specs()[k].name == name@;
                        let ok = if k < j { k } else { k + 1 };
                        assert(spec_names(before)[ok] == spec_names(before)[j as int]);
                    }
                    assert forall|i: int|
                        0 <= i < before.len() && before[i].name == name@ implies self.specs()
                        == before.remove(i) by {
                        assert(spec_names(before)[i] == spec_names(before)[j as int]);
                    }
                }
            },
        }
        assert(self.procs() == mid.procs());
        assert forall|n: Seq<char>| n != name@ implies {
            &&& #[trigger] self.has_proc(n) == old(self).has_proc(n)
            &&& old(self).has_proc(n) ==> self.proc_of(n) == old(self).proc_of(n)
        } by {
            assert(mid.has_proc(n) == old(self).has_proc(n));
        }
        assert(Self::others_kept(old(self), self, name@));
        handle
    }
}

/// Registering a definition `s` under a name that is not registered yet, as
/// `register` does, makes it listed exactly once, and a second registration
/// of it fails, since its name is then taken.
pub proof fn lemma_register_lists_once<H>(before: Registry<H>, after: Registry<H>, s: ServiceSpecView)
    requires
        before.wf(),
        !before.has_spec(s.name),
        after.specs() == before.specs().push(s),
    ensures
        after.has_spec(s.name),
        occurs_once(after.specs(), s),
{
    let n = before.specs().len() as int;
    assert(after.specs()[n] == s);
    assert forall|j: int| 0 <= j < after.specs().len() && after.specs()[j] == s implies j == n by {
        if j < n {
            assert(before.specs()[j] == after.specs()[j]);
        }
    }
}

/// One automatic restart through the registry: `monitor_step` sees the
/// running process of `name` exit with `status`, which its policy answers
/// with a restart (`mid`), then `complete_restart` records the relaunch
/// (`after`). The service runs again, its restart count has grown by one,
/// the wait was `backoff_schedule(k)` seconds, at most thirty, and the next
/// wait is `backoff_schedule(k + 1)`.
pub proof fn lemma_registry_restart<H>(
    before: Registry<H>,
    mid: Registry<H>,
    after: Registry<H>,
    name: Seq<char>,
    status: ExitStatus,
    k: nat,
    child: H,
    now: u64,
)
    requires
        before.wf(),
        before.is_running(name),
        before.proc_of(name).restart_policy == RestartPolicy::Always || (before.proc_of(
            name,
        ).restart_policy == RestartPolicy::OnFailure && !status.is_success()),
        before.proc_of(name).backoff == backoff_schedule(k),
        before.proc_of(name).restart_count < u32::MAX,
        mid.has_proc(name),
        mid.proc_of(name) == before.proc_of(name).released().backed_off(),
        after.has_proc(name),
        after.proc_of(name) == mid.proc_of(name).spawned(child, now),
    ensures
        restart_permitted(before.proc_of(name).restart_policy, Some(status)),
        !mid.is_running(name),
        after.is_running(name),
        after.proc_of(name).restart_count == before.proc_of(name).restart_count + 1,
        before.proc_of(name).backoff <= MAX_BACKOFF_SECS,
        after.proc_of(name).backoff == backoff_schedule(k + 1),
{
    lemma_restart_cycle(before.proc_of(name), status, k, child, now);
}

/// A well-formed registry holds at most one supervised process, so at most
/// one process handle, under each name.
pub proof fn lemma_one_process_per_name<H>(r: Registry<H>, name: Seq<char>, i: int, j: int)
    requires
        r.wf(),
        entry_at(r.procs(), name, i),
        entry_at(r.procs(), name, j),
    ensures
        i == j,
{
    if i != j {
        assert(r.proc_names()[i] == r.proc_names()[j]);
    }
}

} // verus!
