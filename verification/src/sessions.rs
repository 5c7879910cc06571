//! The sessions that the broker runs: starting them, watching them and taking
//! them down.

use vstd::prelude::*;

use crate::command::{Invocation, InvocationView};
use crate::compositor::{payload_arguments, push_payload, WaitAction};
use crate::numbers::{decimal, push_decimal};
use crate::paths::{join_path, joined, value_or};
use crate::text::{
    chars_of, contains_text, debug_list, follows, lemma_cat, lemma_contains, lemma_nothing_cat,
    opt_text, quoted_list, same_text, texts,
};
use crate::units::UNIT_DIR;

verus! {

broadcast use crate::text::lemma_texts_push;

/// A child process of the broker, by the number that the broker keeps it under.
pub type ChildId = u64;

/// A session that runs.
pub enum ActiveSession {
    /// A pair of systemd units.
    Systemd { unit_name: String },
    /// A compositor that the broker started itself.
    DirectChild { child: ChildId },
    /// A payload in a scope unit of its own.
    Scoped { child: ChildId, unit_name: String },
}

/// An [`ActiveSession`] as plain text.
#[allow(inconsistent_fields)]
pub enum SessionView {
    Systemd { unit_name: Seq<char> },
    DirectChild { child: ChildId },
    Scoped { child: ChildId, unit_name: Seq<char> },
}

impl View for ActiveSession {
    type V = SessionView;

    open spec fn view(&self) -> SessionView {
        match *self {
            ActiveSession::Systemd { unit_name } => SessionView::Systemd { unit_name: unit_name@ },
            ActiveSession::DirectChild { child } => SessionView::DirectChild { child },
            ActiveSession::Scoped { child, unit_name } => SessionView::Scoped {
                child,
                unit_name: unit_name@,
            },
        }
    }
}

/// The sessions that run, by their ids.
pub struct SessionManager {
    active: Vec<(String, ActiveSession)>,
}

impl SessionManager {
    spec fn holds_at(self, id: Seq<char>, i: int) -> bool {
        0 <= i < self.active@.len() && self.active@[i].0@ == id
    }

    spec fn position(self, id: Seq<char>) -> int {
        choose|i: int| self.holds_at(id, i)
    }

    /// No id is held twice.
    pub closed spec fn wf(self) -> bool {
        forall|i: int, j: int|
            0 <= i < j < self.active@.len() ==> (#[trigger] self.active@[i]).0@ != (
            #[trigger] self.active@[j]).0@
    }
}

impl View for SessionManager {
    type V = Map<Seq<char>, SessionView>;

    closed spec fn view(&self) -> Map<Seq<char>, SessionView> {
        Map::new(
            |id: Seq<char>| exists|i: int| self.holds_at(id, i),
            |id: Seq<char>| self.active@[self.position(id)].1@,
        )
    }
}

/// What has to be asked to know whether a session is alive.
pub enum Peek {
    /// Whether this child still runs.
    Child(ChildId),
    /// Whether this service unit is active.
    Unit(String),
    /// Nothing: there is no such session.
    Unknown,
}

impl SessionManager {
    proof fn lemma_at(self, id: Seq<char>, i: int)
        requires
            self.wf(),
            self.holds_at(id, i),
        ensures
            self@.dom().contains(id),
            self@[id] == self.active@[i].1@,
    {
        let k = self.position(id);
        assert(self.holds_at(id, k));
        if k < i {
            assert(self.active@[k].0@ != self.active@[i].0@);
        } else if i < k {
            assert(self.active@[i].0@ != self.active@[k].0@);
        }
    }

    pub fn new() -> (m: SessionManager)
        ensures
            m.wf(),
            m@ == Map::<Seq<char>, SessionView>::empty(),
    {
        let m = SessionManager { active: Vec::new() };
        assert(m@ =~= Map::<Seq<char>, SessionView>::empty());
        m
    }

    fn find(&self, id: &str) -> (r: Option<usize>)
        requires
            self.wf(),
        ensures
            match r {
                Some(i) => self.holds_at(id@, i as int) && self@.dom().contains(id@) && self@[id@]
                    == self.active@[i as int].1@,
                None => !self@.dom().contains(id@),
            },
    {
        let mut i: usize = 0;
        while i < self.active.len()
            invariant
                self.wf(),
                i <= self.active@.len(),
                forall|j: int| 0 <= j < i ==> !self.holds_at(id@, j),
            decreases self.active@.len() - i,
        {
            if same_text(self.active[i].0.as_str(), id) {
                proof {
                    assert(self.holds_at(id@, i as int));
                    self.lemma_at(id@, i as int);
                }
                return Some(i);
            }
            i += 1;
        }
        None
    }

    /// Notes that a session runs. A session of the same id is forgotten.
    pub fn insert(&mut self, id: &str, session: ActiveSession)
        requires
            old(self).wf(),
        ensures
            final(self).wf(),
            final(self)@ == old(self)@.insert(id@, session@),
    {
        let ghost before = *self;
        match self.find(id) {
            Some(i) => {
                self.active.set(i, (id.to_string(), session));
                proof {
                    assert(self.active@ =~= before.active@.update(i as int, self.active@[i as int]));
                    assert forall|a: int, b: int| 0 <= a < b < self.active@.len() implies (
                    #[trigger] self.active@[a]).0@ != (#[trigger] self.active@[b]).0@ by {
                        assert(self.active@[a].0@ == before.active@[a].0@);
                        assert(self.active@[b].0@ == before.active@[b].0@);
                        assert(before.active@[a].0@ != before.active@[b].0@);
                    }
                    assert forall|x: Seq<char>, k: int| self.holds_at(x, k) == before.holds_at(
                        x,
                        k,
                    ) by {}
                    assert forall|x: Seq<char>| self@.dom().contains(x) == before@.insert(
                        id@,
                        session@,
                    ).dom().contains(x) by {
                        if before@.dom().contains(x) {
                            let k = choose|k: int| before.holds_at(x, k);
                            assert(self.holds_at(x, k));
                        }
                        if self@.dom().contains(x) {
                            let k = choose|k: int| self.holds_at(x, k);
                            assert(before.holds_at(x, k));
                        }
                    }
                    assert forall|x: Seq<char>| self@.dom().contains(x) implies self@[x]
                        == before@.insert(id@, session@)[x] by {
                        let k = choose|k: int| self.holds_at(x, k);
                        self.lemma_at(x, k);
                        assert(before.holds_at(x, k));
                        before.lemma_at(x, k);
                    }
                    assert(self@ =~= before@.insert(id@, session@));
                }
            },
            None => {
                self.active.push((id.to_string(), session));
                proof {
                    let n = before.active@.len() as int;
                    assert forall|a: int, b: int| 0 <= a < b < self.active@.len() implies (
                    #[trigger] self.active@[a]).0@ != (#[trigger] self.active@[b]).0@ by {
                        assert(self.active@[a] == before.active@[a]);
                        if b == n {
                            assert(!before.holds_at(id@, a));
                        } else {
                            assert(self.active@[b] == before.active@[b]);
                        }
                    }
                    assert(self.holds_at(id@, n));
                    assert forall|x: Seq<char>| self@.dom().contains(x) == before@.insert(
                        id@,
                        session@,
                    ).dom().contains(x) by {
                        if before@.dom().contains(x) {
                            let k = choose|k: int| before.holds_at(x, k);
                            assert(self.holds_at(x, k));
                        }
                        if self@.dom().contains(x) && x != id@ {
                            let k = choose|k: int| self.holds_at(x, k);
                            assert(before.holds_at(x, k));
                        }
                    }
                    assert forall|x: Seq<char>| self@.dom().contains(x) implies self@[x]
                        == before@.insert(id@, session@)[x] by {
                        let k = choose|k: int| self.holds_at(x, k);
                        self.lemma_at(x, k);
                        if k < n {
                            assert(before.holds_at(x, k));
                            before.lemma_at(x, k);
                        }
                    }
                    assert(self@ =~= before@.insert(id@, session@));
                }
            },
        }
    }

    /// Forgets a session, and hands it out.
    pub fn remove(&mut self, id: &str) -> (r: Option<ActiveSession>)
        requires
            old(self).wf(),
        ensures
            final(self).wf(),
            final(self)@ == old(self)@.remove(id@),
            match r {
                Some(s) => old(self)@.dom().contains(id@) && old(self)@[id@] == s@,
                None => !old(self)@.dom().contains(id@),
            },
    {
        let ghost before = *self;
        match self.find(id) {
            Some(i) => {
                let (_, session) = self.active.remove(i);
                proof {
                    let n = before.active@.len() as int;
                    assert(self.active@ == before.active@.remove(i as int));
                    assert forall|a: int, b: int| 0 <= a < b < self.active@.len() implies (
                    #[trigger] self.active@[a]).0@ != (#[trigger] self.active@[b]).0@ by {
                        let x = if a < i {
                            a
                        } else {
                            a + 1
                        };
                        let y = if b < i {
                            b
                        } else {
                            b + 1
                        };
                        assert(self.active@[a] == before.active@[x]);
                        assert(self.active@[b] == before.active@[y]);
                        assert(before.active@[x].0@ != before.active@[y].0@);
                    }
                    assert forall|x: Seq<char>| self@.dom().contains(x) == before@.remove(
                        id@,
                    ).dom().contains(x) by {
                        if before@.dom().contains(x) && x != id@ {
                            let k = choose|k: int| before.holds_at(x, k);
                            assert(k != i);
                            let k2 = if k < i {
                                k
                            } else {
                                k - 1
                            };
                            assert(self.active@[k2] == before.active@[k]);
                            assert(self.holds_at(x, k2));
                        }
                        if self@.dom().contains(x) {
                            let k = choose|k: int| self.holds_at(x, k);
                            let k2 = if k < i {
                                k
                            } else {
                                k + 1
                            };
                            assert(self.active@[k] == before.active@[k2]);
                            assert(before.holds_at(x, k2));
                            if x == id@ {
                                if k2 < i {
                                    assert(before.active@[k2].0@ != before.active@[i as int].0@);
                                } else {
                                    assert(before.active@[i as int].0@ != before.active@[k2].0@);
                                }
                            }
                        }
                    }
                    assert forall|x: Seq<char>| self@.dom().contains(x) implies self@[x]
                        == before@.remove(id@)[x] by {
                        let k = choose|k: int| self.holds_at(x, k);
                        self.lemma_at(x, k);
                        let k2 = if k < i {
                            k
                        } else {
                            k + 1
                        };
                        assert(self.active@[k] == before.active@[k2]);
                        assert(before.holds_at(x, k2));
                        before.lemma_at(x, k2);
                    }
                    assert(self@ =~= before@.remove(id@));
                }
                Some(session)
            },
            None => {
                assert(self@ =~= before@.remove(id@));
                None
            },
        }
    }

    /// What has to be asked to know whether a session is alive.
    pub fn peek(&self, id: &str) -> (r: Peek)
        requires
            self.wf(),
        ensures
            match r {
                Peek::Unknown => !self@.dom().contains(id@),
                Peek::Child(c) => self@.dom().contains(id@) && match self@[id@] {
                    SessionView::DirectChild { child } => c == child,
                    SessionView::Scoped { child, .. } => c == child,
                    _ => false,
                },
                Peek::Unit(u) => self@.dom().contains(id@) && match self@[id@] {
                    SessionView::Systemd { unit_name } => u@ == unit_name,
                    _ => false,
                },
            },
    {
        match self.find(id) {
            None => Peek::Unknown,
            Some(i) => match &self.active[i].1 {
                ActiveSession::DirectChild { child } => Peek::Child(*child),
                ActiveSession::Scoped { child, .. } => Peek::Child(*child),
                ActiveSession::Systemd { unit_name } => Peek::Unit(unit_name.clone()),
            },
        }
    }

    /// Takes the answer to a [`Peek`], and says whether the session is alive. One
    /// that is not is forgotten; what its units leave behind is the second
    /// result.
    pub fn is_session_alive(&mut self, id: &str, peek: Peek, running: bool) -> (r: (
        bool,
        Vec<Teardown>,
    ))
        requires
            old(self).wf(),
        ensures
            final(self).wf(),
            r.0 == (running && !(peek is Unknown)),
            final(self)@ == if r.0 || peek is Unknown {
                old(self)@
            } else {
                old(self)@.remove(id@)
            },
            teardown_view(r.1@) == match peek {
                Peek::Unit(u) => if running {
                    seq![]
                } else {
                    dead_unit_teardown(u@)
                },
                _ => seq![],
            },
    {
        let none: Vec<Teardown> = Vec::new();
        assert(teardown_view(none@) =~= seq![]);
        match peek {
            Peek::Unknown => (false, none),
            Peek::Child(_) => {
                if !running {
                    let _ = self.remove(id);
                }
                (running, none)
            },
            Peek::Unit(unit_name) => {
                if running {
                    (true, none)
                } else {
                    let _ = self.remove(id);
                    let mut steps: Vec<Teardown> = Vec::new();
                    assert(teardown_view(steps@) =~= seq![]);
                    let u = unit_name.as_str();
                    push_teardown(&mut steps, stop_unit(u, ".socket", false));
                    push_teardown(&mut steps, Teardown::RemoveFile { path: unit_path(u, ".socket") });
                    push_teardown(&mut steps, Teardown::RemoveFile { path: unit_path(u, ".service") });
                    push_teardown(&mut steps, daemon_reload(false));
                    (false, steps)
                }
            },
        }
    }

    /// Forgets a session that is to end, and says how to end it; an id that no
    /// session has is an error.
    pub fn terminate(&mut self, id: &str) -> (r: Result<Ending, String>)
        requires
            old(self).wf(),
        ensures
            final(self).wf(),
            final(self)@ == old(self)@.remove(id@),
            match r {
                Err(m) => !old(self)@.dom().contains(id@) && m@ == "no active session "@ + id@,
                Ok(ending) => old(self)@.dom().contains(id@) && ends(ending, old(self)@[id@]),
            },
    {
        let gone = self.remove(id);
        match gone {
            None => {
                let mut m = "no active session ".to_string();
                m.append(id);
                Err(m)
            },
            Some(ActiveSession::DirectChild { child }) => {
                assert(ends(Ending::KillChild(child), old(self)@[id@]));
                Ok(Ending::KillChild(child))
            },
            Some(ActiveSession::Scoped { child, unit_name }) => {
                let ending = Ending::KillScope { child, unit_name };
                assert(ends(ending, old(self)@[id@]));
                Ok(ending)
            },
            Some(ActiveSession::Systemd { unit_name }) => {
                let u = unit_name.as_str();
                let mut steps: Vec<Teardown> = Vec::new();
                assert(teardown_view(steps@) =~= seq![]);
                push_teardown(&mut steps, stop_unit(u, ".socket", true));
                push_teardown(&mut steps, stop_unit(u, ".service", true));
                push_teardown(&mut steps, Teardown::RemoveFile { path: unit_path(u, ".socket") });
                push_teardown(&mut steps, Teardown::RemoveFile { path: unit_path(u, ".service") });
                push_teardown(&mut steps, daemon_reload(true));
                assert(teardown_view(steps@) =~= unit_teardown(unit_name@));
                Ok(Ending::StopUnits(steps))
            },
        }
    }
}

/// One step of taking units down.
pub enum Teardown {
    /// Run `systemctl` with these arguments. Where it `must` work and does not,
    /// stop with its error.
    Systemctl { args: Vec<String>, must: bool },
    /// Remove the file if it is there.
    RemoveFile { path: String },
}

/// A [`Teardown`] as plain text.
#[verifier::ext_equal]
pub enum TeardownView {
    Systemctl { args: Seq<Seq<char>>, must: bool },
    RemoveFile { path: Seq<char> },
}

impl View for Teardown {
    type V = TeardownView;

    open spec fn view(&self) -> TeardownView {
        match *self {
            Teardown::Systemctl { args, must } => TeardownView::Systemctl {
                args: texts(args@),
                must,
            },
            Teardown::RemoveFile { path } => TeardownView::RemoveFile { path: path@ },
        }
    }
}

/// What each step says.
pub open spec fn teardown_view(steps: Seq<Teardown>) -> Seq<TeardownView> {
    steps.map_values(|s: Teardown| s@)
}

/// The file of a unit.
pub open spec fn unit_file(unit_name: Seq<char>, suffix: Seq<char>) -> Seq<char> {
    joined(UNIT_DIR@, unit_name + suffix)
}

/// What takes down the units of a session whose service has died: none of it has
/// to work.
pub open spec fn dead_unit_teardown(unit_name: Seq<char>) -> Seq<TeardownView> {
    seq![
        TeardownView::Systemctl { args: seq!["stop"@, unit_name + ".socket"@], must: false },
        TeardownView::RemoveFile { path: unit_file(unit_name, ".socket"@) },
        TeardownView::RemoveFile { path: unit_file(unit_name, ".service"@) },
        TeardownView::Systemctl { args: seq!["daemon-reload"@], must: false },
    ]
}

/// What takes down the units of a session that is to end. The socket goes
/// first, so that nothing can start the service again.
pub open spec fn unit_teardown(unit_name: Seq<char>) -> Seq<TeardownView> {
    seq![
        TeardownView::Systemctl { args: seq!["stop"@, unit_name + ".socket"@], must: true },
        TeardownView::Systemctl { args: seq!["stop"@, unit_name + ".service"@], must: true },
        TeardownView::RemoveFile { path: unit_file(unit_name, ".socket"@) },
        TeardownView::RemoveFile { path: unit_file(unit_name, ".service"@) },
        TeardownView::Systemctl { args: seq!["daemon-reload"@], must: true },
    ]
}

fn push_teardown(steps: &mut Vec<Teardown>, step: Teardown)
    ensures
        teardown_view(final(steps)@) == teardown_view(old(steps)@).push(step@),
{
    steps.push(step);
    assert(teardown_view(steps@) =~= teardown_view(old(steps)@).push(step@));
}

fn stop_unit(unit_name: &str, suffix: &str, must: bool) -> (step: Teardown)
    ensures
        step@ == (TeardownView::Systemctl { args: seq!["stop"@, unit_name@ + suffix@], must }),
{
    let mut args: Vec<String> = Vec::new();
    args.push("stop".to_string());
    let mut unit = unit_name.to_string();
    unit.append(suffix);
    args.push(unit);
    assert(texts(args@) =~= seq!["stop"@, unit_name@ + suffix@]);
    Teardown::Systemctl { args, must }
}

fn daemon_reload(must: bool) -> (step: Teardown)
    ensures
        step@ == (TeardownView::Systemctl { args: seq!["daemon-reload"@], must }),
{
    let mut args: Vec<String> = Vec::new();
    args.push("daemon-reload".to_string());
    assert(texts(args@) =~= seq!["daemon-reload"@]);
    Teardown::Systemctl { args, must }
}

fn unit_path(unit_name: &str, suffix: &str) -> (path: String)
    ensures
        path@ == unit_file(unit_name@, suffix@),
{
    let mut name = unit_name.to_string();
    name.append(suffix);
    join_path(UNIT_DIR, name.as_str())
}

/// How a session is ended.
pub enum Ending {
    /// Kill the child.
    KillChild(ChildId),
    /// Run the command that [`scope_kill`] gives, and wait for the child for up
    /// to [`CHILD_WAIT_MS`].
    KillScope { child: ChildId, unit_name: String },
    /// Take the units down.
    StopUnits(Vec<Teardown>),
}

/// How long a killed payload is waited for, in milliseconds.
pub const CHILD_WAIT_MS: u64 = 10_000;

/// Whether an ending is the one for a session.
pub open spec fn ends(ending: Ending, session: SessionView) -> bool {
    match (ending, session) {
        (Ending::KillChild(c), SessionView::DirectChild { child }) => c == child,
        (Ending::KillScope { child: c, unit_name: u }, SessionView::Scoped { child, unit_name }) => {
            c == child && u@ == unit_name
        },
        (Ending::StopUnits(steps), SessionView::Systemd { unit_name }) => teardown_view(steps@)
            == unit_teardown(unit_name),
        _ => false,
    }
}

/// What kills everything in a payload's scope: by the logind session that its
/// process has moved to, where it has, and by its unit otherwise.
pub fn scope_kill(unit_name: &str, logind_session: Option<&str>) -> (command: Invocation)
    ensures
        command@ == match logind_session {
            Some(id) => InvocationView::plain(
                "loginctl"@,
                seq!["kill-session"@, id@, "--signal=SIGKILL"@, "--kill-whom=all"@],
            ),
            None => InvocationView::plain(
                "systemctl"@,
                seq!["kill"@, "--kill-who=all"@, "--signal=SIGKILL"@, unit_name@ + ".scope"@],
            ),
        },
{
    match logind_session {
        Some(id) => {
            let mut command = Invocation::new("loginctl");
            command.arg("kill-session");
            command.arg(id);
            command.arg("--signal=SIGKILL");
            command.arg("--kill-whom=all");
            command
        },
        None => {
            let mut unit = unit_name.to_string();
            unit.append(".scope");
            let mut command = Invocation::new("systemctl");
            command.arg("kill");
            command.arg("--kill-who=all");
            command.arg("--signal=SIGKILL");
            command.arg(unit.as_str());
            command
        },
    }
}

/// What asks whether a session's service is active.
pub fn unit_is_active(unit_name: &str) -> (args: Vec<String>)
    ensures
        texts(args@) == seq!["is-active"@, "--quiet"@, unit_name@ + ".service"@],
{
    let mut args: Vec<String> = Vec::new();
    args.push("is-active".to_string());
    args.push("--quiet".to_string());
    let mut unit = unit_name.to_string();
    unit.append(".service");
    args.push(unit);
    assert(texts(args@) =~= seq!["is-active"@, "--quiet"@, unit_name@ + ".service"@]);
    args
}

/// What running a helper program came to.
pub enum Ran {
    /// It could not be run, for this reason.
    NotRun(String),
    /// It failed, and said this.
    Failed(String),
    Worked,
}

/// The result of `systemctl` or `loginctl`, with the error that is reported.
pub open spec fn helper_error(
    program: Seq<char>,
    args: Seq<Seq<char>>,
    ran: Ran,
) -> Option<Seq<char>> {
    match ran {
        Ran::NotRun(e) => Some("failed to run "@ + program + " "@ + debug_list(args) + ": "@ + e@),
        Ran::Failed(said) => Some(program + " "@ + debug_list(args) + " failed: "@ + said@),
        Ran::Worked => None,
    }
}

fn helper_result(program: &str, args: &Vec<String>, ran: Ran) -> (r: Result<(), String>)
    ensures
        match r {
            Ok(_) => helper_error(program@, texts(args@), ran) is None,
            Err(m) => helper_error(program@, texts(args@), ran) == Some(m@),
        },
{
    match ran {
        Ran::NotRun(e) => {
            let mut m = "failed to run ".to_string();
            m.append(program);
            m.append(" ");
            m.append(quoted_list(args).as_str());
            m.append(": ");
            m.append(e.as_str());
            Err(m)
        },
        Ran::Failed(said) => {
            let mut m = program.to_string();
            m.append(" ");
            m.append(quoted_list(args).as_str());
            m.append(" failed: ");
            m.append(said.as_str());
            Err(m)
        },
        Ran::Worked => Ok(()),
    }
}

/// The result of `systemctl` with those arguments.
pub fn run_systemctl(args: &Vec<String>, ran: Ran) -> (r: Result<(), String>)
    ensures
        match r {
            Ok(_) => helper_error("systemctl"@, texts(args@), ran) is None,
            Err(m) => helper_error("systemctl"@, texts(args@), ran) == Some(m@),
        },
{
    helper_result("systemctl", args, ran)
}

/// The result of `loginctl` with those arguments.
pub fn run_loginctl(args: &Vec<String>, ran: Ran) -> (r: Result<(), String>)
    ensures
        match r {
            Ok(_) => helper_error("loginctl"@, texts(args@), ran) is None,
            Err(m) => helper_error("loginctl"@, texts(args@), ran) == Some(m@),
        },
{
    helper_result("loginctl", args, ran)
}

/// The socket of the PulseAudio server, which belongs to the runtime directory
/// itself and never to a session's.
pub fn pulse_socket_path(runtime_dir: &str) -> (path: String)
    ensures
        path@ == runtime_dir@ + "/pulse/native"@,
{
    let mut path = runtime_dir.to_string();
    path.append("/pulse/native");
    path
}

/// The user that the server runs as, where `REDFOG_SERVER_USER` names one.
pub fn redfog_server_user(value: Option<String>) -> (user: Option<String>)
    ensures
        opt_text(user) == match value {
            Some(v) => if v@.len() == 0 {
                None
            } else {
                Some(v@)
            },
            None => None,
        },
{
    match value {
        Some(v) => {
            if chars_of(v.as_str()).len() == 0 {
                None
            } else {
                Some(v)
            }
        },
        None => None,
    }
}

/// Where the program that becomes a session's user is: at the path that
/// `REDFOG_SESSION_INIT_PATH` gives, or beside the broker. `exe_dir` is the
/// directory of the broker's own program, or why there is none.
pub fn session_init_path(
    configured: Option<String>,
    exe_dir: Result<String, String>,
) -> (r: Result<String, String>)
    ensures
        match configured {
            Some(p) => r == Ok::<String, String>(p),
            None => match exe_dir {
                Ok(dir) => r matches Ok(p) && p@ == joined(dir@, "redfog-session-init"@),
                Err(e) => r == Err::<String, String>(e),
            },
        },
{
    match configured {
        Some(p) => Ok(p),
        None => match exe_dir {
            Ok(dir) => Ok(join_path(dir.as_str(), "redfog-session-init")),
            Err(e) => Err(e),
        },
    }
}

impl SessionManager {
    /// Whom a session is spawned as: nobody in particular where the broker is told
    /// to fake it, the forced user where there is one, and the user otherwise.
    pub fn spawn(fake: bool, forced: Option<String>, username: &str) -> (r: Option<String>)
        ensures
            opt_text(r) == if fake {
                None
            } else {
                match forced {
                    Some(f) => Some(f@),
                    None => Some(username@),
                }
            },
    {
        if fake {
            None
        } else {
            Some(value_or(forced, username))
        }
    }
}

/// What a session is called, and where it lives.
pub struct SessionPaths {
    pub unit_name: String,
    pub runtime_dir: String,
    pub wayland_socket_path: String,
    pub pipewire_socket_path: String,
    pub pulse_socket_path: String,
}

impl SessionPaths {
    pub open spec fn are_for(
        self,
        root: Seq<char>,
        session_id: Seq<char>,
        socket_name: Seq<char>,
    ) -> bool {
        &&& self.unit_name@ == "redfog-session-"@ + session_id
        &&& self.runtime_dir@ == root + "/session-"@ + session_id
        &&& self.wayland_socket_path@ == self.runtime_dir@ + "/"@ + socket_name
        &&& self.pipewire_socket_path@ == root + "/pipewire-0"@
        &&& self.pulse_socket_path@ == root + "/pulse/native"@
    }
}

/// What a session is called, and where it lives below the runtime directory.
pub fn session_paths(root: &str, session_id: &str, socket_name: &str) -> (p: SessionPaths)
    ensures
        p.are_for(root@, session_id@, socket_name@),
{
    let mut unit_name = "redfog-session-".to_string();
    unit_name.append(session_id);
    let mut runtime_dir = root.to_string();
    runtime_dir.append("/session-");
    runtime_dir.append(session_id);
    let mut wayland_socket_path = runtime_dir.clone();
    wayland_socket_path.append("/");
    wayland_socket_path.append(socket_name);
    let mut pipewire_socket_path = root.to_string();
    pipewire_socket_path.append("/pipewire-0");
    SessionPaths {
        unit_name,
        runtime_dir,
        wayland_socket_path,
        pipewire_socket_path,
        pulse_socket_path: pulse_socket_path(root),
    }
}

/// The compositor that is started without systemd, as the broker's own user.
pub open spec fn fake_command(
    kwin_path: Seq<char>,
    runtime_dir: Seq<char>,
    pipewire_socket_path: Seq<char>,
    pulse_socket_path: Seq<char>,
    width: u32,
    height: u32,
    socket_name: Seq<char>,
    payload: Seq<Seq<char>>,
) -> InvocationView {
    InvocationView {
        program: kwin_path,
        args: seq![
            "--virtual"@,
            "--width"@,
            decimal(width as nat),
            "--height"@,
            decimal(height as nat),
            "--scale"@,
            "1"@,
            "--no-lockscreen"@,
            "--socket"@,
            socket_name,
            "--xwayland"@,
        ] + payload_arguments(payload),
        clear_env: false,
        env: seq![
            ("KWIN_PLATFORM"@, "virtual"@),
            ("KWIN_WAYLAND_NO_PERMISSION_CHECKS"@, "1"@),
            ("XDG_RUNTIME_DIR"@, runtime_dir),
            ("PIPEWIRE_REMOTE"@, pipewire_socket_path),
            ("PULSE_SERVER"@, "unix:"@ + pulse_socket_path),
            ("LIBGL_ALWAYS_SOFTWARE"@, "1"@),
        ],
        unset: seq![],
    }
}

/// The compositor that is started without systemd, as the broker's own user.
pub fn spawn_fake(
    kwin_path: Option<String>,
    paths: &SessionPaths,
    width: u32,
    height: u32,
    socket_name: &str,
    payload: &Vec<String>,
) -> (command: Invocation)
    ensures
        command@ == fake_command(
            match kwin_path {
                Some(p) => p@,
                None => "kwin_wayland"@,
            },
            paths.runtime_dir@,
            paths.pipewire_socket_path@,
            paths.pulse_socket_path@,
            width,
            height,
            socket_name@,
            texts(payload@),
        ),
{
    let program = value_or(kwin_path, "kwin_wayland");
    let mut server = "unix:".to_string();
    server.append(paths.pulse_socket_path.as_str());
    let mut width_text = String::new();
    push_decimal(&mut width_text, width as u64);
    assert(width_text@ =~= decimal(width as nat));
    let mut height_text = String::new();
    push_decimal(&mut height_text, height as u64);
    assert(height_text@ =~= decimal(height as nat));
    let mut command = Invocation::new(program.as_str());
    command.env("KWIN_PLATFORM", "virtual");
    command.env("KWIN_WAYLAND_NO_PERMISSION_CHECKS", "1");
    command.env("XDG_RUNTIME_DIR", paths.runtime_dir.as_str());
    command.env("PIPEWIRE_REMOTE", paths.pipewire_socket_path.as_str());
    command.env("PULSE_SERVER", server.as_str());
    command.env("LIBGL_ALWAYS_SOFTWARE", "1");
    command.arg("--virtual");
    command.arg("--width");
    command.arg(width_text.as_str());
    command.arg("--height");
    command.arg(height_text.as_str());
    command.arg("--scale");
    command.arg("1");
    command.arg("--no-lockscreen");
    command.arg("--socket");
    command.arg(socket_name);
    command.arg("--xwayland");
    push_payload(&mut command, payload);
    command
}

/// How long a compositor without systemd may take, in nanoseconds.
pub const FAKE_SPAWN_TIMEOUT_NS: u64 = 15_000_000_000;

/// What to do while such a compositor comes up: the socket is looked at first,
/// and only then the clock.
pub fn fake_spawn_wait(found: bool, elapsed_ns: u64) -> (r: WaitAction)
    ensures
        r == if found {
            WaitAction::Attach
        } else if elapsed_ns > FAKE_SPAWN_TIMEOUT_NS {
            WaitAction::GiveUp
        } else {
            WaitAction::Sleep(250)
        },
{
    if found {
        WaitAction::Attach
    } else if elapsed_ns > FAKE_SPAWN_TIMEOUT_NS {
        WaitAction::GiveUp
    } else {
        WaitAction::Sleep(250)
    }
}

/// What is reported when the socket of such a compositor does not appear.
pub fn fake_socket_missing(wayland_socket_path: &str) -> (message: String)
    ensures
        message@ == "KWin Wayland socket "@ + wayland_socket_path@ + " failed to appear"@,
{
    let mut message = "KWin Wayland socket ".to_string();
    message.append(wayland_socket_path);
    message.append(" failed to appear");
    message
}

/// A session that is started is the one that is known by its id; once it was
/// terminated none is, so that terminating it again is an error; and no other
/// session is touched by either.
pub proof fn law_sessions_come_and_go(
    sessions: Map<Seq<char>, SessionView>,
    id: Seq<char>,
    session: SessionView,
    other: Seq<char>,
)
    requires
        other != id,
    ensures
        sessions.insert(id, session).dom().contains(id),
        sessions.insert(id, session)[id] == session,
        !sessions.insert(id, session).remove(id).dom().contains(id),
        sessions.insert(id, session).remove(id).dom().contains(other) == sessions.dom().contains(
            other,
        ),
        sessions.dom().contains(other) ==> sessions.insert(id, session).remove(id)[other]
            == sessions[other],
{
}

/// The sockets of PipeWire and PulseAudio are the same for every session.
pub proof fn law_sound_is_shared_by_all_sessions(
    a: SessionPaths,
    b: SessionPaths,
    root: Seq<char>,
    a_id: Seq<char>,
    b_id: Seq<char>,
    a_socket: Seq<char>,
    b_socket: Seq<char>,
)
    requires
        a.are_for(root, a_id, a_socket),
        b.are_for(root, b_id, b_socket),
    ensures
        a.pipewire_socket_path@ == b.pipewire_socket_path@,
        a.pulse_socket_path@ == b.pulse_socket_path@,
{
}

/// Ending a session's units stops the socket before the service, and both before
/// either's file is removed; all of it has to work. Where the service has died, the
/// socket is stopped before the files are removed, and nothing has to work. The
/// units are those of the session's own name.
pub proof fn law_units_are_stopped_before_their_files_go(unit: Seq<char>)
    requires
        unit.len() == 0 || unit[0] != '/',
    ensures
        ({
            let all = unit_teardown(unit);
            &&& all.len() == 5
            &&& all[0] == (TeardownView::Systemctl {
                args: seq!["stop"@, unit + ".socket"@],
                must: true,
            })
            &&& all[1] == (TeardownView::Systemctl {
                args: seq!["stop"@, unit + ".service"@],
                must: true,
            })
            &&& all.skip(2).contains(
                TeardownView::RemoveFile { path: "/run/systemd/system/"@ + unit + ".socket"@ },
            )
            &&& all.skip(2).contains(
                TeardownView::RemoveFile { path: "/run/systemd/system/"@ + unit + ".service"@ },
            )
            &&& all.last() == (TeardownView::Systemctl {
                args: seq!["daemon-reload"@],
                must: true,
            })
        }),
        ({
            let all = dead_unit_teardown(unit);
            &&& all.len() == 4
            &&& all[0] == (TeardownView::Systemctl {
                args: seq!["stop"@, unit + ".socket"@],
                must: false,
            })
            &&& all.skip(1).contains(
                TeardownView::RemoveFile { path: "/run/systemd/system/"@ + unit + ".socket"@ },
            )
            &&& all.skip(1).contains(
                TeardownView::RemoveFile { path: "/run/systemd/system/"@ + unit + ".service"@ },
            )
            &&& all.last() == (TeardownView::Systemctl {
                args: seq!["daemon-reload"@],
                must: false,
            })
        }),
{
    reveal_strlit("/run/systemd/system");
    reveal_strlit("/run/systemd/system/");
    reveal_strlit("/");
    reveal_strlit(".socket");
    reveal_strlit(".service");
    assert("/run/systemd/system"@ + "/"@ =~= "/run/systemd/system/"@);
    assert((unit + ".socket"@)[0] != '/');
    assert((unit + ".service"@)[0] != '/');
    lemma_cat("/run/systemd/system/"@, unit, ".socket"@);
    lemma_cat("/run/systemd/system/"@, unit, ".service"@);
    let all = unit_teardown(unit);
    assert(all.skip(2)[0] == all[2]);
    assert(all.skip(2)[1] == all[3]);
    let dead = dead_unit_teardown(unit);
    assert(dead.skip(1)[0] == dead[1]);
    assert(dead.skip(1)[1] == dead[2]);
}

/// Sessions of different names have different units, different directories and,
/// for sockets of one name, different sockets; a session's socket is in its own
/// directory, and that is below the root of all sessions.
pub proof fn law_sessions_are_kept_apart(
    a: SessionPaths,
    b: SessionPaths,
    root: Seq<char>,
    a_id: Seq<char>,
    b_id: Seq<char>,
    socket_name: Seq<char>,
)
    requires
        a.are_for(root, a_id, socket_name),
        b.are_for(root, b_id, socket_name),
    ensures
        a_id != b_id ==> a.unit_name@ != b.unit_name@,
        a_id != b_id ==> a.runtime_dir@ != b.runtime_dir@,
        a_id != b_id ==> a.wayland_socket_path@ != b.wayland_socket_path@,
        a.runtime_dir@.len() > root.len() && a.runtime_dir@.take(root.len() as int) == root
            && a.runtime_dir@[root.len() as int] == '/',
        a.wayland_socket_path@.len() == a.runtime_dir@.len() + 1 + socket_name.len(),
        a.wayland_socket_path@.take(a.runtime_dir@.len() as int) == a.runtime_dir@,
        a.wayland_socket_path@.skip(a.runtime_dir@.len() as int + 1) == socket_name,
        a.pipewire_socket_path@.take(root.len() as int) == root,
        a.pulse_socket_path@.take(root.len() as int) == root,
{
    reveal_strlit("redfog-session-");
    reveal_strlit("/session-");
    reveal_strlit("/");
    let unit = "redfog-session-"@;
    let dir = root + "/session-"@;
    assert(a.unit_name@.skip(unit.len() as int) =~= a_id);
    assert(b.unit_name@.skip(unit.len() as int) =~= b_id);
    assert(a.runtime_dir@.skip(dir.len() as int) =~= a_id);
    assert(b.runtime_dir@.skip(dir.len() as int) =~= b_id);
    assert(a.runtime_dir@.take(root.len() as int) =~= root);
    assert(a.wayland_socket_path@.take(a.runtime_dir@.len() as int) =~= a.runtime_dir@);
    assert(b.wayland_socket_path@.take(b.runtime_dir@.len() as int) =~= b.runtime_dir@);
    assert(a.wayland_socket_path@.skip(a.runtime_dir@.len() as int + 1) =~= socket_name);
    assert(a.pipewire_socket_path@.take(root.len() as int) =~= root);
    assert(a.pulse_socket_path@.take(root.len() as int) =~= root);
}

/// A compositor that is started without systemd has the wanted width behind
/// `--width`, the wanted height behind `--height` and the session's socket behind
/// `--socket`, runs in the session's directory and with the shared sockets, and ends
/// with its payload.
pub proof fn law_unsupervised_compositors_are_the_ones_asked_for(
    kwin_path: Seq<char>,
    runtime_dir: Seq<char>,
    pipewire_socket_path: Seq<char>,
    pulse_socket_path: Seq<char>,
    width: u32,
    height: u32,
    socket_name: Seq<char>,
    payload: Seq<Seq<char>>,
)
    ensures
        ({
            let c = fake_command(
                kwin_path,
                runtime_dir,
                pipewire_socket_path,
                pulse_socket_path,
                width,
                height,
                socket_name,
                payload,
            );
            &&& c.program == kwin_path && !c.clear_env && c.unset.len() == 0
            &&& follows(c.args, "--width"@, decimal(width as nat))
            &&& follows(c.args, "--height"@, decimal(height as nat))
            &&& follows(c.args, "--socket"@, socket_name)
            &&& c.args.skip(11) == payload_arguments(payload)
            &&& c.env.contains(("XDG_RUNTIME_DIR"@, runtime_dir))
            &&& c.env.contains(("PIPEWIRE_REMOTE"@, pipewire_socket_path))
            &&& c.env.contains(("PULSE_SERVER"@, "unix:"@ + pulse_socket_path))
        }),
{
    let c = fake_command(
        kwin_path,
        runtime_dir,
        pipewire_socket_path,
        pulse_socket_path,
        width,
        height,
        socket_name,
        payload,
    );
    assert(c.args[1] == "--width"@ && c.args[2] == decimal(width as nat));
    assert(c.args[3] == "--height"@ && c.args[4] == decimal(height as nat));
    assert(c.args[8] == "--socket"@ && c.args[9] == socket_name);
    assert(c.args.skip(11) =~= payload_arguments(payload));
    assert(c.env[2] == ("XDG_RUNTIME_DIR"@, runtime_dir));
    assert(c.env[3] == ("PIPEWIRE_REMOTE"@, pipewire_socket_path));
    assert(c.env[4] == ("PULSE_SERVER"@, "unix:"@ + pulse_socket_path));
}

/// A helper program is reported exactly where it did not work, by its name, and
/// with what it said or with why it could not be run.
pub proof fn law_failed_helpers_are_reported(program: Seq<char>, args: Seq<Seq<char>>, ran: Ran)
    ensures
        helper_error(program, args, ran) is None <==> ran is Worked,
        helper_error(program, args, ran) matches Some(m) ==> contains_text(m, program + " "@),
        ran matches Ran::Failed(said) ==> ({
            let m = helper_error(program, args, ran)->Some_0;
            said@.len() <= m.len() && m.skip(m.len() - said@.len()) == said@
        }),
        ran matches Ran::NotRun(why) ==> ({
            let m = helper_error(program, args, ran)->Some_0;
            why@.len() <= m.len() && m.skip(m.len() - why@.len()) == why@
        }),
{
    match ran {
        Ran::NotRun(e) => {
            let m = "failed to run "@ + program + " "@ + debug_list(args) + ": "@ + e@;
            let rest = debug_list(args) + ": "@ + e@;
            assert(m == "failed to run "@ + ((program + " "@) + rest)) by {
                broadcast use lemma_cat;

            }
            lemma_contains(m, "failed to run "@, program + " "@, rest);
            assert(m.skip(m.len() - e@.len()) =~= e@);
        },
        Ran::Failed(said) => {
            let m = program + " "@ + debug_list(args) + " failed: "@ + said@;
            let rest = debug_list(args) + " failed: "@ + said@;
            assert(m == Seq::<char>::empty() + ((program + " "@) + rest)) by {
                broadcast use {lemma_cat, lemma_nothing_cat};

            }
            lemma_contains(m, seq![], program + " "@, rest);
            assert(m.skip(m.len() - said@.len()) =~= said@);
        },
        Ran::Worked => {},
    }
}

/// An ending is the one for a session exactly where it kills the session's own child,
/// kills the scope of the session's own unit and waits for its child, or takes down the
/// units of the session's own name.
pub proof fn law_endings_are_for_their_own_session(ending: Ending, session: SessionView)
    requires
        ends(ending, session),
    ensures
        session is DirectChild <==> ending is KillChild,
        session is Scoped <==> ending is KillScope,
        session is Systemd <==> ending is StopUnits,
        (session matches SessionView::DirectChild { child } ==> ending == Ending::KillChild(child)),
        (session matches SessionView::Scoped { child, unit_name } ==> (
        ending matches Ending::KillScope { child: c, unit_name: u } && c == child && u@
            == unit_name)),
        (session matches SessionView::Systemd { unit_name } ==> (
        ending matches Ending::StopUnits(steps) && teardown_view(steps@) == unit_teardown(
            unit_name,
        ))),
{
}

/// A killed payload is waited for ten seconds, and a compositor without systemd
/// fifteen.
pub proof fn law_sessions_are_waited_for()
    ensures
        CHILD_WAIT_MS == 10 * 1000,
        FAKE_SPAWN_TIMEOUT_NS == 15 * 1_000_000_000,
{
}

/// A step of taking units down says exactly what it holds, and so does a session that
/// runs.
pub proof fn law_teardown_steps_say_what_they_hold(step: Teardown, session: ActiveSession)
    ensures
        match step {
            Teardown::Systemctl { args, must } => step@ is Systemctl && step@->args == texts(args@)
                && step@->must == must,
            Teardown::RemoveFile { path } => step@ is RemoveFile && step@->path == path@,
        },
        match session {
            ActiveSession::Systemd { unit_name } => session@ is Systemd
                && session@->Systemd_unit_name == unit_name@,
            ActiveSession::DirectChild { child } => session@ is DirectChild
                && session@->DirectChild_child == child,
            ActiveSession::Scoped { child, unit_name } => session@ is Scoped
                && session@->Scoped_child == child && session@->Scoped_unit_name == unit_name@,
        },
{
}

} // verus!
