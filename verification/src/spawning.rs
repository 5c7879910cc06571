//! Starting a session as another user: the steps, in their order, and what each
//! of them reports when it fails.

use vstd::prelude::*;

use crate::accounts::UserEntry;
use crate::command::{pairs, Invocation, InvocationView};
use crate::numbers::{decimal, push_decimal};
use crate::paths::{joined, join_path};
use crate::sessions::{unit_file, SessionManager, SessionPaths};
use crate::text::{
    all_stand_whole, contains_text, follows, lemma_cat, opt_text, path_debug_text, quoted_path,
    split, stands_whole, texts,
};
use crate::units::{
    compositor_command, exec_start, exec_start_text, law_the_command_asks_for_the_wanted_size,
    law_the_command_ends_with_the_script, law_the_command_names_the_socket,
    law_the_command_runs_the_compositor_for_the_user, law_the_script_sets_the_session_up,
    law_the_script_starts_the_payload, law_the_service_unit_says_what_it_was_given,
    law_the_socket_unit_says_path_and_owner, service_unit, service_unit_text, session_script,
    socket_unit, socket_unit_text, write_session_script, ShellReader, UNIT_DIR,
};

verus! {

broadcast use crate::text::lemma_texts_push;

/// One step of starting a session.
pub enum SpawnStep {
    /// Create the directory and those above it.
    CreateDir { path: String },
    /// Give the directory to the user.
    Chown { username: String, path: String },
    /// Let a user at a path, as far as `perm` goes. A failure is logged and
    /// passed over.
    Grant { username: String, path: String, perm: String, what: String },
    /// Write a script, and make it executable for everyone.
    WriteScript { path: String, text: String },
    WriteUnit { path: String, text: String },
    Systemctl { args: Vec<String> },
    /// Note that the session runs under this unit. It is then done.
    Track { unit_name: String },
    /// Stop with this error.
    Fail { message: String },
}

/// A [`SpawnStep`] as plain text.
#[verifier::ext_equal]
#[allow(inconsistent_fields)]
pub enum SpawnStepView {
    CreateDir { path: Seq<char> },
    Chown { username: Seq<char>, path: Seq<char> },
    Grant { username: Seq<char>, path: Seq<char>, perm: Seq<char>, what: Seq<char> },
    WriteScript { path: Seq<char>, text: Seq<char> },
    WriteUnit { path: Seq<char>, text: Seq<char> },
    Systemctl { args: Seq<Seq<char>> },
    Track { unit_name: Seq<char> },
    Fail { message: Seq<char> },
}

impl View for SpawnStep {
    type V = SpawnStepView;

    open spec fn view(&self) -> SpawnStepView {
        match *self {
            SpawnStep::CreateDir { path } => SpawnStepView::CreateDir { path: path@ },
            SpawnStep::Chown { username, path } => SpawnStepView::Chown {
                username: username@,
                path: path@,
            },
            SpawnStep::Grant { username, path, perm, what } => SpawnStepView::Grant {
                username: username@,
                path: path@,
                perm: perm@,
                what: what@,
            },
            SpawnStep::WriteScript { path, text } => SpawnStepView::WriteScript {
                path: path@,
                text: text@,
            },
            SpawnStep::WriteUnit { path, text } => SpawnStepView::WriteUnit {
                path: path@,
                text: text@,
            },
            SpawnStep::Systemctl { args } => SpawnStepView::Systemctl { args: texts(args@) },
            SpawnStep::Track { unit_name } => SpawnStepView::Track { unit_name: unit_name@ },
            SpawnStep::Fail { message } => SpawnStepView::Fail { message: message@ },
        }
    }
}

/// What each step says.
pub open spec fn spawn_view(steps: Seq<SpawnStep>) -> Seq<SpawnStepView> {
    steps.map_values(|s: SpawnStep| s@)
}

/// What is asked for, and what is known of the machine, before a session is
/// started. What could not be found out stands as its error.
pub struct SpawnInputs {
    /// The directory that sessions live below.
    pub root: String,
    pub paths: SessionPaths,
    pub username: String,
    pub width: u32,
    pub height: u32,
    pub socket_name: String,
    pub payload: Vec<String>,
    pub broker_user: Result<String, String>,
    pub server_user: Option<String>,
    pub session_init: Result<String, String>,
    pub kwin_path: String,
    /// The start of a command that runs in the GPU's sandbox.
    pub sandbox: Option<Vec<String>>,
    pub user: Result<UserEntry, String>,
    pub logging_rules: Option<String>,
}

pub open spec fn grant(
    username: Seq<char>,
    path: Seq<char>,
    perm: Seq<char>,
    what: Seq<char>,
) -> SpawnStepView {
    SpawnStepView::Grant { username, path, perm, what }
}

impl SpawnInputs {
    /// What prepares the session's directory.
    pub open spec fn directory_steps(self) -> Seq<SpawnStepView> {
        seq![
            SpawnStepView::CreateDir { path: self.paths.runtime_dir@ },
            SpawnStepView::Chown { username: self.username@, path: self.paths.runtime_dir@ },
        ]
    }

    /// What lets the user, and the server, at the shared sockets.
    pub open spec fn shared_grants(self) -> Seq<SpawnStepView> {
        let user = seq![
            grant(self.username@, self.root@, "x"@, "traverse"@),
            grant(self.username@, self.paths.pipewire_socket_path@, "rw"@, "connect to"@),
            grant(self.username@, self.root@ + "/pulse"@, "x"@, "traverse"@),
            grant(self.username@, self.paths.pulse_socket_path@, "rw"@, "connect to"@),
        ];
        match self.server_user {
            Some(server) => user.push(grant(server@, self.root@, "x"@, "traverse"@)),
            None => user,
        }
    }

    /// Where the payload's script goes.
    pub open spec fn script_path(self) -> Seq<char> {
        self.paths.runtime_dir@ + "/session-start.sh"@
    }

    /// The payload's script, where there is a payload.
    pub open spec fn script_steps(self) -> Seq<SpawnStepView> {
        if self.payload@.len() == 0 {
            seq![]
        } else {
            seq![
                SpawnStepView::WriteScript {
                    path: self.script_path(),
                    text: session_script(
                        self.paths.runtime_dir@,
                        self.socket_name@,
                        self.paths.pipewire_socket_path@,
                        self.paths.pulse_socket_path@,
                        texts(self.payload@),
                    ),
                },
            ]
        }
    }

    /// The command of the session's service.
    pub open spec fn service_command(self) -> Seq<char> {
        exec_start_text(
            compositor_command(
                self.session_init->Ok_0@,
                self.username@,
                self.kwin_path@,
                self.width,
                self.height,
                self.socket_name@,
                if self.payload@.len() == 0 {
                    None
                } else {
                    Some(self.script_path())
                },
            ),
            match self.sandbox {
                Some(prefix) => Some(texts(prefix@)),
                None => None,
            },
        )
    }

    /// What writes the units and starts them: the socket first, and the service
    /// once the user and the server may connect to it.
    pub open spec fn unit_steps(self) -> Seq<SpawnStepView> {
        let unit = self.paths.unit_name@;
        let socket_grants = match self.server_user {
            Some(server) => seq![
                grant(self.username@, self.paths.wayland_socket_path@, "rw"@, "connect to"@),
                grant(server@, self.paths.wayland_socket_path@, "rw"@, "connect to"@),
            ],
            None => seq![
                grant(self.username@, self.paths.wayland_socket_path@, "rw"@, "connect to"@),
            ],
        };
        seq![
            SpawnStepView::WriteUnit {
                path: unit_file(unit, ".socket"@),
                text: socket_unit_text(
                    self.paths.wayland_socket_path@,
                    self.broker_user->Ok_0@,
                ),
            },
            SpawnStepView::WriteUnit {
                path: unit_file(unit, ".service"@),
                text: service_unit_text(
                    self.user->Ok_0.home@,
                    self.user->Ok_0.shell@,
                    self.username@,
                    self.paths.runtime_dir@,
                    self.paths.pipewire_socket_path@,
                    self.paths.pulse_socket_path@,
                    opt_text(self.logging_rules),
                    self.service_command(),
                ),
            },
            SpawnStepView::Systemctl { args: seq!["daemon-reload"@] },
            SpawnStepView::Systemctl { args: seq!["start"@, unit + ".socket"@] },
        ] + socket_grants + seq![
            SpawnStepView::Systemctl { args: seq!["start"@, unit + ".service"@] },
            SpawnStepView::Track { unit_name: unit },
        ]
    }

    /// All the steps. What could not be found out ends them where it is needed.
    pub open spec fn steps(self) -> Seq<SpawnStepView> {
        let prepared = self.directory_steps();
        let granted = prepared + self.shared_grants();
        let scripted = granted + self.script_steps();
        match self.broker_user {
            Err(e) => prepared.push(
                SpawnStepView::Fail {
                    message: "failed to determine broker's own username: "@ + e@,
                },
            ),
            Ok(_) => match self.session_init {
                Err(e) => granted.push(SpawnStepView::Fail { message: e@ }),
                Ok(_) => match self.user {
                    Err(e) => scripted.push(SpawnStepView::Fail { message: e@ }),
                    Ok(_) => scripted + self.unit_steps(),
                },
            },
        }
    }
}

fn push_spawn(steps: &mut Vec<SpawnStep>, step: SpawnStep)
    ensures
        spawn_view(final(steps)@) == spawn_view(old(steps)@).push(step@),
{
    steps.push(step);
    assert(spawn_view(steps@) =~= spawn_view(old(steps)@).push(step@));
}

fn push_grant(steps: &mut Vec<SpawnStep>, username: &str, path: &str, perm: &str, what: &str)
    ensures
        spawn_view(final(steps)@) == spawn_view(old(steps)@).push(
            grant(username@, path@, perm@, what@),
        ),
{
    push_spawn(
        steps,
        SpawnStep::Grant {
            username: username.to_string(),
            path: path.to_string(),
            perm: perm.to_string(),
            what: what.to_string(),
        },
    );
}

fn push_systemctl(steps: &mut Vec<SpawnStep>, verb: &str, unit: Option<(&str, &str)>)
    ensures
        spawn_view(final(steps)@) == spawn_view(old(steps)@).push(
            SpawnStepView::Systemctl {
                args: match unit {
                    Some((name, suffix)) => seq![verb@, name@ + suffix@],
                    None => seq![verb@],
                },
            },
        ),
{
    let mut args: Vec<String> = Vec::new();
    assert(texts(args@) =~= seq![]);
    args.push(verb.to_string());
    if let Some((name, suffix)) = unit {
        let mut full = name.to_string();
        full.append(suffix);
        args.push(full);
    }
    assert(texts(args@) =~= match unit {
        Some((name, suffix)) => seq![verb@, name@ + suffix@],
        None => seq![verb@],
    });
    push_spawn(steps, SpawnStep::Systemctl { args });
}

fn unit_path(unit_name: &str, suffix: &str) -> (path: String)
    ensures
        path@ == unit_file(unit_name@, suffix@),
{
    let mut name = unit_name.to_string();
    name.append(suffix);
    join_path(UNIT_DIR, name.as_str())
}

fn push_shared_grants(steps: &mut Vec<SpawnStep>, inputs: &SpawnInputs)
    ensures
        spawn_view(final(steps)@) == spawn_view(old(steps)@) + inputs.shared_grants(),
{
    let username = inputs.username.as_str();
    let root = inputs.root.as_str();
    let mut pulse = inputs.root.clone();
    pulse.append("/pulse");
    push_grant(steps, username, root, "x", "traverse");
    push_grant(steps, username, inputs.paths.pipewire_socket_path.as_str(), "rw", "connect to");
    push_grant(steps, username, pulse.as_str(), "x", "traverse");
    push_grant(steps, username, inputs.paths.pulse_socket_path.as_str(), "rw", "connect to");
    if let Some(server) = &inputs.server_user {
        push_grant(steps, server.as_str(), root, "x", "traverse");
    }
    assert(spawn_view(steps@) =~= spawn_view(old(steps)@) + inputs.shared_grants());
}

fn push_unit_steps(
    steps: &mut Vec<SpawnStep>,
    inputs: &SpawnInputs,
    broker_user: &str,
    user: &UserEntry,
    command: &str,
)
    requires
        inputs.broker_user is Ok,
        broker_user@ == inputs.broker_user->Ok_0@,
        inputs.user is Ok,
        *user == inputs.user->Ok_0,
        command@ == inputs.service_command(),
    ensures
        spawn_view(final(steps)@) == spawn_view(old(steps)@) + inputs.unit_steps(),
{
    let unit = inputs.paths.unit_name.as_str();
    let username = inputs.username.as_str();
    let socket_path = inputs.paths.wayland_socket_path.as_str();
    push_spawn(
        steps,
        SpawnStep::WriteUnit {
            path: unit_path(unit, ".socket"),
            text: socket_unit(socket_path, broker_user),
        },
    );
    let rules: Option<&str> = match &inputs.logging_rules {
        Some(r) => Some(r.as_str()),
        None => None,
    };
    let service = service_unit(
        user.home.as_str(),
        user.shell.as_str(),
        username,
        inputs.paths.runtime_dir.as_str(),
        inputs.paths.pipewire_socket_path.as_str(),
        inputs.paths.pulse_socket_path.as_str(),
        rules,
        command,
    );
    push_spawn(steps, SpawnStep::WriteUnit { path: unit_path(unit, ".service"), text: service });
    push_systemctl(steps, "daemon-reload", None);
    push_systemctl(steps, "start", Some((unit, ".socket")));
    push_grant(steps, username, socket_path, "rw", "connect to");
    if let Some(server) = &inputs.server_user {
        push_grant(steps, server.as_str(), socket_path, "rw", "connect to");
    }
    push_systemctl(steps, "start", Some((unit, ".service")));
    push_spawn(steps, SpawnStep::Track { unit_name: inputs.paths.unit_name.clone() });
    assert(spawn_view(steps@) =~= spawn_view(old(steps)@) + inputs.unit_steps());
}

/// The steps that start a user's compositor as a pair of systemd units.
pub fn spawn_via_systemd(inputs: &SpawnInputs) -> (steps: Vec<SpawnStep>)
    ensures
        spawn_view(steps@) == inputs.steps(),
{
    let mut steps: Vec<SpawnStep> = Vec::new();
    assert(spawn_view(steps@) =~= seq![]);
    push_spawn(
        &mut steps,
        SpawnStep::CreateDir { path: inputs.paths.runtime_dir.clone() },
    );
    push_spawn(
        &mut steps,
        SpawnStep::Chown {
            username: inputs.username.clone(),
            path: inputs.paths.runtime_dir.clone(),
        },
    );
    let broker_user = match &inputs.broker_user {
        Ok(u) => u,
        Err(e) => {
            let mut message = "failed to determine broker's own username: ".to_string();
            message.append(e.as_str());
            push_spawn(&mut steps, SpawnStep::Fail { message });
            return steps;
        },
    };
    push_shared_grants(&mut steps, inputs);
    let session_init = match &inputs.session_init {
        Ok(p) => p,
        Err(e) => {
            push_spawn(&mut steps, SpawnStep::Fail { message: e.clone() });
            return steps;
        },
    };
    let mut script: Option<String> = None;
    if inputs.payload.len() > 0 {
        let (path, text) = write_session_script(
            inputs.paths.runtime_dir.as_str(),
            inputs.socket_name.as_str(),
            inputs.paths.pipewire_socket_path.as_str(),
            inputs.paths.pulse_socket_path.as_str(),
            &inputs.payload,
        );
        script = Some(path.clone());
        push_spawn(&mut steps, SpawnStep::WriteScript { path, text });
    }
    assert(spawn_view(steps@) =~= inputs.directory_steps() + inputs.shared_grants()
        + inputs.script_steps());
    let user = match &inputs.user {
        Ok(u) => u,
        Err(e) => {
            push_spawn(&mut steps, SpawnStep::Fail { message: e.clone() });
            return steps;
        },
    };
    let script_ref: Option<&str> = match &script {
        Some(p) => Some(p.as_str()),
        None => None,
    };
    let sandbox: Option<&Vec<String>> = match &inputs.sandbox {
        Some(p) => Some(p),
        None => None,
    };
    let command = exec_start(
        session_init.as_str(),
        inputs.username.as_str(),
        inputs.kwin_path.as_str(),
        inputs.width,
        inputs.height,
        inputs.socket_name.as_str(),
        script_ref,
        sandbox,
    );
    push_unit_steps(&mut steps, inputs, broker_user.as_str(), user, command.as_str());
    steps
}

/// A session is noted as running only after every step that can fail: its last
/// step notes it, or reports an error, and none before does either.
pub proof fn law_only_the_last_step_ends_a_spawn(inputs: SpawnInputs, i: int)
    requires
        0 <= i < inputs.steps().len(),
    ensures
        (inputs.steps()[i] is Track || inputs.steps()[i] is Fail) <==> i == inputs.steps().len()
            - 1,
{
}

/// The session's socket is up, and the user may connect to it, before the
/// service that uses it is started.
pub proof fn law_socket_is_granted_before_the_service_starts(inputs: SpawnInputs)
    requires
        inputs.broker_user is Ok,
        inputs.session_init is Ok,
        inputs.user is Ok,
    ensures
        exists|a: int, b: int, c: int|
            0 <= a < b < c < inputs.steps().len() && #[trigger] inputs.steps()[a]
                == (SpawnStepView::Systemctl {
                args: seq!["start"@, inputs.paths.unit_name@ + ".socket"@],
            }) && #[trigger] inputs.steps()[b] == grant(
                inputs.username@,
                inputs.paths.wayland_socket_path@,
                "rw"@,
                "connect to"@,
            ) && #[trigger] inputs.steps()[c] == (SpawnStepView::Systemctl {
                args: seq!["start"@, inputs.paths.unit_name@ + ".service"@],
            }),
{
    let front = inputs.directory_steps() + inputs.shared_grants() + inputs.script_steps();
    let n = front.len() as int;
    let units = inputs.unit_steps();
    let last = units.len() - 2;
    assert(inputs.steps() == front + units);
    assert(inputs.steps()[n + 3] == units[3]);
    assert(inputs.steps()[n + 4] == units[4]);
    assert(inputs.steps()[n + last] == units[last]);
    assert(units[3] == (SpawnStepView::Systemctl {
        args: seq!["start"@, inputs.paths.unit_name@ + ".socket"@],
    }));
    assert(units[last] == (SpawnStepView::Systemctl {
        args: seq!["start"@, inputs.paths.unit_name@ + ".service"@],
    }));
}

proof fn lemma_unit_step(inputs: SpawnInputs, k: int)
    requires
        inputs.broker_user is Ok,
        inputs.session_init is Ok,
        inputs.user is Ok,
        0 <= k < inputs.unit_steps().len(),
    ensures
        ({
            let n = (inputs.directory_steps() + inputs.shared_grants()
                + inputs.script_steps()).len();
            n + k < inputs.steps().len() && inputs.steps()[n + k] == inputs.unit_steps()[k]
        }),
{
}

proof fn lemma_unit_path(unit: Seq<char>, suffix: Seq<char>)
    requires
        unit.len() == 0 || unit[0] != '/',
        suffix.len() > 0,
        suffix[0] == '.',
    ensures
        unit_file(unit, suffix) == "/run/systemd/system/"@ + unit + suffix,
{
    reveal_strlit("/run/systemd/system");
    reveal_strlit("/run/systemd/system/");
    reveal_strlit("/");
    assert((unit + suffix)[0] != '/');
    assert("/run/systemd/system"@ + "/"@ =~= "/run/systemd/system/"@);
    lemma_cat("/run/systemd/system/"@, unit, suffix);
}

/// A session's service is written for the unit that the session goes by, runs as
/// the wanted user with that user's home and shell, in the session's directory
/// and with the session's sockets, and starts a command that has the wanted width
/// behind `--width`, the wanted height behind `--height`, and the session's socket
/// behind `--socket`.
pub proof fn law_the_service_is_the_one_asked_for(inputs: SpawnInputs)
    requires
        inputs.broker_user is Ok,
        inputs.session_init is Ok,
        inputs.user is Ok,
        inputs.paths.unit_name@.len() == 0 || inputs.paths.unit_name@[0] != '/',
    ensures
        exists|k: int|
            0 <= k < inputs.steps().len() && (#[trigger] inputs.steps()[k]) is WriteUnit
                && inputs.steps()[k]->WriteUnit_path == "/run/systemd/system/"@
                + inputs.paths.unit_name@ + ".service"@ && all_stand_whole(
                inputs.steps()[k]->WriteUnit_text,
                seq![
                    "WorkingDirectory="@ + inputs.user->Ok_0.home@,
                    "Environment=HOME="@ + inputs.user->Ok_0.home@,
                    "Environment=SHELL="@ + inputs.user->Ok_0.shell@,
                    "Environment=USER="@ + inputs.username@,
                    "Environment=LOGNAME="@ + inputs.username@,
                    "Environment=XDG_RUNTIME_DIR="@ + inputs.paths.runtime_dir@,
                    "Environment=PIPEWIRE_REMOTE="@ + inputs.paths.pipewire_socket_path@,
                    "Environment=PULSE_SERVER=unix:"@ + inputs.paths.pulse_socket_path@,
                ],
                '\n',
            ) && (inputs.logging_rules matches Some(rules) ==> stands_whole(
                inputs.steps()[k]->WriteUnit_text,
                "Environment=QT_LOGGING_RULES="@ + rules@,
                '\n',
            )) && exists|line: Seq<char>| #[trigger]
                stands_whole(inputs.steps()[k]->WriteUnit_text, "ExecStart="@ + line, '\n')
                    && follows(split(line, ' '), "--width"@, decimal(inputs.width as nat))
                    && follows(split(line, ' '), "--height"@, decimal(inputs.height as nat))
                    && contains_text(line, " --socket "@ + inputs.socket_name@ + " "@)
                    && contains_text(line, " -- "@ + inputs.kwin_path@ + " "@) && contains_text(
                    line,
                    inputs.session_init->Ok_0@ + " "@ + inputs.username@ + " -- "@,
                ),
{
    let script = if inputs.payload@.len() == 0 {
        None
    } else {
        Some(inputs.script_path())
    };
    let sandbox = match inputs.sandbox {
        Some(prefix) => Some(texts(prefix@)),
        None => None,
    };
    let line = inputs.service_command();
    law_the_command_asks_for_the_wanted_size(
        inputs.session_init->Ok_0@,
        inputs.username@,
        inputs.kwin_path@,
        inputs.width,
        inputs.height,
        inputs.socket_name@,
        script,
        sandbox,
    );
    law_the_command_names_the_socket(
        inputs.session_init->Ok_0@,
        inputs.username@,
        inputs.kwin_path@,
        inputs.width,
        inputs.height,
        inputs.socket_name@,
        script,
        sandbox,
    );
    law_the_command_runs_the_compositor_for_the_user(
        inputs.session_init->Ok_0@,
        inputs.username@,
        inputs.kwin_path@,
        inputs.width,
        inputs.height,
        inputs.socket_name@,
        script,
        sandbox,
    );
    law_the_service_unit_says_what_it_was_given(
        inputs.user->Ok_0.home@,
        inputs.user->Ok_0.shell@,
        inputs.username@,
        inputs.paths.runtime_dir@,
        inputs.paths.pipewire_socket_path@,
        inputs.paths.pulse_socket_path@,
        opt_text(inputs.logging_rules),
        line,
    );
    reveal_strlit(".service");
    lemma_unit_path(inputs.paths.unit_name@, ".service"@);
    lemma_unit_step(inputs, 1);
    let k = (inputs.directory_steps() + inputs.shared_grants() + inputs.script_steps()).len() + 1;
    assert(inputs.steps()[k as int] == inputs.unit_steps()[1]);
    assert(stands_whole(
        inputs.steps()[k as int]->WriteUnit_text,
        "ExecStart="@ + line,
        '\n',
    ));
}

/// A session's socket is written for the unit that the session goes by, is at the
/// session's path, and belongs to the broker's user.
pub proof fn law_the_socket_is_the_one_asked_for(inputs: SpawnInputs)
    requires
        inputs.broker_user is Ok,
        inputs.session_init is Ok,
        inputs.user is Ok,
        inputs.paths.unit_name@.len() == 0 || inputs.paths.unit_name@[0] != '/',
    ensures
        exists|k: int|
            0 <= k < inputs.steps().len() && (#[trigger] inputs.steps()[k]) is WriteUnit
                && inputs.steps()[k]->WriteUnit_path == "/run/systemd/system/"@
                + inputs.paths.unit_name@ + ".socket"@ && all_stand_whole(
                inputs.steps()[k]->WriteUnit_text,
                seq![
                    "ListenStream="@ + inputs.paths.wayland_socket_path@,
                    "SocketUser="@ + inputs.broker_user->Ok_0@,
                    "SocketMode=0660"@,
                ],
                '\n',
            ),
        inputs.steps().last() == (SpawnStepView::Track { unit_name: inputs.paths.unit_name@ }),
{
    law_the_socket_unit_says_path_and_owner(
        inputs.paths.wayland_socket_path@,
        inputs.broker_user->Ok_0@,
    );
    reveal_strlit(".socket");
    lemma_unit_path(inputs.paths.unit_name@, ".socket"@);
    lemma_unit_step(inputs, 0);
    let k = (inputs.directory_steps() + inputs.shared_grants() + inputs.script_steps()).len();
    assert(inputs.steps()[k as int] == inputs.unit_steps()[0]);
}

/// A session that has a payload is given a script, below the session's own
/// directory, that a shell reads as the payload, and the session's compositor is
/// told of that script; one that has none is given no script.
pub proof fn law_the_payload_is_run_by_its_script(inputs: SpawnInputs)
    requires
        inputs.broker_user is Ok,
        inputs.session_init is Ok,
    ensures
        inputs.payload@.len() == 0 ==> forall|k: int|
            0 <= k < inputs.steps().len() ==> !((#[trigger] inputs.steps()[k]) is WriteScript),
        inputs.payload@.len() > 0 ==> exists|k: int|
            0 <= k < inputs.steps().len() && (#[trigger] inputs.steps()[k]) is WriteScript
                && inputs.steps()[k]->WriteScript_path == inputs.paths.runtime_dir@
                + "/session-start.sh"@ && all_stand_whole(
                inputs.steps()[k]->WriteScript_text,
                seq![
                    "WAYLAND_DISPLAY="@ + inputs.socket_name@,
                    "XDG_RUNTIME_DIR="@ + inputs.paths.runtime_dir@,
                    "PIPEWIRE_REMOTE="@ + inputs.paths.pipewire_socket_path@,
                ],
                ' ',
            ) && exists|line: Seq<char>| #[trigger]
                stands_whole(inputs.steps()[k]->WriteScript_text, "exec "@ + line, '\n')
                    && ShellReader::start().run(line).finished() == texts(inputs.payload@),
        inputs.payload@.len() > 0 ==> {
            let line = inputs.service_command();
            let tail = " --exit-with-session "@ + (inputs.paths.runtime_dir@
                + "/session-start.sh"@);
            tail.len() <= line.len() && line.skip(line.len() - tail.len()) == tail
        },
{
    let front = inputs.directory_steps() + inputs.shared_grants();
    if inputs.payload@.len() > 0 {
        law_the_script_sets_the_session_up(
            inputs.paths.runtime_dir@,
            inputs.socket_name@,
            inputs.paths.pipewire_socket_path@,
            inputs.paths.pulse_socket_path@,
            texts(inputs.payload@),
        );
        law_the_script_starts_the_payload(
            inputs.paths.runtime_dir@,
            inputs.socket_name@,
            inputs.paths.pipewire_socket_path@,
            inputs.paths.pulse_socket_path@,
            texts(inputs.payload@),
        );
        let k = front.len() as int;
        assert(inputs.steps()[k] == inputs.script_steps()[0]);
        law_the_command_ends_with_the_script(
            inputs.session_init->Ok_0@,
            inputs.username@,
            inputs.kwin_path@,
            inputs.width,
            inputs.height,
            inputs.socket_name@,
            Some(inputs.script_path()),
            match inputs.sandbox {
                Some(prefix) => Some(texts(prefix@)),
                None => None,
            },
        );
    }
}

/// Before the session's service starts, the session's directory is the user's, the
/// user may pass through the root of all sessions and the directory of the shared
/// PulseAudio socket, and may connect to that socket, to the shared PipeWire socket
/// and to the session's own; and the server, where there is one, may pass through
/// the root and connect to the session's socket.
pub proof fn law_user_and_server_are_let_in_before_the_service_starts(inputs: SpawnInputs)
    requires
        inputs.broker_user is Ok,
        inputs.session_init is Ok,
        inputs.user is Ok,
    ensures
        ({
            let all = inputs.steps();
            let before = all.take(all.len() - 2);
            let let_in = |user: Seq<char>, path: Seq<char>, perm: Seq<char>|
                exists|k: int|
                    0 <= k < before.len() && (#[trigger] before[k]) is Grant
                        && before[k]->Grant_username == user && before[k]->Grant_path == path
                        && before[k]->Grant_perm == perm && before[k]->Grant_what == if perm
                        == "x"@ {
                        "traverse"@
                    } else {
                        "connect to"@
                    };
            let user = inputs.username@;
            &&& all.len() > 2
            &&& all[all.len() - 2] == (SpawnStepView::Systemctl {
                args: seq!["start"@, inputs.paths.unit_name@ + ".service"@],
            })
            &&& before[0] == (SpawnStepView::CreateDir { path: inputs.paths.runtime_dir@ })
            &&& before[1] == (SpawnStepView::Chown {
                username: user,
                path: inputs.paths.runtime_dir@,
            })
            &&& let_in(user, inputs.root@, "x"@)
            &&& let_in(user, inputs.root@ + "/pulse"@, "x"@)
            &&& let_in(user, inputs.paths.pipewire_socket_path@, "rw"@)
            &&& let_in(user, inputs.paths.pulse_socket_path@, "rw"@)
            &&& let_in(user, inputs.paths.wayland_socket_path@, "rw"@)
            &&& inputs.server_user matches Some(server) ==> let_in(server@, inputs.root@, "x"@)
                && let_in(server@, inputs.paths.wayland_socket_path@, "rw"@)
        }),
{
    let all = inputs.steps();
    let before = all.take(all.len() - 2);
    let front = inputs.directory_steps() + inputs.shared_grants() + inputs.script_steps();
    let n = front.len() as int;
    let units = inputs.unit_steps();
    assert(all == front + units);
    assert(all[n + units.len() - 2] == units[units.len() - 2]);
    reveal_strlit("x");
    reveal_strlit("rw");
    assert("x"@.len() == 1 && "rw"@.len() == 2);
    assert(before[2] == inputs.shared_grants()[0]);
    assert(before[3] == inputs.shared_grants()[1]);
    assert(before[4] == inputs.shared_grants()[2]);
    assert(before[5] == inputs.shared_grants()[3]);
    assert(before[n + 4] == units[4]);
    if inputs.server_user is Some {
        assert(before[6] == inputs.shared_grants()[4]);
        assert(before[n + 5] == units[5]);
    }
}

/// What a step runs, where it runs a program.
pub fn step_command(step: &SpawnStep) -> (command: Option<Invocation>)
    ensures
        match *step {
            SpawnStep::Chown { username, path } => command matches Some(c) && c@
                == InvocationView::plain("chown"@, seq![username@, path@]),
            SpawnStep::Grant { username, path, perm, .. } => command matches Some(c) && c@
                == InvocationView::plain(
                "setfacl"@,
                seq!["-m"@, "u:"@ + username@ + ":"@ + perm@, path@],
            ),
            SpawnStep::Systemctl { args } => command matches Some(c) && c@
                == InvocationView::plain("systemctl"@, texts(args@)),
            _ => command is None,
        },
{
    match step {
        SpawnStep::Chown { username, path } => {
            let mut c = Invocation::new("chown");
            c.arg(username.as_str());
            c.arg(path.as_str());
            Some(c)
        },
        SpawnStep::Grant { username, path, perm, .. } => {
            let mut entry = "u:".to_string();
            entry.append(username.as_str());
            entry.append(":");
            entry.append(perm.as_str());
            let mut c = Invocation::new("setfacl");
            c.arg("-m");
            c.arg(entry.as_str());
            c.arg(path.as_str());
            Some(c)
        },
        SpawnStep::Systemctl { args } => {
            let mut c = Invocation::new("systemctl");
            c.args(args);
            assert(c@ =~= InvocationView::plain("systemctl"@, texts(args@)));
            Some(c)
        },
        _ => None,
    }
}

/// What can go wrong with a file.
#[derive(Clone, Copy, Debug, PartialEq, Eq, Structural)]
pub enum FileFailure {
    Create,
    Write,
    Stat,
    Chmod,
}

/// What is reported of a file of the session.
pub fn file_failure(failure: FileFailure, path: &str, error: &str) -> (message: String)
    ensures
        message@ == match failure {
            FileFailure::Create => "failed to create "@,
            FileFailure::Write => "failed to write "@,
            FileFailure::Stat => "failed to stat "@,
            FileFailure::Chmod => "failed to chmod "@,
        } + path@ + ": "@ + error@,
{
    let mut message = match failure {
        FileFailure::Create => "failed to create ".to_string(),
        FileFailure::Write => "failed to write ".to_string(),
        FileFailure::Stat => "failed to stat ".to_string(),
        FileFailure::Chmod => "failed to chmod ".to_string(),
    };
    message.append(path);
    message.append(": ");
    message.append(error);
    message
}

/// What is reported of a unit that cannot be written.
pub fn unit_failure(path: &str, error: &str) -> (message: String)
    ensures
        message@ == "failed to write "@ + path_debug_text(path@) + ": "@ + error@,
{
    let mut message = "failed to write ".to_string();
    message.append(quoted_path(path).as_str());
    message.append(": ");
    message.append(error);
    message
}

/// What is reported of a directory that cannot be given away. A status is there
/// where `chown` ran.
pub fn chown_failure(
    path: &str,
    username: &str,
    status: Option<&str>,
    said: &str,
) -> (message: String)
    ensures
        message@ == match status {
            Some(s) => "chown "@ + path@ + " to "@ + username@ + " exited with "@ + s@ + ": "@
                + said@,
            None => "failed to run chown on "@ + path@ + ": "@ + said@,
        },
{
    match status {
        Some(s) => {
            let mut message = "chown ".to_string();
            message.append(path);
            message.append(" to ");
            message.append(username);
            message.append(" exited with ");
            message.append(s);
            message.append(": ");
            message.append(said);
            message
        },
        None => {
            let mut message = "failed to run chown on ".to_string();
            message.append(path);
            message.append(": ");
            message.append(said);
            message
        },
    }
}

/// A payload to be run as another user, against a socket that is there already.
pub struct PayloadSpawn {
    pub unit_name: String,
    pub command: Invocation,
    pub working_dir: String,
}

/// What lets a user at a socket and the directory it is in: now, and for what
/// is created there later.
pub open spec fn payload_grants(
    username: Seq<char>,
    socket_path: Seq<char>,
    runtime_dir: Seq<char>,
) -> Seq<InvocationView> {
    let all = "u:"@ + username + ":rwx"@;
    seq![
        InvocationView::plain("setfacl"@, seq!["-m"@, all, runtime_dir]),
        InvocationView::plain("setfacl"@, seq!["-d"@, "-m"@, all, runtime_dir]),
        InvocationView::plain("setfacl"@, seq!["-m"@, "u:"@ + username + ":rw"@, socket_path]),
    ]
}

/// The program that runs a payload in a scope of its own. It finds nothing of the
/// broker's environment, and only what is listed here.
pub open spec fn payload_command(
    unit_name: Seq<char>,
    session_init: Seq<char>,
    username: Seq<char>,
    home: Seq<char>,
    argv: Seq<Seq<char>>,
    env: Seq<(Seq<char>, Seq<char>)>,
) -> InvocationView {
    InvocationView {
        program: "systemd-run"@,
        args: seq![
            "--scope"@,
            "--collect"@,
            "--unit="@ + unit_name,
            "--"@,
            session_init,
            username,
            "--"@,
        ] + argv,
        clear_env: true,
        env: seq![
            ("HOME"@, home),
            ("USER"@, username),
            ("LOGNAME"@, username),
            ("PATH"@, "/usr/local/sbin:/usr/local/bin:/usr/bin"@),
        ] + env,
        unset: seq![],
    }
}

/// A payload is run by the session's helper for the wanted user, word for word as
/// it was given, in a scope of the session's own name; it finds the user's home and
/// name in its environment, and all that it was given, and nothing of the broker's.
pub proof fn law_a_payload_is_run_as_it_was_given(
    unit_name: Seq<char>,
    session_init: Seq<char>,
    username: Seq<char>,
    home: Seq<char>,
    argv: Seq<Seq<char>>,
    env: Seq<(Seq<char>, Seq<char>)>,
    i: int,
)
    ensures
        ({
            let c = payload_command(unit_name, session_init, username, home, argv, env);
            let n = c.args.len() - argv.len();
            &&& c.program == "systemd-run"@ && c.clear_env && c.unset.len() == 0
            &&& n >= 3
            &&& c.args.skip(n) == argv
            &&& c.args.subrange(n - 3, n) == seq![session_init, username, "--"@]
            &&& c.args.take(n - 3).contains("--unit="@ + unit_name)
            &&& c.args.take(n - 3).contains("--scope"@)
            &&& c.env.contains(("HOME"@, home))
            &&& c.env.contains(("USER"@, username))
            &&& c.env.contains(("LOGNAME"@, username))
            &&& 0 <= i < env.len() ==> c.env.contains(env[i])
            &&& c.env.len() >= env.len() && c.env.skip(c.env.len() - env.len()) == env
        }),
{
    let c = payload_command(unit_name, session_init, username, home, argv, env);
    let n = c.args.len() - argv.len();
    assert(c.args.skip(n) =~= argv);
    assert(c.args.subrange(n - 3, n) =~= seq![session_init, username, "--"@]);
    assert(c.args.take(n - 3)[2] == "--unit="@ + unit_name);
    assert(c.args.take(n - 3)[0] == "--scope"@);
    assert(c.env[0] == ("HOME"@, home));
    assert(c.env[1] == ("USER"@, username));
    assert(c.env[2] == ("LOGNAME"@, username));
    assert(c.env.skip(4) =~= env);
    if 0 <= i < env.len() {
        assert(c.env[4 + i] == env[i]);
    }
}

/// Before a payload runs, the user it runs as may do everything in the directory
/// of its socket, now and with what is created there later, and may connect to the
/// socket itself.
pub proof fn law_a_payload_may_reach_its_socket(
    username: Seq<char>,
    socket_path: Seq<char>,
    runtime_dir: Seq<char>,
)
    ensures
        ({
            let all = payload_grants(username, socket_path, runtime_dir);
            &&& exists|k: int|
                0 <= k < all.len() && (#[trigger] all[k]).program == "setfacl"@ && all[k].args
                    == seq!["-m"@, "u:"@ + username + ":rwx"@, runtime_dir]
            &&& exists|k: int|
                0 <= k < all.len() && (#[trigger] all[k]).program == "setfacl"@ && all[k].args
                    == seq!["-d"@, "-m"@, "u:"@ + username + ":rwx"@, runtime_dir]
            &&& exists|k: int|
                0 <= k < all.len() && (#[trigger] all[k]).program == "setfacl"@ && all[k].args
                    == seq!["-m"@, "u:"@ + username + ":rw"@, socket_path]
        }),
{
    let all = payload_grants(username, socket_path, runtime_dir);
    assert(all[0].program == "setfacl"@ && all[1].program == "setfacl"@ && all[2].program
        == "setfacl"@);
}

/// What each command says.
pub open spec fn invocations(commands: Seq<Invocation>) -> Seq<InvocationView> {
    commands.map_values(|c: Invocation| c@)
}

impl SessionManager {
    /// The commands that let the user in, and the payload to run once they are
    /// done. An unknown user ends it before any of that, and a missing helper after
    /// the user was let in.
    pub fn spawn_payload(
        session_id: &str,
        pid: u32,
        username: &str,
        socket_path: &str,
        runtime_dir: &str,
        argv: &Vec<String>,
        env: &Vec<(String, String)>,
        user: &Result<UserEntry, String>,
        session_init: &Result<String, String>,
    ) -> (r: (Vec<Invocation>, Result<PayloadSpawn, String>))
        ensures
            invocations(r.0@) == if user is Ok {
                payload_grants(username@, socket_path@, runtime_dir@)
            } else {
                seq![]
            },
            match r.1 {
                Ok(p) => {
                    &&& user is Ok && session_init is Ok
                    &&& p.unit_name@ == "redfog-payload-session-"@ + decimal(pid as nat) + "-"@
                        + session_id@
                    &&& p.command@ == payload_command(
                        p.unit_name@,
                        session_init->Ok_0@,
                        username@,
                        user->Ok_0.home@,
                        texts(argv@),
                        pairs(env@),
                    )
                    &&& p.working_dir@ == user->Ok_0.home@
                },
                Err(m) => match *user {
                    Err(e) => m@ == e@,
                    Ok(_) => session_init matches Err(e) && m@ == e@,
                },
            },
    {
        let mut grants: Vec<Invocation> = Vec::new();
        let home = match user {
            Ok(u) => u.home.clone(),
            Err(e) => {
                assert(invocations(grants@) =~= seq![]);
                return (grants, Err(e.clone()));
            },
        };
        let mut all = "u:".to_string();
        all.append(username);
        all.append(":rwx");
        let mut read_write = "u:".to_string();
        read_write.append(username);
        read_write.append(":rw");
        let mut a = Invocation::new("setfacl");
        a.arg("-m");
        a.arg(all.as_str());
        a.arg(runtime_dir);
        let mut b = Invocation::new("setfacl");
        b.arg("-d");
        b.arg("-m");
        b.arg(all.as_str());
        b.arg(runtime_dir);
        let mut c = Invocation::new("setfacl");
        c.arg("-m");
        c.arg(read_write.as_str());
        c.arg(socket_path);
        let ghost expected = payload_grants(username@, socket_path@, runtime_dir@);
        assert(a@ =~= expected[0]);
        assert(b@ =~= expected[1]);
        assert(c@ =~= expected[2]);
        grants.push(a);
        grants.push(b);
        grants.push(c);
        assert(invocations(grants@) =~= payload_grants(username@, socket_path@, runtime_dir@));
        let init = match session_init {
            Ok(p) => p,
            Err(e) => {
                return (grants, Err(e.clone()));
            },
        };
        let mut unit_name = "redfog-payload-session-".to_string();
        push_decimal(&mut unit_name, pid as u64);
        unit_name.append("-");
        unit_name.append(session_id);
        let mut unit = "--unit=".to_string();
        unit.append(unit_name.as_str());
        let mut command = Invocation::new("systemd-run");
        command.arg("--scope");
        command.arg("--collect");
        command.arg(unit.as_str());
        command.arg("--");
        command.arg(init.as_str());
        command.arg(username);
        command.arg("--");
        command.args(argv);
        command.clear_env();
        command.env("HOME", home.as_str());
        command.env("USER", username);
        command.env("LOGNAME", username);
        command.env("PATH", "/usr/local/sbin:/usr/local/bin:/usr/bin");
        let ghost fixed = command@;
        let mut i: usize = 0;
        assert(pairs(env@.take(0)) =~= seq![]);
        assert(command@ =~= InvocationView { env: fixed.env + pairs(env@.take(0)), ..fixed });
        while i < env.len()
            invariant
                i <= env@.len(),
                command@ == (InvocationView {
                    env: fixed.env + pairs(env@.take(i as int)),
                    ..fixed
                }),
            decreases env@.len() - i,
        {
            command.env(env[i].0.as_str(), env[i].1.as_str());
            proof {
                assert(env@.take(i + 1) =~= env@.take(i as int).push(env@[i as int]));
                assert(fixed.env + pairs(env@.take(i + 1)) =~= (fixed.env + pairs(
                    env@.take(i as int),
                )).push((env@[i as int].0@, env@[i as int].1@)));
            }
            i += 1;
        }
        assert(env@.take(env@.len() as int) =~= env@);
        assert(command@ =~= payload_command(
            unit_name@,
            init@,
            username@,
            home@,
            texts(argv@),
            pairs(env@),
        ));
        (grants, Ok(PayloadSpawn { unit_name, command, working_dir: home }))
    }
}

/// What reading a user's own configuration came to.
pub enum ConfigFile<T> {
    Missing,
    /// It could not be read, for this reason.
    Unreadable(String),
    /// It is not the TOML it should be, for this reason.
    Malformed(String),
    Parsed(T),
}

/// Where a user's own session is configured.
pub fn session_config_path(home: &str) -> (path: String)
    ensures
        path@ == joined(home@, ".config/redfog/session.toml"@),
{
    join_path(home, ".config/redfog/session.toml")
}

impl SessionManager {
    /// A user's own session, where one is configured.
    pub fn read_user_session_config<T>(
        user: Result<UserEntry, String>,
        file: ConfigFile<T>,
    ) -> (r: Result<Option<T>, String>)
        ensures
            match user {
                Err(e) => r == Err::<Option<T>, String>(e),
                Ok(u) => {
                    let path = path_debug_text(joined(u.home@, ".config/redfog/session.toml"@));
                    match file {
                        ConfigFile::Missing => r == Ok::<Option<T>, String>(None),
                        ConfigFile::Unreadable(e) => r matches Err(m) && m@ == "failed to read "@
                            + path + ": "@ + e@,
                        ConfigFile::Malformed(e) => r matches Err(m) && m@ == "failed to parse "@
                            + path + ": "@ + e@,
                        ConfigFile::Parsed(t) => r == Ok::<Option<T>, String>(Some(t)),
                    }
                },
            },
    {
        let home = match user {
            Err(e) => {
                return Err(e);
            },
            Ok(u) => u.home,
        };
        let shown = quoted_path(session_config_path(home.as_str()).as_str());
        match file {
            ConfigFile::Missing => Ok(None),
            ConfigFile::Unreadable(e) => {
                let mut m = "failed to read ".to_string();
                m.append(shown.as_str());
                m.append(": ");
                m.append(e.as_str());
                Err(m)
            },
            ConfigFile::Malformed(e) => {
                let mut m = "failed to parse ".to_string();
                m.append(shown.as_str());
                m.append(": ");
                m.append(e.as_str());
                Err(m)
            },
            ConfigFile::Parsed(t) => Ok(Some(t)),
        }
    }
}

/// Where the broker does not know its own user, nobody is let in and nothing is written;
/// where the session's helper is missing, nothing is written; and where the user is
/// unknown, no unit is written and none started. Each time the reason is reported last.
pub proof fn law_a_spawn_stops_at_what_is_missing(inputs: SpawnInputs, i: int)
    requires
        0 <= i < inputs.steps().len(),
    ensures
        inputs.broker_user matches Err(e) ==> {
            &&& inputs.steps().last() == (SpawnStepView::Fail {
                message: "failed to determine broker's own username: "@ + e@,
            })
            &&& !(inputs.steps()[i] is Grant) && !(inputs.steps()[i] is WriteScript)
            &&& !(inputs.steps()[i] is WriteUnit) && !(inputs.steps()[i] is Systemctl)
        },
        inputs.broker_user is Ok ==> (inputs.session_init matches Err(e) ==> {
            &&& inputs.steps().last() == (SpawnStepView::Fail { message: e@ })
            &&& !(inputs.steps()[i] is WriteScript)
            &&& !(inputs.steps()[i] is WriteUnit) && !(inputs.steps()[i] is Systemctl)
        }),
        inputs.broker_user is Ok && inputs.session_init is Ok ==> (inputs.user matches Err(e) ==> {
            &&& inputs.steps().last() == (SpawnStepView::Fail { message: e@ })
            &&& !(inputs.steps()[i] is WriteUnit) && !(inputs.steps()[i] is Systemctl)
        }),
{
}

/// A step says of users, paths, permissions and texts exactly what it holds.
pub proof fn law_spawn_steps_say_what_they_hold(step: SpawnStep)
    ensures
        match step {
            SpawnStep::CreateDir { path } => step@ == (SpawnStepView::CreateDir { path: path@ }),
            SpawnStep::Chown { username, path } => step@ is Chown && step@->Chown_username
                == username@ && step@->Chown_path == path@,
            SpawnStep::Grant { username, path, perm, what } => step@ == grant(
                username@,
                path@,
                perm@,
                what@,
            ) && step@->Grant_username == username@ && step@->Grant_path == path@
                && step@->Grant_perm == perm@ && step@->Grant_what == what@,
            SpawnStep::WriteScript { path, text } => step@ is WriteScript
                && step@->WriteScript_path == path@ && step@->WriteScript_text == text@,
            SpawnStep::WriteUnit { path, text } => step@ is WriteUnit && step@->WriteUnit_path
                == path@ && step@->WriteUnit_text == text@,
            SpawnStep::Systemctl { args } => step@ is Systemctl && step@->Systemctl_args == texts(
                args@,
            ),
            SpawnStep::Track { unit_name } => step@ is Track && step@->Track_unit_name
                == unit_name@,
            SpawnStep::Fail { message } => step@ is Fail && step@->Fail_message == message@,
        },
{
}

} // verus!
