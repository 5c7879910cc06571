//! The private PipeWire that a headless session runs on, its D-Bus session and
//! its audio devices.

use vstd::prelude::*;

use crate::command::{Invocation, InvocationView};
use crate::paths::{join_path, joined};
use crate::text::{path_debug_text, quoted_path, same_text, texts, trim, trimmed};

verus! {

broadcast use crate::text::lemma_texts_push;

/// One step of bringing the runtime up.
pub enum Step {
    /// Create the directory and those above it.
    CreateDir { path: String },
    /// Give the directory mode 0700, unless [`is_private`] says it has it.
    MakePrivate { path: String },
    /// Remove the file if it is there.
    RemoveStale { path: String },
    /// Copy a file that has to be there.
    CopyRequired { from: String, to: String },
    /// Copy a file if it is there.
    CopyOptional { from: String, to: String },
    Write { path: String, text: String },
    /// Start a daemon, its output shown if `verbose`.
    Spawn { command: Invocation, verbose: bool },
    /// Wait for a path to appear, and fail with the message if it does not.
    WaitFor { path: String, message: String },
    /// Sleep that many milliseconds.
    Sleep { ms: u64 },
    /// Set a variable in this process's own environment.
    SetEnv { name: String, value: String },
}

/// A [`Step`] as plain text.
#[verifier::ext_equal]
#[allow(inconsistent_fields)]
pub enum StepView {
    CreateDir { path: Seq<char> },
    MakePrivate { path: Seq<char> },
    RemoveStale { path: Seq<char> },
    CopyRequired { from: Seq<char>, to: Seq<char> },
    CopyOptional { from: Seq<char>, to: Seq<char> },
    Write { path: Seq<char>, text: Seq<char> },
    Spawn { command: InvocationView, verbose: bool },
    WaitFor { path: Seq<char>, message: Seq<char> },
    Sleep { ms: u64 },
    SetEnv { name: Seq<char>, value: Seq<char> },
}

impl View for Step {
    type V = StepView;

    open spec fn view(&self) -> StepView {
        match *self {
            Step::CreateDir { path } => StepView::CreateDir { path: path@ },
            Step::MakePrivate { path } => StepView::MakePrivate { path: path@ },
            Step::RemoveStale { path } => StepView::RemoveStale { path: path@ },
            Step::CopyRequired { from, to } => StepView::CopyRequired { from: from@, to: to@ },
            Step::CopyOptional { from, to } => StepView::CopyOptional { from: from@, to: to@ },
            Step::Write { path, text } => StepView::Write { path: path@, text: text@ },
            Step::Spawn { command, verbose } => StepView::Spawn { command: command@, verbose },
            Step::WaitFor { path, message } => StepView::WaitFor {
                path: path@,
                message: message@,
            },
            Step::Sleep { ms } => StepView::Sleep { ms },
            Step::SetEnv { name, value } => StepView::SetEnv { name: name@, value: value@ },
        }
    }
}

/// What each step says.
pub open spec fn steps_view(steps: Seq<Step>) -> Seq<StepView> {
    steps.map_values(|s: Step| s@)
}

/// The longest that a path is waited for, in milliseconds.
pub const PATH_TIMEOUT_MS: u64 = 10_000;

/// How long to sleep between two looks for a path, in milliseconds.
pub const PATH_CHECK_MS: u64 = 200;

pub const SYSTEM_PIPEWIRE_CONF: &'static str = "/usr/share/pipewire/pipewire.conf";

pub const SYSTEM_PULSE_CONF: &'static str = "/usr/share/pipewire/pipewire-pulse.conf";

pub const NULL_SINK_CONF: &'static str =
    "context.objects = [\n    {\n        factory = adapter\n        args = {\n            factory.name     = support.null-audio-sink\n            node.name        = \"redfog-audio-sink\"\n            node.description = \"Redfog Virtual Audio\"\n            media.class      = \"Audio/Sink\"\n            audio.position   = [ FL FR ]\n        }\n    }\n]\n";

pub const UNRESTRICTED_ACCESS_CONF: &'static str =
    "module.access.args = {\n    access.socket = {\n        pipewire-0 = \"unrestricted\"\n        pipewire-0-manager = \"unrestricted\"\n    }\n}\n";

/// The daemon `program`, run against this runtime's own sockets and
/// configuration. All but PipeWire itself are told where PipeWire listens.
pub open spec fn daemon(
    program: Seq<char>,
    args: Seq<Seq<char>>,
    dir: Seq<char>,
    remote: Option<Seq<char>>,
    unset: Seq<Seq<char>>,
) -> InvocationView {
    InvocationView {
        program,
        args,
        clear_env: false,
        env: match remote {
            Some(socket) => seq![
                ("XDG_RUNTIME_DIR"@, dir),
                ("PIPEWIRE_REMOTE"@, socket),
                ("PIPEWIRE_CONFIG_DIR"@, joined(dir, "pipewire-config"@)),
            ],
            None => seq![
                ("XDG_RUNTIME_DIR"@, dir),
                ("PIPEWIRE_CONFIG_DIR"@, joined(dir, "pipewire-config"@)),
            ],
        },
        unset,
    }
}

/// The steps that bring PipeWire, WirePlumber and the PulseAudio server up in
/// the directory `dir`.
pub open spec fn startup(dir: Seq<char>, debug: bool) -> Seq<StepView> {
    let socket = joined(dir, "pipewire-0"@);
    let config = joined(dir, "pipewire-config"@);
    seq![
        StepView::CreateDir { path: dir },
        StepView::MakePrivate { path: dir },
        StepView::RemoveStale { path: socket },
        StepView::RemoveStale { path: socket + ".lock"@ },
        StepView::RemoveStale { path: joined(dir, "pipewire-0-manager"@) },
        StepView::RemoveStale { path: joined(dir, "pipewire-0-manager.lock"@) },
        StepView::CreateDir { path: joined(config, "pipewire.conf.d"@) },
        StepView::CopyRequired {
            from: SYSTEM_PIPEWIRE_CONF@,
            to: joined(config, "pipewire.conf"@),
        },
        StepView::CopyOptional {
            from: SYSTEM_PULSE_CONF@,
            to: joined(config, "pipewire-pulse.conf"@),
        },
        StepView::Write {
            path: joined(config, "pipewire.conf.d/98-redfog-null-sink.conf"@),
            text: NULL_SINK_CONF@,
        },
        StepView::Write {
            path: joined(config, "pipewire.conf.d/99-redfog-unrestricted-access.conf"@),
            text: UNRESTRICTED_ACCESS_CONF@,
        },
        StepView::Spawn {
            command: daemon(
                "pipewire"@,
                if debug {
                    seq!["-v"@, "-v"@]
                } else {
                    seq![]
                },
                dir,
                None,
                seq![],
            ),
            verbose: debug,
        },
        StepView::WaitFor {
            path: socket,
            message: "PipeWire socket did not appear within 10s"@,
        },
        StepView::Spawn {
            command: daemon("wireplumber"@, seq![], dir, Some(socket), seq![]),
            verbose: debug,
        },
        StepView::Spawn {
            command: daemon(
                "pipewire-pulse"@,
                if debug {
                    seq!["-v"@]
                } else {
                    seq![]
                },
                dir,
                Some(socket),
                seq!["PULSE_SERVER"@, "PULSE_RUNTIME_PATH"@],
            ),
            verbose: debug,
        },
        StepView::WaitFor {
            path: joined(dir, "pulse/native"@),
            message: "PipeWire-Pulse socket did not appear within 10s"@,
        },
        StepView::Sleep { ms: 1000 },
        StepView::SetEnv { name: "PIPEWIRE_REMOTE"@, value: socket },
    ]
}

/// Whether a file's mode is 0700 already.
pub open spec fn mode_is_private(mode: u32) -> bool {
    mode & 0o777 == 0o700
}

/// Whether a file's mode is 0700 already.
pub fn is_private(mode: u32) -> (r: bool)
    ensures
        r == mode_is_private(mode),
{
    mode & 0o777 == 0o700
}

/// A running set of daemons.
pub struct HeadlessRuntime {
    pub runtime_dir: String,
    pub pipewire_socket: String,
}

fn push_step(steps: &mut Vec<Step>, step: Step)
    ensures
        final(steps)@ == old(steps)@.push(step),
        steps_view(final(steps)@) == steps_view(old(steps)@).push(step@),
{
    steps.push(step);
    assert(steps_view(steps@) =~= steps_view(old(steps)@).push(step@));
}

fn daemon_command(program: &str, dir: &str, remote: Option<&str>) -> (command: Invocation)
    ensures
        command@ == daemon(
            program@,
            seq![],
            dir@,
            match remote {
                Some(r) => Some(r@),
                None => None,
            },
            seq![],
        ),
{
    let config = join_path(dir, "pipewire-config");
    let mut command = Invocation::new(program);
    command.env("XDG_RUNTIME_DIR", dir);
    if let Some(socket) = remote {
        command.env("PIPEWIRE_REMOTE", socket);
    }
    command.env("PIPEWIRE_CONFIG_DIR", config.as_str());
    command
}

impl HeadlessRuntime {
    /// The steps that bring the runtime up in `dir`, and what stands once they
    /// are done. With `debug` the daemons show what they do.
    pub fn start(dir: &str, debug: bool) -> (r: (HeadlessRuntime, Vec<Step>))
        ensures
            r.0.runtime_dir@ == dir@,
            r.0.pipewire_socket@ == joined(dir@, "pipewire-0"@),
            steps_view(r.1@) == startup(dir@, debug),
    {
        let socket = join_path(dir, "pipewire-0");
        let config = join_path(dir, "pipewire-config");
        let mut lock = socket.clone();
        lock.append(".lock");
        let mut steps: Vec<Step> = Vec::new();
        assert(steps_view(steps@) =~= seq![]);
        push_step(&mut steps, Step::CreateDir { path: dir.to_string() });
        push_step(&mut steps, Step::MakePrivate { path: dir.to_string() });
        push_step(&mut steps, Step::RemoveStale { path: socket.clone() });
        push_step(&mut steps, Step::RemoveStale { path: lock });
        push_step(&mut steps, Step::RemoveStale { path: join_path(dir, "pipewire-0-manager") });
        push_step(
            &mut steps,
            Step::RemoveStale { path: join_path(dir, "pipewire-0-manager.lock") },
        );
        push_step(
            &mut steps,
            Step::CreateDir { path: join_path(config.as_str(), "pipewire.conf.d") },
        );
        push_step(
            &mut steps,
            Step::CopyRequired {
                from: SYSTEM_PIPEWIRE_CONF.to_string(),
                to: join_path(config.as_str(), "pipewire.conf"),
            },
        );
        push_step(
            &mut steps,
            Step::CopyOptional {
                from: SYSTEM_PULSE_CONF.to_string(),
                to: join_path(config.as_str(), "pipewire-pulse.conf"),
            },
        );
        push_step(
            &mut steps,
            Step::Write {
                path: join_path(
                    config.as_str(),
                    "pipewire.conf.d/98-redfog-null-sink.conf",
                ),
                text: NULL_SINK_CONF.to_string(),
            },
        );
        push_step(
            &mut steps,
            Step::Write {
                path: join_path(
                    config.as_str(),
                    "pipewire.conf.d/99-redfog-unrestricted-access.conf",
                ),
                text: UNRESTRICTED_ACCESS_CONF.to_string(),
            },
        );
        let mut pipewire = daemon_command("pipewire", dir, None);
        if debug {
            pipewire.arg("-v");
            pipewire.arg("-v");
        }
        assert(pipewire@ =~= daemon(
            "pipewire"@,
            if debug {
                seq!["-v"@, "-v"@]
            } else {
                seq![]
            },
            dir@,
            None,
            seq![],
        ));
        push_step(&mut steps, Step::Spawn { command: pipewire, verbose: debug });
        push_step(
            &mut steps,
            Step::WaitFor {
                path: socket.clone(),
                message: "PipeWire socket did not appear within 10s".to_string(),
            },
        );
        let wireplumber = daemon_command("wireplumber", dir, Some(socket.as_str()));
        push_step(&mut steps, Step::Spawn { command: wireplumber, verbose: debug });
        let mut pulse = daemon_command("pipewire-pulse", dir, Some(socket.as_str()));
        pulse.unset("PULSE_SERVER");
        pulse.unset("PULSE_RUNTIME_PATH");
        if debug {
            pulse.arg("-v");
        }
        assert(pulse@ =~= daemon(
            "pipewire-pulse"@,
            if debug {
                seq!["-v"@]
            } else {
                seq![]
            },
            dir@,
            Some(socket@),
            seq!["PULSE_SERVER"@, "PULSE_RUNTIME_PATH"@],
        ));
        push_step(&mut steps, Step::Spawn { command: pulse, verbose: debug });
        push_step(
            &mut steps,
            Step::WaitFor {
                path: join_path(dir, "pulse/native"),
                message: "PipeWire-Pulse socket did not appear within 10s".to_string(),
            },
        );
        push_step(&mut steps, Step::Sleep { ms: 1000 });
        push_step(
            &mut steps,
            Step::SetEnv { name: "PIPEWIRE_REMOTE".to_string(), value: socket.clone() },
        );
        (HeadlessRuntime { runtime_dir: dir.to_string(), pipewire_socket: socket }, steps)
    }
}

/// Whether a step starts a daemon that is told to talk to PipeWire.
pub open spec fn talks_to_pipewire(step: StepView, socket: Seq<char>) -> bool {
    match step {
        StepView::Spawn { command, .. } => command.env.contains(("PIPEWIRE_REMOTE"@, socket)),
        _ => false,
    }
}

/// Whether a step waits for that path.
pub open spec fn waits_for(step: StepView, awaited: Seq<char>) -> bool {
    match step {
        StepView::WaitFor { path, .. } => path == awaited,
        _ => false,
    }
}

/// No daemon that talks to PipeWire is started before PipeWire's socket was
/// waited for.
pub proof fn law_pipewire_listens_first(dir: Seq<char>, debug: bool, i: int)
    requires
        0 <= i < startup(dir, debug).len(),
        talks_to_pipewire(startup(dir, debug)[i], joined(dir, "pipewire-0"@)),
    ensures
        exists|j: int|
            0 <= j < i && waits_for(#[trigger] startup(dir, debug)[j], joined(dir, "pipewire-0"@)),
{
    let socket = joined(dir, "pipewire-0"@);
    assert(waits_for(startup(dir, debug)[12], socket));
    if i < 12 {
        assert(i == 11);
        let command = startup(dir, debug)[11]->Spawn_command;
        let at = choose|at: int|
            0 <= at < command.env.len() && command.env[at] == ("PIPEWIRE_REMOTE"@, socket);
        reveal_strlit("PIPEWIRE_REMOTE");
        reveal_strlit("XDG_RUNTIME_DIR");
        reveal_strlit("PIPEWIRE_CONFIG_DIR");
        assert("PIPEWIRE_REMOTE"@[0] == 'P' && "XDG_RUNTIME_DIR"@[0] == 'X');
        assert("PIPEWIRE_REMOTE"@.len() == 15 && "PIPEWIRE_CONFIG_DIR"@.len() == 19);
        assert(command.env[at].0 == "PIPEWIRE_REMOTE"@);
        assert(false);
    }
}

/// What to do while a path has not appeared.
#[derive(Clone, Copy, Debug, PartialEq, Eq, Structural)]
pub enum PathWait {
    Found,
    /// Sleep that many milliseconds, and look again.
    Sleep(u64),
    TimedOut,
}

/// What to do `elapsed_ms` into a wait, after a look that found the path or did
/// not. Past the timeout it is not looked at any more.
pub fn wait_for_path(elapsed_ms: u64, timeout_ms: u64, found: bool) -> (r: PathWait)
    ensures
        r == if elapsed_ms >= timeout_ms {
            PathWait::TimedOut
        } else if found {
            PathWait::Found
        } else {
            PathWait::Sleep(PATH_CHECK_MS)
        },
{
    if elapsed_ms >= timeout_ms {
        PathWait::TimedOut
    } else if found {
        PathWait::Found
    } else {
        PathWait::Sleep(PATH_CHECK_MS)
    }
}

/// What went wrong with the runtime directory.
#[derive(Clone, Copy, Debug, PartialEq, Eq, Structural)]
pub enum DirFailure {
    Create,
    Stat,
    Chmod,
}

/// What is reported of a runtime directory that could not be prepared.
pub fn dir_failure(failure: DirFailure, dir: &str, error: &str) -> (message: String)
    ensures
        message@ == match failure {
            DirFailure::Create => "failed to create runtime dir "@ + path_debug_text(dir@) + ": "@
                + error@,
            DirFailure::Stat => "failed to stat runtime dir "@ + path_debug_text(dir@) + ": "@
                + error@,
            DirFailure::Chmod => "failed to chmod runtime dir "@ + path_debug_text(dir@)
                + " to 0700: "@ + error@,
        },
{
    let mut message = match failure {
        DirFailure::Create => "failed to create runtime dir ".to_string(),
        DirFailure::Stat => "failed to stat runtime dir ".to_string(),
        DirFailure::Chmod => "failed to chmod runtime dir ".to_string(),
    };
    message.append(quoted_path(dir).as_str());
    match failure {
        DirFailure::Chmod => message.append(" to 0700: "),
        _ => message.append(": "),
    }
    message.append(error);
    message
}

/// What is reported when the system's PipeWire configuration cannot be copied.
pub fn copy_failure(from: &str, config_dir: &str, error: &str) -> (message: String)
    ensures
        message@ == "failed to copy "@ + from@ + " into "@ + path_debug_text(config_dir@) + ": "@
            + error@,
{
    let mut message = "failed to copy ".to_string();
    message.append(from);
    message.append(" into ");
    message.append(quoted_path(config_dir).as_str());
    message.append(": ");
    message.append(error);
    message
}

/// What is reported when a program cannot be started.
pub fn spawn_failure(program: &str, error: &str) -> (message: String)
    ensures
        message@ == "failed to spawn "@ + program@ + ": "@ + error@,
{
    let mut message = "failed to spawn ".to_string();
    message.append(program);
    message.append(": ");
    message.append(error);
    message
}

/// The private session bus to start, unless this process runs under one that it
/// started itself.
pub fn ensure_private_dbus_session(already_setup: bool) -> (command: Option<Invocation>)
    ensures
        match command {
            None => already_setup,
            Some(c) => !already_setup && c@ == InvocationView::plain(
                "dbus-daemon"@,
                seq!["--session"@, "--print-address"@, "--nofork"@],
            ),
        },
{
    if already_setup {
        return None;
    }
    let mut command = Invocation::new("dbus-daemon");
    command.arg("--session");
    command.arg("--print-address");
    command.arg("--nofork");
    Some(command)
}

/// The bus address in the line that `dbus-daemon` printed; a blank line holds
/// none.
pub fn dbus_address(line: &str) -> (address: Option<String>)
    ensures
        match address {
            Some(a) => a@ == trimmed(line@) && a@.len() > 0,
            None => trimmed(line@).len() == 0,
        },
{
    let address = trim(line);
    if same_text(address.as_str(), "") {
        proof {
            reveal_strlit("");
        }
        None
    } else {
        proof {
            reveal_strlit("");
            if address@.len() == 0 {
                assert(address@ =~= ""@);
            }
        }
        Some(address)
    }
}

/// What `redfog-pipewire-session` was asked to run.
pub struct SessionCommand {
    pub runtime_dir: String,
    pub command: String,
    pub args: Vec<String>,
}

/// Whether arguments read `<runtime_dir> -- <command> [args...]`.
pub open spec fn names_a_command(args: Seq<Seq<char>>) -> bool {
    args.len() >= 3 && args[1] == "--"@
}

/// Reads `<runtime_dir> -- <command> [args...]`.
pub fn parse_session_command(args: &Vec<String>) -> (r: Option<SessionCommand>)
    ensures
        match r {
            Some(c) => {
                &&& names_a_command(texts(args@))
                &&& c.runtime_dir@ == texts(args@)[0]
                &&& c.command@ == texts(args@)[2]
                &&& texts(c.args@) == texts(args@).skip(3)
            },
            None => !names_a_command(texts(args@)),
        },
{
    if args.len() < 3 || !same_text(args[1].as_str(), "--") {
        return None;
    }
    let mut rest: Vec<String> = Vec::new();
    let mut i: usize = 3;
    assert(texts(rest@) =~= texts(args@).subrange(3, 3));
    while i < args.len()
        invariant
            3 <= i <= args@.len(),
            texts(rest@) == texts(args@).subrange(3, i as int),
        decreases args@.len() - i,
    {
        rest.push(args[i].clone());
        assert(texts(args@).subrange(3, i + 1) =~= texts(args@).subrange(3, i as int).push(
            texts(args@)[i as int],
        ));
        i += 1;
    }
    assert(texts(args@).subrange(3, args@.len() as int) =~= texts(args@).skip(3));
    Some(SessionCommand { runtime_dir: args[0].clone(), command: args[2].clone(), args: rest })
}

/// The virtual audio devices of a session.
pub struct AudioLoopback {
    /// What the session plays into.
    pub sink_name: String,
    /// What the session's sound is captured from.
    pub capture_name: String,
}

impl AudioLoopback {
    /// The devices of a session, the program that keeps them up, and the one
    /// that makes the session play into them.
    pub fn spawn(session_name: &str) -> (r: (AudioLoopback, Invocation, Invocation))
        ensures
            r.0.sink_name@ == "redfog-audio-sink-"@ + session_name@,
            r.0.capture_name@ == "redfog-audio-capture-"@ + session_name@,
            r.1@ == InvocationView::plain(
                "pw-loopback"@,
                seq![
                    "-n"@,
                    "redfog-audio-"@ + session_name@,
                    "--capture-props"@,
                    "media.class=Audio/Sink node.name="@ + r.0.sink_name@,
                    "--playback-props"@,
                    "media.class=Audio/Source node.name="@ + r.0.capture_name@,
                ],
            ),
            r.2@ == InvocationView::plain(
                "pw-metadata"@,
                seq![
                    "-n"@,
                    "default"@,
                    "0"@,
                    "default.configured.audio.sink"@,
                    "{\"name\":\""@ + r.0.sink_name@ + "\"}"@,
                ],
            ),
    {
        let mut sink_name = "redfog-audio-sink-".to_string();
        sink_name.append(session_name);
        let mut capture_name = "redfog-audio-capture-".to_string();
        capture_name.append(session_name);
        let mut loopback = Invocation::new("pw-loopback");
        loopback.arg("-n");
        let mut name = "redfog-audio-".to_string();
        name.append(session_name);
        loopback.arg(name.as_str());
        loopback.arg("--capture-props");
        let mut capture = "media.class=Audio/Sink node.name=".to_string();
        capture.append(sink_name.as_str());
        loopback.arg(capture.as_str());
        loopback.arg("--playback-props");
        let mut playback = "media.class=Audio/Source node.name=".to_string();
        playback.append(capture_name.as_str());
        loopback.arg(playback.as_str());
        let mut metadata = Invocation::new("pw-metadata");
        metadata.arg("-n");
        metadata.arg("default");
        metadata.arg("0");
        metadata.arg("default.configured.audio.sink");
        let mut value = "{\"name\":\"".to_string();
        value.append(sink_name.as_str());
        value.append("\"}");
        metadata.arg(value.as_str());
        (AudioLoopback { sink_name, capture_name }, loopback, metadata)
    }
}

/// Every daemon runs in the runtime's own directory and reads the configuration that
/// is written there; every daemon but PipeWire itself is told of PipeWire's socket;
/// and what they say is shown exactly where that is asked for.
pub proof fn law_daemons_keep_to_their_directory(dir: Seq<char>, debug: bool, i: int)
    requires
        0 <= i < startup(dir, debug).len(),
        startup(dir, debug)[i] is Spawn,
    ensures
        ({
            let command = startup(dir, debug)[i]->Spawn_command;
            &&& command.env.contains(("XDG_RUNTIME_DIR"@, dir))
            &&& command.env.contains(("PIPEWIRE_CONFIG_DIR"@, joined(dir, "pipewire-config"@)))
            &&& command.program == "pipewire"@ || command.env.contains(
                ("PIPEWIRE_REMOTE"@, joined(dir, "pipewire-0"@)),
            )
            &&& command.program == "pipewire-pulse"@ ==> command.unset == seq![
                "PULSE_SERVER"@,
                "PULSE_RUNTIME_PATH"@,
            ]
            &&& !command.clear_env
            &&& startup(dir, debug)[i]->Spawn_verbose == debug
            &&& !debug ==> command.args.len() == 0
        }),
{
    let command = startup(dir, debug)[i]->Spawn_command;
    let config = joined(dir, "pipewire-config"@);
    assert(i == 11 || i == 13 || i == 14);
    assert(command.env[0] == ("XDG_RUNTIME_DIR"@, dir));
    reveal_strlit("pipewire-pulse");
    reveal_strlit("wireplumber");
    reveal_strlit("pipewire");
    assert("pipewire-pulse"@.len() == 14 && "wireplumber"@.len() == 11 && "pipewire"@.len() == 8);
    if i == 11 {
        assert(command.env[1] == ("PIPEWIRE_CONFIG_DIR"@, config));
    } else {
        assert(command.env[1] == ("PIPEWIRE_REMOTE"@, joined(dir, "pipewire-0"@)));
        assert(command.env[2] == ("PIPEWIRE_CONFIG_DIR"@, config));
    }
}

/// Before the first daemon starts, the directory is there and private, the sockets
/// and locks that an earlier PipeWire may have left are gone, and the configuration
/// of PipeWire, the audio sink and the access to its sockets are in place.
pub proof fn law_the_directory_is_prepared_first(dir: Seq<char>, debug: bool)
    ensures
        ({
            let all = startup(dir, debug);
            let before = all.take(11);
            let config = joined(dir, "pipewire-config"@);
            &&& all[11] is Spawn && all[11]->Spawn_command.program == "pipewire"@
            &&& forall|j: int| 0 <= j < 11 ==> !((#[trigger] before[j]) is Spawn)
            &&& before[0] == (StepView::CreateDir { path: dir })
            &&& before[1] == (StepView::MakePrivate { path: dir })
            &&& before.contains(StepView::RemoveStale { path: joined(dir, "pipewire-0"@) })
            &&& before.contains(
                StepView::RemoveStale { path: joined(dir, "pipewire-0"@) + ".lock"@ },
            )
            &&& before.contains(StepView::RemoveStale { path: joined(dir, "pipewire-0-manager"@) })
            &&& before.contains(
                StepView::RemoveStale { path: joined(dir, "pipewire-0-manager.lock"@) },
            )
            &&& before.contains(
                StepView::CopyRequired {
                    from: "/usr/share/pipewire/pipewire.conf"@,
                    to: joined(config, "pipewire.conf"@),
                },
            )
            &&& before.contains(
                StepView::CopyOptional {
                    from: "/usr/share/pipewire/pipewire-pulse.conf"@,
                    to: joined(config, "pipewire-pulse.conf"@),
                },
            )
            &&& before.contains(
                StepView::Write {
                    path: joined(config, "pipewire.conf.d/98-redfog-null-sink.conf"@),
                    text: NULL_SINK_CONF@,
                },
            )
            &&& before.contains(
                StepView::Write {
                    path: joined(config, "pipewire.conf.d/99-redfog-unrestricted-access.conf"@),
                    text: UNRESTRICTED_ACCESS_CONF@,
                },
            )
        }),
{
    let all = startup(dir, debug);
    let before = all.take(11);
    assert(before[2] == all[2] && before[3] == all[3] && before[4] == all[4] && before[5] == all[5]
        && before[7] == all[7] && before[8] == all[8] && before[9] == all[9] && before[10]
        == all[10]);
}

/// The runtime is up once PipeWire's socket and then PulseAudio's were waited for;
/// last, this process is told where PipeWire listens.
pub proof fn law_the_sockets_are_waited_for_in_order(dir: Seq<char>, debug: bool)
    ensures
        ({
            let all = startup(dir, debug);
            &&& exists|i: int, j: int|
                0 <= i < j < all.len() - 1 && waits_for(
                    #[trigger] all[i],
                    joined(dir, "pipewire-0"@),
                ) && waits_for(#[trigger] all[j], joined(dir, "pulse/native"@))
            &&& all.last() == (StepView::SetEnv {
                name: "PIPEWIRE_REMOTE"@,
                value: joined(dir, "pipewire-0"@),
            })
        }),
{
    let all = startup(dir, debug);
    assert(waits_for(all[12], joined(dir, "pipewire-0"@)));
    assert(waits_for(all[15], joined(dir, "pulse/native"@)));
}

/// A directory is private where its owner may do everything with it and nobody else
/// anything, whatever else its mode says.
pub proof fn law_private_means_the_owner_alone(mode: u32)
    ensures
        mode_is_private(mode) <==> mode & 0o700 == 0o700 && mode & 0o070 == 0 && mode & 0o007 == 0,
{
    assert(mode & 0o777 == 0o700 <==> mode & 0o700 == 0o700 && mode & 0o070 == 0 && mode & 0o007
        == 0) by (bit_vector);
}

/// Arguments name a command exactly where a runtime directory, two dashes and the
/// command stand before whatever else there is.
pub proof fn law_commands_follow_two_dashes(
    args: Seq<Seq<char>>,
    dir: Seq<char>,
    command: Seq<char>,
    rest: Seq<Seq<char>>,
)
    ensures
        names_a_command(seq![dir, "--"@, command] + rest),
        names_a_command(args) ==> args.len() >= 3 && args == seq![args[0], "--"@, args[2]]
            + args.skip(3),
        args.len() < 3 ==> !names_a_command(args),
        args.len() >= 3 && args[1] != "--"@ ==> !names_a_command(args),
{
    if names_a_command(args) {
        assert(args =~= seq![args[0], "--"@, args[2]] + args.skip(3));
    }
}

/// A path is waited for ten seconds, as the messages say, and looked for five times in
/// each.
pub proof fn law_paths_are_waited_for_ten_seconds()
    ensures
        PATH_TIMEOUT_MS == 10 * 1000,
        5 * PATH_CHECK_MS == 1000,
{
}

/// A step says of paths, texts, commands and variables exactly what it holds.
pub proof fn law_steps_say_what_they_hold(step: Step)
    ensures
        match step {
            Step::CreateDir { path } => step@ is CreateDir && step@->CreateDir_path == path@,
            Step::MakePrivate { path } => step@ is MakePrivate && step@->MakePrivate_path == path@,
            Step::RemoveStale { path } => step@ is RemoveStale && step@->RemoveStale_path == path@,
            Step::CopyRequired { from, to } => step@ is CopyRequired && step@->CopyRequired_from
                == from@ && step@->CopyRequired_to == to@,
            Step::CopyOptional { from, to } => step@ is CopyOptional && step@->CopyOptional_from
                == from@ && step@->CopyOptional_to == to@,
            Step::Write { path, text } => step@ is Write && step@->Write_path == path@
                && step@->Write_text == text@,
            Step::Spawn { command, verbose } => step@ is Spawn && step@->Spawn_command == command@
                && step@->Spawn_verbose == verbose,
            Step::WaitFor { path, message } => step@ is WaitFor && step@->WaitFor_path == path@
                && step@->WaitFor_message == message@,
            Step::Sleep { ms } => step@ is Sleep && step@->Sleep_ms == ms,
            Step::SetEnv { name, value } => step@ is SetEnv && step@->SetEnv_name == name@
                && step@->SetEnv_value == value@,
        },
{
}

} // verus!
