//! Starting a headless KWin and attaching to it.

use vstd::prelude::*;

use crate::command::{Invocation, InvocationView};
use crate::frames::{as_unsigned, unsigned};
use crate::numbers::{decimal, push_decimal, push_signed, signed_decimal};
use crate::paths::{join_path, joined};
use crate::pipeline::{has_pipeline, VideoEncoder, VideoSink, VideoSource};
use crate::text::{follows, path_debug_text, quoted_path, same_text, texts};
use crate::units::{
    command_line, law_shell_reads_the_payload_back, write_command_line, ShellReader,
};

verus! {

broadcast use crate::text::lemma_texts_push;

/// What a compositor is started for.
#[derive(Clone, Debug, PartialEq, Eq)]
pub enum SessionType {
    Login,
    User(String),
}

/// A running compositor that has been attached to.
pub struct CompositorSession {
    pub session_type: SessionType,
    pub socket_name: String,
    pub socket_path: String,
    pub pipewire_node_id: u32,
    pub width: i32,
    pub height: i32,
    pub fps: u32,
}

/// Whether frames should be captured natively: a hardware encoder takes them,
/// and `REDFOG_NATIVE_CAPTURE` is not `0`.
pub open spec fn captures_natively(
    native_capture: Option<Seq<char>>,
    encoder: Option<VideoEncoder>,
) -> bool {
    &&& native_capture != Some("0"@)
    &&& encoder matches Some(e) && e != VideoEncoder::Software
}

impl CompositorSession {
    /// Whether `source` is what this session's frames come from.
    pub open spec fn is_source(
        self,
        native_capture: Option<Seq<char>>,
        encoder: Option<VideoEncoder>,
        source: VideoSource,
    ) -> bool {
        match source {
            VideoSource::KwinNativeDmaBuf { node_id, wayland_socket_path, width, height, fps } => {
                &&& captures_natively(native_capture, encoder)
                &&& node_id == self.pipewire_node_id
                &&& wayland_socket_path@ == self.socket_path@
                &&& width == unsigned(self.width)
                &&& height == unsigned(self.height)
                &&& fps == self.fps
            },
            VideoSource::PipeWireNode(node_id) => {
                &&& !captures_natively(native_capture, encoder)
                &&& node_id == self.pipewire_node_id
            },
            _ => false,
        }
    }

    /// The source that this session's frames come from, for an encoder or, with
    /// none, for a local window.
    pub fn video_source(
        &self,
        native_capture: Option<&str>,
        encoder: Option<VideoEncoder>,
    ) -> (source: VideoSource)
        ensures
            self.is_source(
                match native_capture {
                    Some(v) => Some(v@),
                    None => None,
                },
                encoder,
                source,
            ),
    {
        let disabled = match native_capture {
            Some(v) => same_text(v, "0"),
            None => false,
        };
        let hardware = match encoder {
            Some(VideoEncoder::Nvenc) => true,
            Some(VideoEncoder::Vulkan) => true,
            Some(VideoEncoder::NvencDirect) => true,
            _ => false,
        };
        if !disabled && hardware {
            VideoSource::KwinNativeDmaBuf {
                node_id: self.pipewire_node_id,
                wayland_socket_path: self.socket_path.clone(),
                width: as_unsigned(self.width),
                height: as_unsigned(self.height),
                fps: self.fps,
            }
        } else {
            VideoSource::PipeWireNode(self.pipewire_node_id)
        }
    }
}

/// A session's source suits what it is for: a local window, and every encoder
/// that has a pipeline, take it. Direct encoding takes it unless native capture
/// is switched off.
pub proof fn law_sources_suit_their_sinks(
    session: CompositorSession,
    native_capture: Option<Seq<char>>,
    encoder: Option<VideoEncoder>,
    source: VideoSource,
    bitrate_kbps: u32,
)
    requires
        session.is_source(native_capture, encoder, source),
    ensures
        encoder is None ==> has_pipeline(source, VideoSink::LocalDisplay),
        encoder matches Some(e) ==> (e == VideoEncoder::NvencDirect || has_pipeline(
            source,
            (VideoSink::Encode { encoder: e, bitrate_kbps }),
        )),
        encoder == Some(VideoEncoder::NvencDirect) && native_capture != Some("0"@)
            ==> source is KwinNativeDmaBuf,
{
}

/// How to start a compositor.
pub struct SpawnPlan {
    pub socket_path: String,
    /// Files that a compositor before it may have left behind.
    pub stale: Vec<String>,
    pub command: Invocation,
}

/// The one value that tells `kwin_wayland` what to run, which it splits into words
/// as a shell does: a single word as it stands, and several of them quoted.
pub open spec fn payload_value(payload: Seq<Seq<char>>) -> Seq<char> {
    if payload.len() == 1 {
        payload[0]
    } else {
        command_line(payload)
    }
}

/// The arguments that hand a payload to `kwin_wayland`.
pub open spec fn payload_arguments(payload: Seq<Seq<char>>) -> Seq<Seq<char>> {
    if payload.len() == 0 {
        seq![]
    } else {
        seq!["--exit-with-session"@, payload_value(payload)]
    }
}

/// A payload of several words reaches `kwin_wayland` as one value, in which it
/// finds every word again.
pub proof fn law_payload_keeps_its_words(payload: Seq<Seq<char>>)
    requires
        payload.len() > 1,
    ensures
        payload_arguments(payload).len() == 2,
        ShellReader::start().run(payload_arguments(payload)[1]).finished() == payload,
{
    law_shell_reads_the_payload_back(payload);
}

/// The start of `kwin_wayland` as a headless compositor of that size.
pub open spec fn kwin_command(
    runtime: Seq<char>,
    socket_name: Seq<char>,
    width: i32,
    height: i32,
    scale: Seq<char>,
    pipewire_remote: Seq<char>,
    software_gl: Seq<char>,
    payload: Seq<Seq<char>>,
) -> InvocationView {
    InvocationView {
        program: "kwin_wayland"@,
        args: seq![
            "--virtual"@,
            "--width"@,
            signed_decimal(width as int),
            "--height"@,
            signed_decimal(height as int),
            "--scale"@,
            scale,
            "--no-lockscreen"@,
            "--socket"@,
            socket_name,
            "--xwayland"@,
        ] + payload_arguments(payload),
        clear_env: false,
        env: seq![
            ("KWIN_PLATFORM"@, "virtual"@),
            ("KWIN_WAYLAND_NO_PERMISSION_CHECKS"@, "1"@),
            ("XDG_RUNTIME_DIR"@, runtime),
            ("PIPEWIRE_REMOTE"@, pipewire_remote),
            ("LIBGL_ALWAYS_SOFTWARE"@, software_gl),
        ],
        unset: seq![],
    }
}

/// Appends what hands a payload to `kwin_wayland`.
pub(crate) fn push_payload(command: &mut Invocation, payload: &Vec<String>)
    ensures
        final(command)@ == (InvocationView {
            args: old(command)@.args + payload_arguments(texts(payload@)),
            ..old(command)@
        }),
{
    if payload.len() > 0 {
        command.arg("--exit-with-session");
        if payload.len() == 1 {
            command.arg(payload[0].as_str());
        } else {
            command.arg(write_command_line(payload).as_str());
        }
    }
    assert(command@.args =~= old(command)@.args + payload_arguments(texts(payload@)));
    assert(command@ =~= InvocationView {
        args: old(command)@.args + payload_arguments(texts(payload@)),
        ..old(command)@
    });
}

impl CompositorSession {
    /// How to start a compositor on the socket `socket_name`. `scale` is the text of
    /// the scale factor; `software_gl` is the value for `LIBGL_ALWAYS_SOFTWARE`.
    pub fn spawn(
        runtime: &str,
        socket_name: &str,
        width: i32,
        height: i32,
        scale: &str,
        pipewire_remote: &str,
        software_gl: &str,
        payload: &Vec<String>,
    ) -> (plan: SpawnPlan)
        ensures
            plan.socket_path@ == joined(runtime@, socket_name@),
            texts(plan.stale@) == seq![
                joined(runtime@, socket_name@),
                joined(runtime@, socket_name@ + ".lock"@),
            ],
            plan.command@ == kwin_command(
                runtime@,
                socket_name@,
                width,
                height,
                scale@,
                pipewire_remote@,
                software_gl@,
                texts(payload@),
            ),
    {
        let socket_path = join_path(runtime, socket_name);
        let mut lock = socket_name.to_string();
        lock.append(".lock");
        let mut stale: Vec<String> = Vec::new();
        stale.push(socket_path.clone());
        stale.push(join_path(runtime, lock.as_str()));
        assert(texts(stale@) =~= seq![
            joined(runtime@, socket_name@),
            joined(runtime@, socket_name@ + ".lock"@),
        ]);
        let mut width_text = String::new();
        push_signed(&mut width_text, width as i64);
        assert(width_text@ =~= signed_decimal(width as int));
        let mut height_text = String::new();
        push_signed(&mut height_text, height as i64);
        assert(height_text@ =~= signed_decimal(height as int));
        let mut command = Invocation::new("kwin_wayland");
        command.env("KWIN_PLATFORM", "virtual");
        command.env("KWIN_WAYLAND_NO_PERMISSION_CHECKS", "1");
        command.env("XDG_RUNTIME_DIR", runtime);
        command.env("PIPEWIRE_REMOTE", pipewire_remote);
        command.env("LIBGL_ALWAYS_SOFTWARE", software_gl);
        command.arg("--virtual");
        command.arg("--width");
        command.arg(width_text.as_str());
        command.arg("--height");
        command.arg(height_text.as_str());
        command.arg("--scale");
        command.arg(scale);
        command.arg("--no-lockscreen");
        command.arg("--socket");
        command.arg(socket_name);
        command.arg("--xwayland");
        push_payload(&mut command, payload);
        assert(command@ =~= kwin_command(
            runtime@,
            socket_name@,
            width,
            height,
            scale@,
            pipewire_remote@,
            software_gl@,
            texts(payload@),
        ));
        SpawnPlan { socket_path, stale, command }
    }
}

/// The call that tells the session's services where the compositor is.
pub fn activation_environment(
    socket_name: &str,
    runtime: &str,
    pipewire_remote: &str,
) -> (command: Invocation)
    ensures
        command@ == InvocationView::plain(
            "dbus-update-activation-environment"@,
            seq![
                "--systemd"@,
                "WAYLAND_DISPLAY="@ + socket_name@,
                "XDG_RUNTIME_DIR="@ + runtime@,
                "PIPEWIRE_REMOTE="@ + pipewire_remote@,
            ],
        ),
{
    let mut command = Invocation::new("dbus-update-activation-environment");
    command.arg("--systemd");
    let mut a = "WAYLAND_DISPLAY=".to_string();
    a.append(socket_name);
    command.arg(a.as_str());
    let mut b = "XDG_RUNTIME_DIR=".to_string();
    b.append(runtime);
    command.arg(b.as_str());
    let mut c = "PIPEWIRE_REMOTE=".to_string();
    c.append(pipewire_remote);
    command.arg(c.as_str());
    command
}

/// How often a compositor's socket is looked for.
pub const SOCKET_CHECKS: u32 = 60;

/// How long to sleep between two looks, in milliseconds.
pub const SOCKET_CHECK_MS: u64 = 250;

/// What to do while a compositor comes up.
#[derive(Clone, Copy, Debug, PartialEq, Eq, Structural)]
pub enum WaitAction {
    /// The socket is there.
    Attach,
    /// Sleep that many milliseconds, and look again.
    Sleep(u64),
    /// Kill the compositor and report that its socket failed to appear.
    GiveUp,
}

/// Waits for a socket to appear, up to a number of looks.
pub struct SocketWait {
    checks_left: u32,
}

impl SocketWait {
    pub closed spec fn checks_left(self) -> nat {
        self.checks_left as nat
    }

    pub fn new() -> (wait: SocketWait)
        ensures
            wait.checks_left() == SOCKET_CHECKS,
    {
        SocketWait { checks_left: SOCKET_CHECKS }
    }

    /// What to do after a look that found the socket, or did not.
    pub fn checked(&mut self, found: bool) -> (action: WaitAction)
        ensures
            old(self).checks_left() == 0 ==> {
                &&& action == WaitAction::GiveUp
                &&& final(self).checks_left() == 0
            },
            old(self).checks_left() > 0 ==> {
                &&& action == if found {
                    WaitAction::Attach
                } else {
                    WaitAction::Sleep(SOCKET_CHECK_MS)
                }
                &&& final(self).checks_left() == old(self).checks_left() - 1
            },
    {
        if self.checks_left == 0 {
            return WaitAction::GiveUp;
        }
        self.checks_left = self.checks_left - 1;
        if found {
            WaitAction::Attach
        } else {
            WaitAction::Sleep(SOCKET_CHECK_MS)
        }
    }
}

/// What is reported when a compositor's socket does not appear.
pub fn socket_missing(socket_path: &str) -> (message: String)
    ensures
        message@ == "KWin Wayland socket "@ + path_debug_text(socket_path@)
            + " failed to appear"@,
{
    let mut message = "KWin Wayland socket ".to_string();
    message.append(quoted_path(socket_path).as_str());
    message.append(" failed to appear");
    message
}

/// Whether the compositor is to be killed together with the server: unless
/// `REDFOG_KILL_COMPOSITOR_WITH_SERVER` is `0`.
pub fn dies_with_server(kill_with_server: Option<&str>) -> (r: bool)
    ensures
        r == !(kill_with_server matches Some(v) && v@ == "0"@),
{
    match kill_with_server {
        Some(v) => !same_text(v, "0"),
        None => true,
    }
}

/// What a child does about its parent-death signal before it runs its program.
pub enum DeathSignal {
    /// Run the program.
    Proceed,
    /// Fail with the operating system's own error.
    OsError,
    /// Fail with this message.
    Mismatch(String),
    /// The parent died before the signal was armed: die too.
    Die,
}

/// Judges what arming the parent-death signal led to. `got` is the signal read
/// back, where that worked; the parents are the ids before and after.
pub fn maybe_die_with_parent(
    armed: bool,
    got: Option<i32>,
    sigkill: i32,
    parent_before: i32,
    parent_after: i32,
) -> (r: DeathSignal)
    ensures
        match r {
            DeathSignal::OsError => !armed || got is None,
            DeathSignal::Mismatch(m) => {
                &&& armed && got is Some && got != Some(sigkill)
                &&& m@
                    == "PR_SET_PDEATHSIG(SIGKILL) reported success but PR_GET_PDEATHSIG reads back "@
                    + signed_decimal(got->Some_0 as int) + " instead of "@ + signed_decimal(
                    sigkill as int,
                )
            },
            DeathSignal::Die => armed && got == Some(sigkill) && parent_before != parent_after,
            DeathSignal::Proceed => armed && got == Some(sigkill) && parent_before == parent_after,
        },
{
    if !armed {
        return DeathSignal::OsError;
    }
    match got {
        None => DeathSignal::OsError,
        Some(signal) => {
            if signal != sigkill {
                let mut m =
                    "PR_SET_PDEATHSIG(SIGKILL) reported success but PR_GET_PDEATHSIG reads back ".to_string();
                push_signed(&mut m, signal as i64);
                m.append(" instead of ");
                push_signed(&mut m, sigkill as i64);
                return DeathSignal::Mismatch(m);
            }
            if parent_before != parent_after {
                DeathSignal::Die
            } else {
                DeathSignal::Proceed
            }
        },
    }
}

/// The name that the streaming engine of process `pid` goes by.
pub fn streaming_client_name(pid: u32) -> (name: String)
    ensures
        name@ == "redfog-streaming-engine-"@ + decimal(pid as nat),
{
    let mut name = "redfog-streaming-engine-".to_string();
    push_decimal(&mut name, pid as u64);
    name
}

/// Frames are captured natively exactly for an encoder other than the software one,
/// and not where native capture is switched off; they come from the session's own
/// node either way, and a native source also has the session's socket, size and
/// frame rate.
pub proof fn law_sources_are_the_sessions_own(
    session: CompositorSession,
    native_capture: Option<Seq<char>>,
    encoder: Option<VideoEncoder>,
    source: VideoSource,
)
    requires
        session.is_source(native_capture, encoder, source),
    ensures
        source is KwinNativeDmaBuf <==> native_capture != Some("0"@) && (encoder
            == Some(VideoEncoder::Nvenc) || encoder == Some(VideoEncoder::Vulkan) || encoder
            == Some(VideoEncoder::NvencDirect)),
        source is PipeWireNode <==> !(source is KwinNativeDmaBuf),
        source matches VideoSource::PipeWireNode(node) ==> node == session.pipewire_node_id,
        (source matches VideoSource::KwinNativeDmaBuf {
            node_id,
            wayland_socket_path,
            width,
            height,
            fps,
        } ==> node_id == session.pipewire_node_id && wayland_socket_path@ == session.socket_path@
            && (session.width >= 0 ==> width == session.width) && (session.height >= 0 ==> height
            == session.height) && fps == session.fps),
{
}

/// A compositor is started with the wanted width behind `--width`, the wanted height
/// behind `--height`, the wanted scale behind `--scale` and its socket behind
/// `--socket`, in its runtime directory and on the wanted PipeWire; and it ends with
/// its payload, which is one argument behind `--exit-with-session`, or none.
pub proof fn law_compositors_are_the_ones_asked_for(
    runtime: Seq<char>,
    socket_name: Seq<char>,
    width: i32,
    height: i32,
    scale: Seq<char>,
    pipewire_remote: Seq<char>,
    software_gl: Seq<char>,
    payload: Seq<Seq<char>>,
)
    ensures
        ({
            let c = kwin_command(
                runtime,
                socket_name,
                width,
                height,
                scale,
                pipewire_remote,
                software_gl,
                payload,
            );
            &&& c.program == "kwin_wayland"@ && !c.clear_env && c.unset.len() == 0
            &&& follows(c.args, "--width"@, signed_decimal(width as int))
            &&& follows(c.args, "--height"@, signed_decimal(height as int))
            &&& follows(c.args, "--scale"@, scale)
            &&& follows(c.args, "--socket"@, socket_name)
            &&& c.env.contains(("XDG_RUNTIME_DIR"@, runtime))
            &&& c.env.contains(("PIPEWIRE_REMOTE"@, pipewire_remote))
            &&& c.env.contains(("LIBGL_ALWAYS_SOFTWARE"@, software_gl))
            &&& payload.len() == 0 ==> c.args.len() == 11
            &&& payload.len() > 0 ==> c.args.len() == 13 && c.args[11] == "--exit-with-session"@
            &&& payload.len() == 1 ==> c.args[12] == payload[0]
            &&& payload.len() > 1 ==> ShellReader::start().run(c.args[12]).finished() == payload
        }),
{
    let c = kwin_command(
        runtime,
        socket_name,
        width,
        height,
        scale,
        pipewire_remote,
        software_gl,
        payload,
    );
    assert(c.args[1] == "--width"@ && c.args[2] == signed_decimal(width as int));
    assert(c.args[3] == "--height"@ && c.args[4] == signed_decimal(height as int));
    assert(c.args[5] == "--scale"@ && c.args[6] == scale);
    assert(c.args[8] == "--socket"@ && c.args[9] == socket_name);
    assert(c.env[2] == ("XDG_RUNTIME_DIR"@, runtime));
    assert(c.env[3] == ("PIPEWIRE_REMOTE"@, pipewire_remote));
    assert(c.env[4] == ("LIBGL_ALWAYS_SOFTWARE"@, software_gl));
    if payload.len() > 1 {
        law_shell_reads_the_payload_back(payload);
    }
}

/// A socket is looked for every quarter of a second, for a quarter of a minute in all.
pub proof fn law_compositors_have_a_quarter_of_a_minute()
    ensures
        SOCKET_CHECK_MS == 250,
        SOCKET_CHECKS * SOCKET_CHECK_MS == 15_000,
{
}

} // verus!
