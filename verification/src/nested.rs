//! A desktop that runs inside the compositor of a pipeline.

use vstd::prelude::*;

use crate::command::{Invocation, InvocationView};
use crate::paths::{join_path, joined};
use crate::runtime::PathWait;
use crate::text::{debug_list, opt_text, path_debug_text, quoted_list, quoted_path, texts};

verus! {

broadcast use crate::text::lemma_texts_push;

/// The render node that stands for rendering without a GPU.
pub const RENDER_NODE_SOFTWARE: &'static str = "software";

/// How long to sleep between two looks for the socket, in milliseconds.
pub const SOCKET_CHECK_MS: u64 = 50;

/// The desktop to run.
pub struct NestedSessionConfig {
    pub command: Vec<String>,
    pub desktop_name: String,
    pub glx_vendor: Option<String>,
}

impl Default for NestedSessionConfig {
    fn default() -> (c: Self)
        ensures
            texts(c.command@) == seq!["sway"@],
            c.desktop_name@ == "sway"@,
            c.glx_vendor is None,
    {
        let mut command: Vec<String> = Vec::new();
        command.push("sway".to_string());
        assert(texts(command@) =~= seq!["sway"@]);
        NestedSessionConfig { command, desktop_name: "sway".to_string(), glx_vendor: None }
    }
}

/// The desktop, on a session bus of its own, pointed at the compositor.
pub open spec fn nested_command(
    command: Seq<Seq<char>>,
    desktop_name: Seq<char>,
    glx_vendor: Option<Seq<char>>,
    runtime_dir: Seq<char>,
    socket_name: Seq<char>,
) -> InvocationView {
    let env = seq![
        ("XDG_RUNTIME_DIR"@, runtime_dir),
        ("WAYLAND_DISPLAY"@, socket_name),
        ("XDG_SESSION_TYPE"@, "wayland"@),
        ("XDG_SESSION_DESKTOP"@, desktop_name),
        ("XDG_CURRENT_DESKTOP"@, desktop_name),
        ("SWAYSOCK"@, runtime_dir + "/sway.socket"@),
    ];
    InvocationView {
        program: "dbus-run-session"@,
        args: seq!["--"@] + command,
        clear_env: false,
        env: match glx_vendor {
            Some(vendor) => env.push(("__GLX_VENDOR_LIBRARY_NAME"@, vendor)),
            None => env,
        },
        unset: seq![],
    }
}

/// The desktop to start in a compositor. One without a command is an error.
pub fn spawn_nested_session(
    config: &NestedSessionConfig,
    runtime_dir: &str,
    socket_name: &str,
) -> (r: Result<Invocation, String>)
    ensures
        match r {
            Ok(c) => {
                &&& config.command@.len() > 0
                &&& c@ == nested_command(
                    texts(config.command@),
                    config.desktop_name@,
                    opt_text(config.glx_vendor),
                    runtime_dir@,
                    socket_name@,
                )
            },
            Err(m) => {
                &&& config.command@.len() == 0
                &&& m@ == "NestedSessionConfig::command must not be empty"@
            },
        },
{
    if config.command.len() == 0 {
        return Err("NestedSessionConfig::command must not be empty".to_string());
    }
    let mut sway = runtime_dir.to_string();
    sway.append("/sway.socket");
    let mut c = Invocation::new("dbus-run-session");
    c.arg("--");
    c.args(&config.command);
    c.env("XDG_RUNTIME_DIR", runtime_dir);
    c.env("WAYLAND_DISPLAY", socket_name);
    c.env("XDG_SESSION_TYPE", "wayland");
    c.env("XDG_SESSION_DESKTOP", config.desktop_name.as_str());
    c.env("XDG_CURRENT_DESKTOP", config.desktop_name.as_str());
    c.env("SWAYSOCK", sway.as_str());
    if let Some(vendor) = &config.glx_vendor {
        c.env("__GLX_VENDOR_LIBRARY_NAME", vendor.as_str());
    }
    Ok(c)
}

/// What is reported when the desktop cannot be started.
pub fn nested_failure(config: &NestedSessionConfig, error: &str) -> (message: String)
    ensures
        message@ == "failed to spawn nested session "@ + debug_list(texts(config.command@)) + ": "@
            + error@,
{
    let mut message = "failed to spawn nested session ".to_string();
    message.append(quoted_list(&config.command).as_str());
    message.append(": ");
    message.append(error);
    message
}

/// What to do while the compositor's socket has not appeared.
pub fn wait_for_wayland_socket(timed_out: bool, found: bool) -> (r: PathWait)
    ensures
        r == if timed_out {
            PathWait::TimedOut
        } else if found {
            PathWait::Found
        } else {
            PathWait::Sleep(SOCKET_CHECK_MS)
        },
{
    if timed_out {
        PathWait::TimedOut
    } else if found {
        PathWait::Found
    } else {
        PathWait::Sleep(SOCKET_CHECK_MS)
    }
}

/// What is reported when the compositor's socket does not appear. `timeout` is
/// the text of the time that was waited.
pub fn socket_timeout(runtime_dir: &str, socket_name: &str, timeout: &str) -> (message: String)
    ensures
        message@ == path_debug_text(joined(runtime_dir@, socket_name@))
            + " did not appear within "@ + timeout@,
{
    let path = join_path(runtime_dir, socket_name);
    let mut message = quoted_path(path.as_str());
    message.append(" did not appear within ");
    message.append(timeout);
    message
}

/// A desktop is run word for word as it was given, on a session bus of its own, in
/// the runtime directory and on the socket of its compositor, and under its own
/// name; the GL vendor is set where one is given, and only there.
pub proof fn law_desktops_are_the_ones_asked_for(
    command: Seq<Seq<char>>,
    desktop_name: Seq<char>,
    glx_vendor: Option<Seq<char>>,
    runtime_dir: Seq<char>,
    socket_name: Seq<char>,
)
    ensures
        ({
            let c = nested_command(command, desktop_name, glx_vendor, runtime_dir, socket_name);
            &&& c.program == "dbus-run-session"@ && !c.clear_env && c.unset.len() == 0
            &&& c.args.len() == command.len() + 1 && c.args[0] == "--"@
            &&& c.args.skip(1) == command
            &&& c.env.contains(("XDG_RUNTIME_DIR"@, runtime_dir))
            &&& c.env.contains(("WAYLAND_DISPLAY"@, socket_name))
            &&& c.env.contains(("XDG_SESSION_DESKTOP"@, desktop_name))
            &&& c.env.contains(("XDG_CURRENT_DESKTOP"@, desktop_name))
            &&& c.env.contains(("SWAYSOCK"@, runtime_dir + "/sway.socket"@))
            &&& glx_vendor matches Some(vendor) ==> c.env.last() == (
                "__GLX_VENDOR_LIBRARY_NAME"@,
                vendor,
            )
            &&& glx_vendor is None ==> c.env.len() == 6
        }),
{
    let c = nested_command(command, desktop_name, glx_vendor, runtime_dir, socket_name);
    assert(c.args.skip(1) =~= command);
    assert(c.env[0] == ("XDG_RUNTIME_DIR"@, runtime_dir));
    assert(c.env[1] == ("WAYLAND_DISPLAY"@, socket_name));
    assert(c.env[3] == ("XDG_SESSION_DESKTOP"@, desktop_name));
    assert(c.env[4] == ("XDG_CURRENT_DESKTOP"@, desktop_name));
    assert(c.env[5] == ("SWAYSOCK"@, runtime_dir + "/sway.socket"@));
}

} // verus!
