use redfog::accounts::{getent_command, resolve_user, Getent, UserEntry};
use redfog::broker::{
    authenticate, read_line, read_response, respond, socket_path, write_line, BrokerRequest, BrokerResponse, Pam,
    SpawnedSession, Topic,
};
use redfog::command::Invocation;
use redfog::compositor::WaitAction;
use redfog::paths::default_runtime_dir;
use redfog::sessions::{
    fake_socket_missing, fake_spawn_wait, pulse_socket_path, redfog_server_user, run_loginctl, run_systemctl, scope_kill, session_init_path,
    session_paths, spawn_fake, unit_is_active, ActiveSession, Ending, Peek, Ran, SessionManager, Teardown,
};
use redfog::spawning::{
    chown_failure, file_failure, session_config_path, spawn_via_systemd,
    step_command, unit_failure, ConfigFile, FileFailure, SpawnInputs, SpawnStep,
};
use redfog::units::{shell_quote, write_session_script};

fn strings(parts: &[&str]) -> Vec<String> {
    parts.iter().map(|s| s.to_string()).collect()
}

fn argv(c: &Invocation) -> Vec<String> {
    let mut all = vec![c.program.clone()];
    all.extend(c.args.iter().cloned());
    all
}

#[test]
fn always_rooted_at_default_runtime_dir_not_a_session_dir() {
    let dir = default_runtime_dir(Some("/tmp/redfog-runtime-test-marker".to_string()));
    assert_eq!(pulse_socket_path(&dir), "/tmp/redfog-runtime-test-marker/pulse/native");
    assert_eq!(session_paths(&dir, "7", "wayland-0").pulse_socket_path, "/tmp/redfog-runtime-test-marker/pulse/native");
}

#[test]
fn answers_are_about_what_was_asked() {
    let request = BrokerRequest::TerminateSession { session_id: "1".to_string() };
    assert_eq!(
        respond(request.topic(), Err("no active session 1".to_string())),
        BrokerResponse::TerminateSession(Err("no active session 1".to_string()))
    );
    assert_eq!(respond(Topic::Authenticate, Ok(None)), BrokerResponse::Authenticate(Ok(())));
    assert_eq!(respond(Topic::SpawnPayload, Ok(None)), BrokerResponse::SpawnPayload(Ok(())));
    assert_eq!(
        respond(Topic::SpawnSession, Ok(Some("/run/w".to_string()))),
        BrokerResponse::SpawnSession(Ok(SpawnedSession { wayland_socket_path: "/run/w".to_string() }))
    );
    assert_eq!(respond(Topic::SpawnSession, Err("x".to_string())), BrokerResponse::SpawnSession(Err("x".to_string())));
    let auth = BrokerRequest::Authenticate { username: "u".to_string(), password: "p".to_string() };
    assert_eq!(auth.topic(), Topic::Authenticate);
}

#[test]
fn lines_round_trip() {
    let line = write_line("{\"a\":1}");
    assert_eq!(line, "{\"a\":1}\n");
    assert_eq!(read_line(&line).as_deref(), Some("{\"a\":1}"));
    assert_eq!(read_line("{}\r\n").as_deref(), Some("{}"));
    assert_eq!(read_line("\n").as_deref(), Some(""));
    assert_eq!(read_line(""), None);
    assert_eq!(read_response(""), Err("peer closed".to_string()));
    assert_eq!(read_response("x\n"), Ok("x".to_string()));
}

#[test]
fn pam_decides_who_signs_in() {
    assert_eq!(authenticate(Pam::Skipped), Ok(()));
    assert_eq!(authenticate(Pam::Accepted), Ok(()));
    assert_eq!(authenticate(Pam::Panicked("e".to_string())), Err("PAM auth task panicked: e".to_string()));
    assert_eq!(authenticate(Pam::InitFailed("e".to_string())), Err("failed to init PAM client: e".to_string()));
    assert_eq!(authenticate(Pam::Refused("e".to_string())), Err("authentication failed: e".to_string()));
    assert_eq!(socket_path(None), "/tmp/redfog-runtime/broker.sock");
    assert_eq!(socket_path(Some("/b".to_string())), "/b");
}

fn printed(line: &str) -> Result<UserEntry, String> {
    resolve_user("me", Getent::Printed(line.to_string()))
}

#[test]
fn password_entries_are_read() {
    assert_eq!(argv(&getent_command("me")), ["getent", "passwd", "me"]);
    let e = printed("me:x:1000:1001:Me, myself:/home/me:/bin/sh\n").unwrap();
    assert_eq!((e.uid, e.gid, e.home.as_str(), e.shell.as_str()), (1000, 1001, "/home/me", "/bin/sh"));
    let more = printed(" me:x:0:0::/:/bin/sh:extra ").unwrap();
    assert_eq!((more.uid, more.home.as_str(), more.shell.as_str()), (0, "/", "/bin/sh"));
}

#[test]
fn broken_password_entries_are_errors() {
    let error = |line: &str| printed(line).err().unwrap();
    assert_eq!(error("me:x:1\n"), "could not parse getent passwd me output: \"me:x:1\\n\"");
    assert_eq!(error("me:x:1:2:g::/bin/sh\n"), "empty home directory in getent passwd me output: \"me:x:1:2:g::/bin/sh\\n\"");
    assert_eq!(error("me:x:a:2:g:/h:/s"), "invalid uid in getent passwd me output: invalid digit found in string");
    assert_eq!(
        error("me:x:1:4294967296:g:/h:/s"),
        "invalid gid in getent passwd me output: number too large to fit in target type"
    );
    assert_eq!(
        resolve_user("me", Getent::NotRun("gone".to_string())).err().unwrap(),
        "failed to run getent passwd me: gone"
    );
    assert_eq!(
        resolve_user("me", Getent::Failed("exit status: 2".to_string())).err().unwrap(),
        "getent passwd me exited with exit status: 2"
    );
}

#[test]
fn words_are_quoted_for_the_shell() {
    assert_eq!(shell_quote("plasmashell"), "'plasmashell'");
    assert_eq!(shell_quote("it's"), "'it'\\''s'");
    assert_eq!(shell_quote(""), "''");
    assert_eq!(shell_quote("$HOME `x` \"y\""), "'$HOME `x` \"y\"'");
}

#[test]
fn the_session_script_is_written_in_full() {
    let (path, text) = write_session_script("/run/r", "wl-0", "/run/pw", "/run/pulse", &strings(&["a b", "c'd"]));
    assert_eq!(path, "/run/r/session-start.sh");
    assert_eq!(
        text,
        "#!/bin/sh\nexport PULSE_SERVER=unix:/run/pulse\ndbus-update-activation-environment --systemd WAYLAND_DISPLAY=wl-0 XDG_RUNTIME_DIR=/run/r PIPEWIRE_REMOTE=/run/pw PULSE_SERVER=unix:/run/pulse\nexec 'a b' 'c'\\''d'\n"
    );
}

fn inputs() -> SpawnInputs {
    SpawnInputs {
        root: "/run/redfog".to_string(),
        paths: session_paths("/run/redfog", "42", "wl-1"),
        username: "me".to_string(),
        width: 1920,
        height: 1080,
        socket_name: "wl-1".to_string(),
        payload: strings(&["plasmashell", "--no-respawn"]),
        broker_user: Ok("root".to_string()),
        server_user: Some("redfog".to_string()),
        session_init: Ok("/usr/bin/redfog-session-init".to_string()),
        kwin_path: "kwin_wayland".to_string(),
        sandbox: Some(strings(&["bwrap", "--"])),
        user: Ok(UserEntry { uid: 1000, gid: 1000, home: "/home/me".to_string(), shell: "/bin/zsh".to_string() }),
        logging_rules: Some("kwin*=true".to_string()),
    }
}

fn shown(step: &SpawnStep) -> String {
    match step {
        SpawnStep::CreateDir { path } => format!("mkdir {path}"),
        SpawnStep::WriteScript { path, .. } => format!("script {path}"),
        SpawnStep::WriteUnit { path, .. } => format!("unit {path}"),
        SpawnStep::Track { unit_name } => format!("track {unit_name}"),
        SpawnStep::Fail { message } => format!("fail {message}"),
        other => argv(&step_command(other).unwrap()).join(" "),
    }
}

#[test]
fn a_session_is_started_step_by_step() {
    let steps = spawn_via_systemd(&inputs());
    let shown: Vec<String> = steps.iter().map(shown).collect();
    assert_eq!(
        shown,
        [
            "mkdir /run/redfog/session-42",
            "chown me /run/redfog/session-42",
            "setfacl -m u:me:x /run/redfog",
            "setfacl -m u:me:rw /run/redfog/pipewire-0",
            "setfacl -m u:me:x /run/redfog/pulse",
            "setfacl -m u:me:rw /run/redfog/pulse/native",
            "setfacl -m u:redfog:x /run/redfog",
            "script /run/redfog/session-42/session-start.sh",
            "unit /run/systemd/system/redfog-session-42.socket",
            "unit /run/systemd/system/redfog-session-42.service",
            "systemctl daemon-reload",
            "systemctl start redfog-session-42.socket",
            "setfacl -m u:me:rw /run/redfog/session-42/wl-1",
            "setfacl -m u:redfog:rw /run/redfog/session-42/wl-1",
            "systemctl start redfog-session-42.service",
            "track redfog-session-42",
        ]
    );
    match (&steps[8], &steps[9]) {
        (SpawnStep::WriteUnit { text: socket, .. }, SpawnStep::WriteUnit { text: service, .. }) => {
            assert_eq!(socket, "[Socket]\nListenStream=/run/redfog/session-42/wl-1\nSocketUser=root\nSocketMode=0660\n");
            assert_eq!(
                service,
                "[Service]\nType=simple\nWorkingDirectory=/home/me\nEnvironment=HOME=/home/me\nEnvironment=SHELL=/bin/zsh\n\
                 Environment=USER=me\nEnvironment=LOGNAME=me\nEnvironment=XDG_RUNTIME_DIR=/run/redfog/session-42\n\
                 Environment=PIPEWIRE_REMOTE=/run/redfog/pipewire-0\nEnvironment=PULSE_SERVER=unix:/run/redfog/pulse/native\n\
                 Environment=KWIN_PLATFORM=virtual\nEnvironment=KWIN_WAYLAND_NO_PERMISSION_CHECKS=1\n\
                 Environment=LIBGL_ALWAYS_SOFTWARE=1\nEnvironment=XDG_SESSION_TYPE=wayland\nEnvironment=XDG_CURRENT_DESKTOP=KDE\n\
                 Environment=DESKTOP_SESSION=plasma\nEnvironment=KDE_FULL_SESSION=true\nEnvironment=KDE_SESSION_VERSION=6\n\
                 Environment=XDG_DATA_DIRS=/usr/local/share:/usr/share\nEnvironment=XDG_CONFIG_DIRS=/etc/xdg\n\
                 Environment=XDG_MENU_PREFIX=plasma-\nEnvironment=QT_LOGGING_RULES=kwin*=true\n\
                 ExecStart=bwrap -- /usr/bin/redfog-session-init me -- dbus-run-session -- kwin_wayland --virtual --width 1920 \
                 --height 1080 --scale 1 --no-lockscreen --wayland-fd 3 --socket wl-1 --xwayland --exit-with-session \
                 /run/redfog/session-42/session-start.sh\n"
            );
        }
        _ => panic!("expected two units"),
    }
}

#[test]
fn what_cannot_be_found_out_ends_the_steps_where_it_is_needed() {
    let last = |i: &SpawnInputs| {
        let steps = spawn_via_systemd(i);
        (steps.len(), shown(steps.last().unwrap()))
    };
    let mut i = inputs();
    i.broker_user = Err("not set".to_string());
    assert_eq!(last(&i), (3, "fail failed to determine broker's own username: not set".to_string()));
    let mut i = inputs();
    i.session_init = Err("no exe".to_string());
    assert_eq!(last(&i), (8, "fail no exe".to_string()));
    let mut i = inputs();
    i.user = Err("no user".to_string());
    assert_eq!(last(&i), (9, "fail no user".to_string()));
    let mut i = inputs();
    i.payload = vec![];
    i.server_user = None;
    i.sandbox = None;
    i.logging_rules = None;
    assert_eq!(last(&i), (13, "track redfog-session-42".to_string()));
}

#[test]
fn failures_are_reported() {
    assert_eq!(file_failure(FileFailure::Create, "/d", "e"), "failed to create /d: e");
    assert_eq!(file_failure(FileFailure::Write, "/d", "e"), "failed to write /d: e");
    assert_eq!(file_failure(FileFailure::Stat, "/d", "e"), "failed to stat /d: e");
    assert_eq!(file_failure(FileFailure::Chmod, "/d", "e"), "failed to chmod /d: e");
    assert_eq!(unit_failure("/u\"", "e"), format!("failed to write {:?}: e", std::path::Path::new("/u\"")));
    assert_eq!(chown_failure("/d", "me", Some("exit status: 1"), "no"), "chown /d to me exited with exit status: 1: no");
    assert_eq!(chown_failure("/d", "me", None, "no"), "failed to run chown on /d: no");
    let args = strings(&["stop", "x.socket"]);
    assert_eq!(run_systemctl(&args, Ran::Worked), Ok(()));
    assert_eq!(run_systemctl(&args, Ran::Failed("bad".to_string())), Err("systemctl [\"stop\", \"x.socket\"] failed: bad".to_string()));
    assert_eq!(
        run_loginctl(&args, Ran::NotRun("gone".to_string())),
        Err("failed to run loginctl [\"stop\", \"x.socket\"]: gone".to_string())
    );
}

#[test]
fn a_payload_is_let_in_and_started() {
    let user = Ok(UserEntry { uid: 1, gid: 1, home: "/home/me".to_string(), shell: "/bin/sh".to_string() });
    let init = Ok("/init".to_string());
    let env = vec![("WAYLAND_DISPLAY".to_string(), "wl".to_string())];
    let (grants, spawn) = SessionManager::spawn_payload("9", 77, "me", "/s/wl", "/s", &strings(&["sway"]), &env, &user, &init);
    let grants: Vec<String> = grants.iter().map(|g| argv(g).join(" ")).collect();
    assert_eq!(grants, ["setfacl -m u:me:rwx /s", "setfacl -d -m u:me:rwx /s", "setfacl -m u:me:rw /s/wl"]);
    let spawn = spawn.ok().unwrap();
    assert_eq!(spawn.unit_name, "redfog-payload-session-77-9");
    assert_eq!(spawn.working_dir, "/home/me");
    assert!(spawn.command.clear_env);
    assert_eq!(
        argv(&spawn.command).join(" "),
        "systemd-run --scope --collect --unit=redfog-payload-session-77-9 -- /init me -- sway"
    );
    let env: Vec<String> = spawn.command.env.iter().map(|(k, v)| format!("{k}={v}")).collect();
    assert_eq!(
        env,
        ["HOME=/home/me", "USER=me", "LOGNAME=me", "PATH=/usr/local/sbin:/usr/local/bin:/usr/bin", "WAYLAND_DISPLAY=wl"]
    );
    let (none, failed) = SessionManager::spawn_payload("9", 1, "me", "", "", &vec![], &vec![], &Err("no user".to_string()), &init);
    assert!(none.is_empty());
    assert_eq!(failed.err().unwrap(), "no user");
    let (some, failed) = SessionManager::spawn_payload("9", 1, "me", "", "", &vec![], &vec![], &user, &Err("no init".to_string()));
    assert_eq!(some.len(), 3);
    assert_eq!(failed.err().unwrap(), "no init");
}

#[test]
fn a_users_own_session_is_read() {
    let user = || Ok(UserEntry { uid: 1, gid: 1, home: "/home/me".to_string(), shell: "/bin/sh".to_string() });
    assert_eq!(session_config_path("/home/me"), "/home/me/.config/redfog/session.toml");
    assert_eq!(SessionManager::read_user_session_config(user(), ConfigFile::Parsed(5)), Ok(Some(5)));
    assert_eq!(SessionManager::read_user_session_config::<u8>(user(), ConfigFile::Missing), Ok(None));
    assert_eq!(
        SessionManager::read_user_session_config::<u8>(user(), ConfigFile::Unreadable("e".to_string())),
        Err("failed to read \"/home/me/.config/redfog/session.toml\": e".to_string())
    );
    assert_eq!(
        SessionManager::read_user_session_config::<u8>(user(), ConfigFile::Malformed("e".to_string())),
        Err("failed to parse \"/home/me/.config/redfog/session.toml\": e".to_string())
    );
    assert_eq!(SessionManager::read_user_session_config(Err("no user".to_string()), ConfigFile::Parsed(5)), Err("no user".to_string()));
}

fn taken_down(steps: &[Teardown]) -> Vec<String> {
    steps
        .iter()
        .map(|s| match s {
            Teardown::Systemctl { args, must } => format!("systemctl {} {must}", args.join(" ")),
            Teardown::RemoveFile { path } => format!("rm {path}"),
        })
        .collect()
}

#[test]
fn sessions_come_and_go() {
    let mut m = SessionManager::new();
    assert!(matches!(m.peek("a"), Peek::Unknown));
    m.insert("a", ActiveSession::DirectChild { child: 1 });
    m.insert("b", ActiveSession::Systemd { unit_name: "u".to_string() });
    m.insert("c", ActiveSession::Scoped { child: 3, unit_name: "s".to_string() });
    assert!(matches!(m.peek("a"), Peek::Child(1)));
    assert!(matches!(m.peek("b"), Peek::Unit(u) if u == "u"));
    assert!(matches!(m.peek("c"), Peek::Child(3)));
    m.insert("a", ActiveSession::DirectChild { child: 9 });
    assert!(matches!(m.terminate("a"), Ok(Ending::KillChild(9))));
    assert_eq!(m.terminate("a").err().unwrap(), "no active session a");
    match m.terminate("b") {
        Ok(Ending::StopUnits(steps)) => assert_eq!(
            taken_down(&steps),
            [
                "systemctl stop u.socket true",
                "systemctl stop u.service true",
                "rm /run/systemd/system/u.socket",
                "rm /run/systemd/system/u.service",
                "systemctl daemon-reload true",
            ]
        ),
        _ => panic!("expected units"),
    }
    assert!(matches!(m.terminate("c"), Ok(Ending::KillScope { child: 3, unit_name }) if unit_name == "s"));
    assert!(m.remove("c").is_none());
}

#[test]
fn dead_sessions_are_forgotten() {
    let mut m = SessionManager::new();
    m.insert("a", ActiveSession::DirectChild { child: 1 });
    m.insert("b", ActiveSession::Systemd { unit_name: "u".to_string() });
    let peek = m.peek("a");
    assert!(m.is_session_alive("a", peek, true).0);
    let peek = m.peek("a");
    assert!(!m.is_session_alive("a", peek, false).0);
    assert!(matches!(m.peek("a"), Peek::Unknown));
    assert!(!m.is_session_alive("a", Peek::Unknown, true).0);
    let peek = m.peek("b");
    let (alive, steps) = m.is_session_alive("b", peek, true);
    assert!(alive && steps.is_empty());
    let peek = m.peek("b");
    let (alive, steps) = m.is_session_alive("b", peek, false);
    assert!(!alive);
    assert_eq!(
        taken_down(&steps),
        [
            "systemctl stop u.socket false",
            "rm /run/systemd/system/u.socket",
            "rm /run/systemd/system/u.service",
            "systemctl daemon-reload false",
        ]
    );
    assert!(matches!(m.peek("b"), Peek::Unknown));
    assert_eq!(unit_is_active("u"), ["is-active", "--quiet", "u.service"]);
}

#[test]
fn payloads_are_killed_by_session_or_by_scope() {
    assert_eq!(argv(&scope_kill("s", Some("c14"))).join(" "), "loginctl kill-session c14 --signal=SIGKILL --kill-whom=all");
    assert_eq!(argv(&scope_kill("s", None)).join(" "), "systemctl kill --kill-who=all --signal=SIGKILL s.scope");
}

#[test]
fn a_faked_session_is_the_brokers_own_child() {
    let paths = session_paths("/r", "1", "wl");
    let c = spawn_fake(None, &paths, 800, 600, "wl", &strings(&["app", "-x"]));
    assert_eq!(
        argv(&c).join(" "),
        "kwin_wayland --virtual --width 800 --height 600 --scale 1 --no-lockscreen --socket wl --xwayland --exit-with-session 'app' '-x'"
    );
    assert!(!c.clear_env);
    assert!(c.env.contains(&("PULSE_SERVER".to_string(), "unix:/r/pulse/native".to_string())));
    assert!(c.env.contains(&("XDG_RUNTIME_DIR".to_string(), "/r/session-1".to_string())));
    assert_eq!(spawn_fake(Some("/k".to_string()), &paths, 1, 1, "wl", &vec![]).program, "/k");
    assert_eq!(fake_spawn_wait(true, 99_000_000_000), WaitAction::Attach);
    assert_eq!(fake_spawn_wait(false, 15_000_000_000), WaitAction::Sleep(250));
    assert_eq!(fake_spawn_wait(false, 15_000_000_001), WaitAction::GiveUp);
    assert_eq!(fake_socket_missing("/r/wl"), "KWin Wayland socket /r/wl failed to appear");
}

#[test]
fn the_environment_decides_who_and_where() {
    assert_eq!(SessionManager::spawn(true, Some("f".to_string()), "me"), None);
    assert_eq!(SessionManager::spawn(false, Some("f".to_string()), "me").as_deref(), Some("f"));
    assert_eq!(SessionManager::spawn(false, None, "me").as_deref(), Some("me"));
    assert_eq!(redfog_server_user(Some(String::new())), None);
    assert_eq!(redfog_server_user(Some("u".to_string())).as_deref(), Some("u"));
    assert_eq!(redfog_server_user(None), None);
    assert_eq!(session_init_path(Some("/i".to_string()), Err("x".to_string())), Ok("/i".to_string()));
    assert_eq!(session_init_path(None, Ok("/usr/bin".to_string())), Ok("/usr/bin/redfog-session-init".to_string()));
    assert_eq!(session_init_path(None, Err("x".to_string())), Err("x".to_string()));
}

#[test]
fn messages_can_be_copied() {
    let request = BrokerRequest::SpawnPayload {
        session_id: "1".to_string(),
        username: "u".to_string(),
        socket_path: "/s".to_string(),
        runtime_dir: "/r".to_string(),
        argv: strings(&["a", "b"]),
        env: vec![("K".to_string(), "V".to_string())],
    };
    assert_eq!(request.clone(), request);
    for response in [
        BrokerResponse::Authenticate(Ok(())),
        BrokerResponse::Authenticate(Err("no".to_string())),
        BrokerResponse::SpawnSession(Ok(SpawnedSession { wayland_socket_path: "/w".to_string() })),
        BrokerResponse::SpawnSession(Err("e".to_string())),
        BrokerResponse::SpawnPayload(Err("p".to_string())),
        BrokerResponse::TerminateSession(Ok(())),
    ] {
        assert_eq!(response.clone(), response);
    }
}
