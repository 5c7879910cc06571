use redfog::bridge::{
    find_memory_type_index, import_array_failed, import_persistent_failed, no_such_device, select_queue_family,
    ArrayCleanup, ArrayStage, ImportStage, QueueFamily, Resource,
};
use redfog::command::Invocation;
use redfog::compositor::{
    activation_environment, dies_with_server, maybe_die_with_parent, socket_missing, streaming_client_name,
    CompositorSession, DeathSignal, SocketWait, WaitAction,
};
use redfog::gpu::{gpu_sandbox_argv_prefix, related_dri_nodes, select_gpu_render_node, vendor_rank, ByPathLink, DriEntry};
use redfog::keys::{winit_button_to_evdev, winit_key_to_evdev, KeyCode, MouseButton};
use redfog::modifiers::{
    buffer_request, captured_frame, dmabuf_offers, filled_formats, find_nvidia_render_node, format_offers,
    modifier_halves, needs_tiled_search, wants_tiled, BufferRequest, OfferedFormat,
    nvidia_block_linear_2d, param_changed, push_format, resolve_drm_fourcc, DataKind, DmabufFormat, FormatCache,
    ModifierCache, ModifierSearch, NegotiatedFormat, SearchKey, SearchStep, VideoInfo, FOURCC_AR24, FOURCC_XR24,
};
use redfog::nested::{nested_failure, socket_timeout, spawn_nested_session, wait_for_wayland_socket, NestedSessionConfig};
use redfog::outputs::{
    bind_version, env_i32, parse_resize, wayland_socket, CaptureEvent, CaptureState, Interface, ModeStep,
};
use redfog::runtime::{
    copy_failure, dbus_address, dir_failure, ensure_private_dbus_session, is_private, parse_session_command,
    spawn_failure, wait_for_path, AudioLoopback, DirFailure, HeadlessRuntime, PathWait, Step,
};
use redfog::viewer::{
    active_node, handoff_step, login_step, nested_command, parse_input_command, parse_viewer_args, plugin_path, snap,
    user_payload, HandoffStep, InputCommand, LoginStep, ViewerArgsError, ViewerState,
};

fn strings(parts: &[&str]) -> Vec<String> {
    parts.iter().map(|s| s.to_string()).collect()
}

fn argv(c: &Invocation) -> String {
    let mut all = vec![c.program.clone()];
    all.extend(c.args.iter().cloned());
    all.join(" ")
}

fn env(c: &Invocation) -> Vec<String> {
    c.env.iter().map(|(k, v)| format!("{k}={v}")).collect()
}

#[test]
fn kwin_is_started_headless() {
    let plan = CompositorSession::spawn("/run/r", "wl-0", 1920, -1, "1.5", "pipewire-0", "1", &strings(&["app"]));
    assert_eq!(plan.socket_path, "/run/r/wl-0");
    assert_eq!(plan.stale, ["/run/r/wl-0", "/run/r/wl-0.lock"]);
    assert_eq!(
        argv(&plan.command),
        "kwin_wayland --virtual --width 1920 --height -1 --scale 1.5 --no-lockscreen --socket wl-0 --xwayland --exit-with-session app"
    );
    assert_eq!(
        env(&plan.command),
        [
            "KWIN_PLATFORM=virtual",
            "KWIN_WAYLAND_NO_PERMISSION_CHECKS=1",
            "XDG_RUNTIME_DIR=/run/r",
            "PIPEWIRE_REMOTE=pipewire-0",
            "LIBGL_ALWAYS_SOFTWARE=1",
        ]
    );
    let bare = CompositorSession::spawn("/run/r", "wl-0", 1, 1, "1", "p", "0", &vec![]);
    assert!(argv(&bare.command).ends_with("--xwayland"));
    let long = CompositorSession::spawn("/run/r", "wl-0", 1, 1, "1", "p", "0", &strings(&["a", "b", "--"]));
    assert_eq!(long.command.args[long.command.args.len() - 2..], ["--exit-with-session", "'a' 'b' '--'"]);
    assert_eq!(
        argv(&activation_environment("wl-0", "/run/r", "pw")),
        "dbus-update-activation-environment --systemd WAYLAND_DISPLAY=wl-0 XDG_RUNTIME_DIR=/run/r PIPEWIRE_REMOTE=pw"
    );
    assert_eq!(streaming_client_name(17), "redfog-streaming-engine-17");
}

#[test]
fn a_compositors_socket_is_waited_for() {
    let mut wait = SocketWait::new();
    for _ in 0..60 {
        assert_eq!(wait.checked(false), WaitAction::Sleep(250));
    }
    assert_eq!(wait.checked(true), WaitAction::GiveUp);
    let mut quick = SocketWait::new();
    assert_eq!(quick.checked(true), WaitAction::Attach);
    let path = "/run/a\"b\u{7}";
    assert_eq!(
        socket_missing(path),
        format!("KWin Wayland socket {:?} failed to appear", std::path::PathBuf::from(path))
    );
}

#[test]
fn children_die_with_their_parent() {
    assert!(dies_with_server(None));
    assert!(dies_with_server(Some("1")));
    assert!(!dies_with_server(Some("0")));
    assert!(matches!(maybe_die_with_parent(false, Some(9), 9, 1, 1), DeathSignal::OsError));
    assert!(matches!(maybe_die_with_parent(true, None, 9, 1, 1), DeathSignal::OsError));
    assert!(matches!(maybe_die_with_parent(true, Some(9), 9, 1, 1), DeathSignal::Proceed));
    assert!(matches!(maybe_die_with_parent(true, Some(9), 9, 2, 1), DeathSignal::Die));
    match maybe_die_with_parent(true, Some(-1), 9, 1, 1) {
        DeathSignal::Mismatch(m) => assert_eq!(
            m,
            "PR_SET_PDEATHSIG(SIGKILL) reported success but PR_GET_PDEATHSIG reads back -1 instead of 9"
        ),
        _ => panic!("expected a mismatch"),
    }
}

#[test]
fn the_runtime_comes_up_in_order() {
    let (runtime, steps) = HeadlessRuntime::start("/run/r", true);
    assert_eq!(runtime.runtime_dir, "/run/r");
    assert_eq!(runtime.pipewire_socket, "/run/r/pipewire-0");
    assert_eq!(steps.len(), 18);
    let programs: Vec<String> = steps
        .iter()
        .filter_map(|s| match s {
            Step::Spawn { command, verbose: true } => Some(argv(command)),
            _ => None,
        })
        .collect();
    assert_eq!(programs, ["pipewire -v -v", "wireplumber", "pipewire-pulse -v"]);
    match &steps[14] {
        Step::Spawn { command, .. } => {
            assert_eq!(command.unset, ["PULSE_SERVER", "PULSE_RUNTIME_PATH"]);
            assert_eq!(
                env(command),
                ["XDG_RUNTIME_DIR=/run/r", "PIPEWIRE_REMOTE=/run/r/pipewire-0", "PIPEWIRE_CONFIG_DIR=/run/r/pipewire-config"]
            );
        }
        _ => panic!("expected a daemon"),
    }
    match &steps[12] {
        Step::WaitFor { path, message } => {
            assert_eq!((path.as_str(), message.as_str()), ("/run/r/pipewire-0", "PipeWire socket did not appear within 10s"));
        }
        _ => panic!("expected a wait"),
    }
    match &steps[3] {
        Step::RemoveStale { path } => assert_eq!(path, "/run/r/pipewire-0.lock"),
        _ => panic!("expected a removal"),
    }
    match &steps[9] {
        Step::Write { path, text } => {
            assert_eq!(path, "/run/r/pipewire-config/pipewire.conf.d/98-redfog-null-sink.conf");
            assert!(text.contains("node.name        = \"redfog-audio-sink\""));
        }
        _ => panic!("expected a file"),
    }
    match &steps[17] {
        Step::SetEnv { name, value } => assert_eq!((name.as_str(), value.as_str()), ("PIPEWIRE_REMOTE", "/run/r/pipewire-0")),
        _ => panic!("expected a variable"),
    }
}

#[test]
fn directories_and_daemons_report_what_failed() {
    assert!(is_private(0o40700));
    assert!(!is_private(0o40755));
    assert_eq!(dir_failure(DirFailure::Create, "/d", "e"), "failed to create runtime dir \"/d\": e");
    assert_eq!(dir_failure(DirFailure::Stat, "/d", "e"), "failed to stat runtime dir \"/d\": e");
    assert_eq!(dir_failure(DirFailure::Chmod, "/d", "e"), "failed to chmod runtime dir \"/d\" to 0700: e");
    assert_eq!(copy_failure("/a", "/b", "e"), "failed to copy /a into \"/b\": e");
    assert_eq!(spawn_failure("pipewire", "e"), "failed to spawn pipewire: e");
    assert_eq!(wait_for_path(0, 10, false), PathWait::Sleep(200));
    assert_eq!(wait_for_path(9, 10, true), PathWait::Found);
    assert_eq!(wait_for_path(10, 10, true), PathWait::TimedOut);
}

#[test]
fn a_session_bus_is_started_once() {
    assert!(ensure_private_dbus_session(true).is_none());
    assert_eq!(argv(&ensure_private_dbus_session(false).unwrap()), "dbus-daemon --session --print-address --nofork");
    assert_eq!(dbus_address("unix:path=/tmp/x,guid=1\n").as_deref(), Some("unix:path=/tmp/x,guid=1"));
    assert_eq!(dbus_address(" \n"), None);
}

#[test]
fn a_session_command_follows_two_dashes() {
    let c = parse_session_command(&strings(&["/run/r", "--", "cmd", "a", "--"])).unwrap();
    assert_eq!((c.runtime_dir.as_str(), c.command.as_str()), ("/run/r", "cmd"));
    assert_eq!(c.args, ["a", "--"]);
    assert!(parse_session_command(&strings(&["/run/r", "--"])).is_none());
    assert!(parse_session_command(&strings(&["/run/r", "cmd", "--"])).is_none());
}

#[test]
fn a_session_has_sound() {
    let (names, loopback, metadata) = AudioLoopback::spawn("s1");
    assert_eq!((names.sink_name.as_str(), names.capture_name.as_str()), ("redfog-audio-sink-s1", "redfog-audio-capture-s1"));
    assert_eq!(
        argv(&loopback),
        "pw-loopback -n redfog-audio-s1 --capture-props media.class=Audio/Sink node.name=redfog-audio-sink-s1 --playback-props media.class=Audio/Source node.name=redfog-audio-capture-s1"
    );
    assert_eq!(
        argv(&metadata),
        "pw-metadata -n default 0 default.configured.audio.sink {\"name\":\"redfog-audio-sink-s1\"}"
    );
}

fn dri(name: &str, vendor: Option<&str>) -> DriEntry {
    DriEntry { name: name.to_string(), vendor: vendor.map(|v| v.to_string()) }
}

#[test]
fn the_preferred_gpu_is_chosen() {
    let entries = vec![
        dri("card0", Some("0x10de")),
        dri("renderD128", Some("0x8086\n")),
        dri("renderD130", Some("0x1002")),
        dri("renderD129", Some(" 0X1002 ")),
        dri("renderD131", None),
    ];
    assert_eq!(select_gpu_render_node(&entries, None).as_deref(), Some("/dev/dri/renderD129"));
    assert_eq!(select_gpu_render_node(&entries, Some("/dev/dri/none")).as_deref(), Some("/dev/dri/renderD129"));
    assert_eq!(
        select_gpu_render_node(&entries, Some(":/dev/dri/none::/dev/dri/renderD128:/dev/dri/renderD130")).as_deref(),
        Some("/dev/dri/renderD128")
    );
    assert_eq!(select_gpu_render_node(&entries, Some("/dev/dri/card0")).as_deref(), Some("/dev/dri/renderD129"));
    assert_eq!(select_gpu_render_node(&vec![dri("card0", None)], Some("/dev/dri/card0")), None);
    assert_eq!([vendor_rank("0x10de"), vendor_rank("0x1002"), vendor_rank(""), vendor_rank("0x8086")], [0, 1, 2, 3]);
    assert_eq!(find_nvidia_render_node(&entries), None);
    let nvidia = vec![dri("renderD128", Some("0x8086")), dri("renderD129", Some("0x10DE\n")), dri("renderD130", Some("0x10de"))];
    assert_eq!(find_nvidia_render_node(&nvidia).as_deref(), Some("/dev/dri/renderD129"));
}

fn link(link: &str, target: &str, name: &str) -> ByPathLink {
    ByPathLink { link: link.to_string(), target: target.to_string(), target_name: name.to_string() }
}

#[test]
fn the_sandbox_shows_one_gpu() {
    let links = vec![
        link("/dev/dri/by-path/a-card", "../card1", "card1"),
        link("/dev/dri/by-path/b-card", "../card2", "card2"),
        link("/dev/dri/by-path/a-render", "../renderD128", "renderD128"),
    ];
    let related = related_dri_nodes("/dev/dri/renderD128", &strings(&["renderD128", "card1", "card9"]), &links);
    assert_eq!(related.card_node.as_deref(), Some("/dev/dri/card1"));
    assert_eq!(related.by_path_links.len(), 2);
    let argv = gpu_sandbox_argv_prefix(Some("/dev/dri/renderD128"), true, &related).unwrap();
    assert_eq!(
        argv.join(" "),
        "bwrap --bind / / --dev-bind /dev /dev --tmpfs /dev/dri --dev-bind /dev/dri/renderD128 /dev/dri/renderD128 \
         --dev-bind /dev/dri/card1 /dev/dri/card1 --dir /dev/dri/by-path --symlink ../card1 /dev/dri/by-path/a-card \
         --symlink ../renderD128 /dev/dri/by-path/a-render --"
    );
    let lonely = related_dri_nodes("/dev/dri/renderD128", &vec![], &vec![]);
    let argv = gpu_sandbox_argv_prefix(Some("/n"), true, &lonely).unwrap();
    assert_eq!(argv.join(" "), "bwrap --bind / / --dev-bind /dev /dev --tmpfs /dev/dri --dev-bind /n /n --");
    assert!(gpu_sandbox_argv_prefix(Some("/n"), false, &lonely).is_none());
    assert!(gpu_sandbox_argv_prefix(None, true, &lonely).is_none());
}

fn output() -> CaptureState {
    let mut s = CaptureState::new("redfog-output");
    s.has_management = true;
    for (mode, width, height) in [(1, 1920, 1080), (2, 1280, 720), (3, 0, 0)] {
        s.event(CaptureEvent::DeviceMode { mode });
        s.event(CaptureEvent::ModeSize { mode, width, height });
    }
    s
}

#[test]
fn an_output_gets_ready() {
    let mut s = output();
    assert!(!s.is_ready());
    s.event(CaptureEvent::DeviceName { device: 5, name: "Virtual-redfog-output".to_string() });
    s.event(CaptureEvent::DeviceName { device: 6, name: "HDMI-1".to_string() });
    s.event(CaptureEvent::DeviceDone { device: 6 });
    s.event(CaptureEvent::StreamCreated { node: 33 });
    assert!(!s.is_ready());
    s.event(CaptureEvent::DeviceDone { device: 5 });
    assert!(s.is_ready());
    assert_eq!(s.stream_node(), Ok(33));
    s.begin_stream();
    assert!(!s.is_ready());
    s.event(CaptureEvent::StreamFailed);
    assert!(s.stream_done);
    assert_eq!(s.stream_node(), Err("virtual output stream failed".to_string()));
    s.event(CaptureEvent::ConfigurationDone);
    assert!(s.config_done);
    s.begin_configuration();
    assert!(!s.config_done);
}

#[test]
fn an_output_is_brought_to_a_size() {
    let mut s = output();
    assert_eq!(s.set_output_mode(1920, 1080), ModeStep::NoOutput);
    s.event(CaptureEvent::DeviceName { device: 5, name: "redfog-output".to_string() });
    assert_eq!(s.set_output_mode(1925, 1080), ModeStep::Apply { mode: 1 });
    s.event(CaptureEvent::DeviceCurrentMode { mode: 1 });
    assert_eq!(s.set_output_mode(1928, 1072), ModeStep::Already);
    assert_eq!(s.set_output_mode(1929, 1080), ModeStep::Ask { width: 1929, height: 1080, refresh: 60_000 });
    assert_eq!(s.find_mode(0, 0), None);
    assert_eq!(s.mode_after_custom(1300, 800), Some(2));
    s.event(CaptureEvent::ModeRemoved { mode: 1 });
    assert_eq!(s.current_mode, None);
    assert_eq!(s.set_output_mode(1920, 1080), ModeStep::Ask { width: 1920, height: 1080, refresh: 60_000 });
    assert_eq!(s.mode_after_custom(i32::MAX, i32::MIN), Some(2));
    s.event(CaptureEvent::ModeRemoved { mode: 2 });
    assert_eq!(s.mode_after_custom(1, 1), None);
    s.event(CaptureEvent::ModeSize { mode: 77, width: 1, height: 1 });
    assert_eq!(s.nearest_mode(1, 1), None);
}

#[test]
fn interfaces_are_bound_no_newer_than_understood() {
    assert_eq!(Interface::named("zkde_screencast_unstable_v1"), Some(Interface::Screencast));
    assert_eq!(Interface::named("kde_output_management_v2"), Some(Interface::OutputManagement));
    assert_eq!(Interface::named("kde_output_device_registry_v2"), Some(Interface::OutputDeviceRegistry));
    assert_eq!(Interface::named("wl_seat"), None);
    assert_eq!(bind_version(Interface::Screencast, 7), 4);
    assert_eq!(bind_version(Interface::Screencast, 3), 3);
    assert_eq!(bind_version(Interface::OutputManagement, 99), 18);
    assert_eq!(bind_version(Interface::OutputDeviceRegistry, 99), 21);
}

#[test]
fn resize_lines_are_read() {
    assert_eq!(parse_resize(" resize 1920x1080\n"), Some((1920, 1080)));
    assert_eq!(parse_resize("resize  -5 x 7 "), Some((-5, 7)));
    for bad in ["resize", "resize 5", "resize ax5", "resize 5x", "size 5x5", "resize 5x5x5", ""] {
        assert_eq!(parse_resize(bad), None, "{bad}");
    }
    assert_eq!(env_i32(Some("12"), 7), 12);
    assert_eq!(env_i32(Some("x"), 7), 7);
    assert_eq!(env_i32(None, 7), 7);
    assert_eq!(wayland_socket(None, "/run/r"), "/run/r/wayland-0");
    assert_eq!(wayland_socket(Some("/abs".to_string()), "/run/r"), "/abs");
}

#[test]
fn block_linear_layouts_are_built_from_their_fields() {
    assert_eq!(nvidia_block_linear_2d(0, 1, 2, 0x06, 4), 0x0300000000606014);
    assert_eq!(nvidia_block_linear_2d(7, 7, 3, 0xff, 0xf), 0x030000000ffff01f);
    assert_eq!(nvidia_block_linear_2d(8, 8, 4, 256, 16), 0x0300000000000010);
    let (lo, hi) = modifier_halves(0x0300000000606014);
    assert_eq!((lo, hi), (0x00606014, 0x03000000));
}

#[test]
fn a_search_tries_every_layout_once() {
    let mut expected = Vec::new();
    for g in 0u64..=2 {
        for h in 0u64..=5 {
            for s in 0u64..=3 {
                for k in 0u64..=255 {
                    expected.push(nvidia_block_linear_2d(0, s, g, k, h));
                }
            }
        }
    }
    let mut search = ModifierSearch::new();
    let mut tried = Vec::new();
    while let SearchStep::Try(m) = search.step(None) {
        assert_eq!(m >> 56, 3);
        tried.push(m);
    }
    assert_eq!(tried, expected);
    assert_eq!(search.step(None), SearchStep::Exhausted);
    tried.sort();
    tried.dedup();
    assert_eq!(tried.len(), 18432);
}

#[test]
fn a_search_ends_at_the_first_layout_that_works() {
    let mut search = ModifierSearch::new();
    let first = nvidia_block_linear_2d(0, 0, 0, 0, 0);
    let second = nvidia_block_linear_2d(0, 0, 0, 1, 0);
    assert_eq!(search.step(None), SearchStep::Try(first));
    assert_eq!(search.step(None), SearchStep::Try(second));
    assert_eq!(search.step(Some(77)), SearchStep::Found(77));
}

#[test]
fn searches_and_queries_are_made_once() {
    let node = Some("/dev/dri/renderD128".to_string());
    let key = SearchKey { render_node: node, drm_fourcc: FOURCC_AR24, width: 1920, height: 1080 };
    let other = SearchKey { width: 1, ..key.clone() };
    let elsewhere = SearchKey { render_node: None, ..key.clone() };
    let mut cache = ModifierCache::new();
    assert_eq!(cache.get(&key), None);
    assert_eq!(cache.find_working_tiled_modifier(key.clone(), Ok(Some(5))), Some(5));
    assert_eq!(cache.find_working_tiled_modifier(other.clone(), Err("no GPU".to_string())), None);
    assert_eq!((cache.get(&key), cache.get(&other), cache.get(&elsewhere)), (Some(Some(5)), Some(None), None));
    assert_eq!(cache.find_working_tiled_modifier(key, Ok(Some(6))), Some(5));
    assert_eq!(cache.find_working_tiled_modifier(other, Ok(Some(6))), None);
    let mut formats = FormatCache::new();
    assert!(formats.get("/s").is_none());
    let said = formats.query_dmabuf_formats("/s", Ok(vec![DmabufFormat { drm_fourcc: 1, modifiers: vec![2, 3] }]));
    assert_eq!((said[0].drm_fourcc, said[0].modifiers.clone()), (1, vec![2, 3]));
    assert!(formats.query_dmabuf_formats("/t", Err("no EGL".to_string())).is_empty());
    assert_eq!(formats.get("/s").unwrap()[0].modifiers, vec![2, 3]);
    assert!(formats.get("/t").unwrap().is_empty());
    assert_eq!(formats.query_dmabuf_formats("/s", Ok(vec![])).len(), 1);
    assert!(formats.query_dmabuf_formats("/t", Ok(vec![said[0].clone()])).is_empty());
}

#[test]
fn what_a_driver_filled_in_is_kept() {
    assert_eq!(filled_formats(&vec![1, 2, 3], 2), [1, 2]);
    assert!(filled_formats(&vec![1, 2, 3], -1).is_empty());
    assert_eq!(filled_formats(&vec![1], 9), [1]);
    let mut formats = Vec::new();
    push_format(&mut formats, -1, true, &vec![7, 8, 9], 2);
    push_format(&mut formats, 5, false, &vec![7], 1);
    push_format(&mut formats, 6, true, &vec![7], 0);
    assert_eq!(formats.len(), 1);
    assert_eq!((formats[0].drm_fourcc, formats[0].modifiers.clone()), (u32::MAX, vec![7, 8]));
}

#[test]
fn formats_are_offered_with_their_layouts() {
    assert_eq!(FOURCC_XR24, u32::from_le_bytes(*b"XR24"));
    assert_eq!(FOURCC_AR24, u32::from_le_bytes(*b"AR24"));
    assert_eq!([resolve_drm_fourcc(8), resolve_drm_fourcc(12), resolve_drm_fourcc(7)], [FOURCC_XR24, FOURCC_AR24, 0]);
    let formats = vec![
        DmabufFormat { drm_fourcc: FOURCC_AR24, modifiers: vec![4, 0, 5] },
        DmabufFormat { drm_fourcc: FOURCC_XR24, modifiers: vec![0] },
    ];
    assert!(needs_tiled_search(&formats[1], false));
    assert!(!needs_tiled_search(&formats[1], true));
    assert!(!needs_tiled_search(&formats[0], false));
    let offers = dmabuf_offers(&formats, false, Some(u64::MAX), Some(9));
    assert_eq!(offers.len(), 2);
    assert_eq!((offers[0].spa_format, offers[0].modifiers.clone()), (8, vec![-1, 0]));
    assert_eq!((offers[1].spa_format, offers[1].modifiers.clone()), (12, vec![4, 0, 5]));
    let linear = dmabuf_offers(&formats, true, Some(3), None);
    assert_eq!((linear[0].modifiers.clone(), linear[1].modifiers.clone()), (vec![0], vec![0]));
    let tiled_only = vec![DmabufFormat { drm_fourcc: FOURCC_XR24, modifiers: vec![4] }];
    assert!(dmabuf_offers(&tiled_only, true, None, None).is_empty());
    assert!(wants_tiled(&formats, FOURCC_XR24, false));
    assert!(!wants_tiled(&formats, FOURCC_AR24, false));
    assert!(!wants_tiled(&tiled_only, FOURCC_AR24, false));
}

#[test]
fn memory_without_layouts_is_offered_last() {
    let formats = vec![DmabufFormat { drm_fourcc: FOURCC_AR24, modifiers: vec![4, 0] }];
    let offers = format_offers(&formats, false, None, None);
    assert_eq!(offers.len(), 2);
    assert_eq!((offers[0].formats.clone(), offers[0].modifiers.clone()), (vec![OfferedFormat::Bgra], Some(vec![4, 0])));
    assert_eq!(offers[1].formats, [OfferedFormat::Bgrx, OfferedFormat::Rgba, OfferedFormat::Bgra]);
    assert_eq!(offers[1].modifiers, None);
    assert_eq!(format_offers(&vec![], true, None, None).len(), 1);
}

#[test]
fn buffers_are_asked_for_by_their_memory() {
    let dmabuf = buffer_request(true, 3, 1, 16);
    assert_eq!(dmabuf, BufferRequest { data_types: 8, damage_size: 256, damage_min: 16 });
    assert_eq!(buffer_request(false, 3, 1, 16).data_types, 2);
}

#[test]
fn negotiated_formats_and_frames_are_taken_in() {
    let none = NegotiatedFormat { width: 0, height: 0, format: 0, modifier: 0 };
    let wanted = NegotiatedFormat { width: 2, height: 3, format: 12, modifier: 9 };
    let mut now = none;
    assert_eq!(param_changed(&mut now, false, true, Some(VideoInfo { format: wanted, has_modifier: true })), None);
    assert_eq!(param_changed(&mut now, true, false, Some(VideoInfo { format: wanted, has_modifier: true })), None);
    assert_eq!(param_changed(&mut now, true, true, None), None);
    assert_eq!(now.width, 0);
    assert_eq!(param_changed(&mut now, true, true, Some(VideoInfo { format: wanted, has_modifier: true })), Some(true));
    assert_eq!(param_changed(&mut now, true, true, Some(VideoInfo { format: wanted, has_modifier: false })), Some(false));
    assert_eq!((now.width, now.height, now.format, now.modifier), (2, 3, 12, 9));
    let f = captured_frame(now, DataKind::MemFd, 4, 8).unwrap();
    assert_eq!((f.is_dma_buf, f.buffer_identity, f.stride, f.width), (false, 4, 8, 2));
    assert!(captured_frame(now, DataKind::DmaBuf, 0, 8).unwrap().is_dma_buf);
    assert!(captured_frame(now, DataKind::DmaBuf, -1, 8).is_none());
    assert!(captured_frame(now, DataKind::Other, 1, 8).is_none());
}

#[test]
fn failed_imports_give_back_what_they_hold() {
    let early = import_persistent_failed(ImportStage::CreateImage, 7, "E");
    assert!(!early.close_fd && early.release.is_empty());
    assert_eq!(early.message, "vkCreateImage (src, DRM_FORMAT_MODIFIER_EXT): E");
    let import = import_persistent_failed(ImportStage::ImportMemory, 7, "E");
    assert!(import.close_fd);
    assert_eq!(import.release, [Resource::SrcImage]);
    assert_eq!(import.message, "vkAllocateMemory (import dma-buf fd 7): E");
    let bind = import_persistent_failed(ImportStage::BindBuffer, 7, "E");
    assert_eq!(bind.release, [Resource::DstMemory, Resource::DstBuffer, Resource::SrcMemory, Resource::SrcImage]);
    assert_eq!(import_persistent_failed(ImportStage::AllocateBuffer, 7, "E").release.len(), 3);
    assert_eq!(import_persistent_failed(ImportStage::CreateBuffer, 7, "E").release, [Resource::SrcMemory, Resource::SrcImage]);
    assert_eq!(import_persistent_failed(ImportStage::Copy, 7, "E").message, "E");
    assert_eq!(import_persistent_failed(ImportStage::Export, 7, "E").message, "vkGetMemoryFdKHR: E");
    let mut stage = Some(ImportStage::first());
    let mut n = 0;
    while let Some(s) = stage {
        n += 1;
        stage = s.next();
    }
    assert_eq!(n, 8);
    assert_eq!(import_array_failed(ArrayStage::ImportMemory), ArrayCleanup::CloseFd);
    assert_eq!(import_array_failed(ArrayStage::MapArray), ArrayCleanup::DestroyMemory);
    assert_eq!(import_array_failed(ArrayStage::GetLevel), ArrayCleanup::DestroyMemory);
}

#[test]
fn queues_and_memory_are_chosen() {
    let family = |graphics, transfer| QueueFamily { graphics, transfer };
    assert_eq!(select_queue_family(&vec![family(false, true), family(true, false), family(true, true)]), Ok(2));
    assert_eq!(select_queue_family(&vec![family(true, false), family(false, true)]), Ok(1));
    assert_eq!(
        select_queue_family(&vec![family(true, false)]),
        Err("no queue family supports GRAPHICS or TRANSFER".to_string())
    );
    assert_eq!(no_such_device(3), "no VkPhysicalDevice at index 3");
    assert_eq!(find_memory_type_index(0b110, &vec![true, false, true]), Some(2));
    assert_eq!(find_memory_type_index(0b110, &vec![true, false, false]), Some(1));
    assert_eq!(find_memory_type_index(0b1000, &vec![true, true]), None);
}

#[test]
fn keys_have_the_kernels_numbers() {
    assert_eq!(winit_key_to_evdev(KeyCode::KeyA), Some(30));
    assert_eq!(winit_key_to_evdev(KeyCode::F11), Some(87));
    assert_eq!(winit_key_to_evdev(KeyCode::SuperRight), Some(126));
    assert_eq!(winit_key_to_evdev(KeyCode::Other), None);
    assert_eq!(winit_button_to_evdev(MouseButton::Left), Some(272));
    assert_eq!(winit_button_to_evdev(MouseButton::Right), Some(273));
    assert_eq!(winit_button_to_evdev(MouseButton::Middle), Some(274));
    assert_eq!(winit_button_to_evdev(MouseButton::Other), None);
}

#[test]
fn a_nested_desktop_is_started() {
    let config = NestedSessionConfig::default();
    let c = spawn_nested_session(&config, "/run/r", "wayland-1").ok().unwrap();
    assert_eq!(argv(&c), "dbus-run-session -- sway");
    assert_eq!(
        env(&c),
        [
            "XDG_RUNTIME_DIR=/run/r",
            "WAYLAND_DISPLAY=wayland-1",
            "XDG_SESSION_TYPE=wayland",
            "XDG_SESSION_DESKTOP=sway",
            "XDG_CURRENT_DESKTOP=sway",
            "SWAYSOCK=/run/r/sway.socket",
        ]
    );
    let vendor = NestedSessionConfig { glx_vendor: Some("nvidia".to_string()), ..NestedSessionConfig::default() };
    assert!(env(&spawn_nested_session(&vendor, "/r", "w").ok().unwrap()).contains(&"__GLX_VENDOR_LIBRARY_NAME=nvidia".to_string()));
    let empty = NestedSessionConfig { command: vec![], ..NestedSessionConfig::default() };
    assert_eq!(spawn_nested_session(&empty, "/r", "w").err().unwrap(), "NestedSessionConfig::command must not be empty");
    assert_eq!(nested_failure(&config, "e"), "failed to spawn nested session [\"sway\"]: e");
    assert_eq!(wait_for_wayland_socket(true, true), PathWait::TimedOut);
    assert_eq!(wait_for_wayland_socket(false, true), PathWait::Found);
    assert_eq!(wait_for_wayland_socket(false, false), PathWait::Sleep(50));
    assert_eq!(socket_timeout("/r", "w", "10s"), "\"/r/w\" did not appear within 10s");
}

#[test]
fn sizes_snap_to_the_grid() {
    assert_eq!([snap(0), snap(15), snap(16), snap(1080), snap(1920)], [0, 0, 32, 1088, 1920]);
    for n in [-100, -49, -48, -17, -16, -1, 0, 1, 31, 33, 100] {
        assert_eq!(snap(n), ((n + 16) / 32) * 32, "{n}");
    }
}

#[test]
fn viewers_read_their_arguments() {
    let ok = parse_viewer_args(&strings(&["v", "1920", "-5", "app", "x"])).ok().unwrap();
    assert_eq!((ok.width, ok.height), (1920, -5));
    assert_eq!(ok.rest, ["app", "x"]);
    assert_eq!(parse_viewer_args(&strings(&["v", "1"])).err(), Some(ViewerArgsError::Usage));
    assert!(matches!(parse_viewer_args(&strings(&["v", "a", "b"])), Err(ViewerArgsError::InvalidWidth(_))));
    assert!(matches!(parse_viewer_args(&strings(&["v", "1", ""])), Err(ViewerArgsError::InvalidHeight(_))));
    assert_eq!(user_payload(None), ["plasmashell", "--no-respawn"]);
    assert_eq!(user_payload(Some("plasmashell")), ["plasmashell", "--no-respawn"]);
    assert_eq!(user_payload(Some("konsole")), ["konsole"]);
    assert_eq!(nested_command(vec![]), ["sway"]);
    assert_eq!(nested_command(strings(&["a", "b"])), ["a", "b"]);
    assert_eq!(plugin_path("/p", ""), "/p");
    assert_eq!(plugin_path("/p", "/q"), "/p:/q");
    assert_eq!([active_node(Some(1), Some(2)), active_node(None, Some(2)), active_node(None, None)], [1, 2, 0]);
}

#[test]
fn a_login_leads_to_the_users_session() {
    assert_eq!(login_step(None), LoginStep::Wait);
    assert_eq!(login_step(Some(true)), LoginStep::StartUser);
    assert_eq!(login_step(Some(false)), LoginStep::Exit);
    assert_eq!(handoff_step(true, true), HandoffStep::Show);
    assert_eq!(handoff_step(true, false), HandoffStep::Keep);
    assert_eq!(handoff_step(false, false), HandoffStep::Exit);
}

#[test]
fn resizes_are_debounced_and_restarts_held_back() {
    let mut v = ViewerState { pending: None, last_restart_ns: 1_000_000_000 };
    assert!(!v.frame_size_changed(1_499_000_000));
    assert!(v.frame_size_changed(1_500_000_000));
    assert!(!v.frame_size_changed(1_501_000_000));
    assert!(!v.window_resized(0, 5, None, 2_000_000_000));
    assert!(!v.window_resized(640, 480, Some((640, 480)), 2_000_000_000));
    assert!(v.window_resized(641, 479, Some((640, 480)), 2_000_000_000));
    assert_eq!(v.about_to_wait(2_199_000_000), None);
    assert!(v.window_resized(700, 500, None, 2_100_000_000));
    assert_eq!(v.about_to_wait(2_299_000_000), None);
    assert_eq!(v.about_to_wait(2_300_000_000), Some((704, 512)));
    assert_eq!(v.last_restart_ns, 2_300_000_000);
    assert_eq!(v.about_to_wait(9_999_000_000), None);
}

#[test]
fn input_commands_are_read() {
    assert!(matches!(parse_input_command("key 30 1"), InputCommand::Key { code: 30, pressed: true }));
    assert!(matches!(parse_input_command("  key\t30  up "), InputCommand::Key { code: 30, pressed: false }));
    assert!(matches!(parse_input_command("button 272 0"), InputCommand::Button { code: 272, pressed: false }));
    assert!(matches!(parse_input_command("key x 1"), InputCommand::BadNumber));
    assert!(matches!(parse_input_command("button -1 1"), InputCommand::BadNumber));
    match parse_input_command("rel 1.5 -2") {
        InputCommand::Rel { dx, dy } => assert_eq!((dx.as_str(), dy.as_str()), ("1.5", "-2")),
        _ => panic!("expected a motion"),
    }
    for unknown in ["", "key 30", "key 30 1 1", "KEY 30 1", "jump 1 2"] {
        assert!(matches!(parse_input_command(unknown), InputCommand::Unknown), "{unknown}");
    }
}
