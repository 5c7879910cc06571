use redfog::keymap::{key_event, layout_to_use};
use redfog::login::{
    authenticate, default_presets, load_presets, session_names, LoginResponse, ServerReply, SessionPreset, SessionsFile,
};
use redfog::login_ui::{
    background_is_stale, blink, center, display_text, handle_click, handle_input, handle_key, layout_to_switch_to,
    login_answered, pixel_index, rect_contains, text_width, try_submit, BackgroundCache, Focus, Hit, Layout,
    LoginUiState, Rect, UiEvent, BTN_LEFT, KEY_BACKSPACE, KEY_ENTER, KEY_TAB,
};

fn text(table: &toml::Value, key: &str) -> Option<String> {
    table.get(key).and_then(|v| v.as_str()).map(|s| s.to_string())
}

fn read(contents: &str) -> SessionsFile {
    let value: toml::Value = match toml::from_str(contents) {
        Ok(v) => v,
        Err(e) => return SessionsFile::Malformed(e.to_string()),
    };
    let mut presets = Vec::new();
    for s in value.get("session").and_then(|s| s.as_array()).cloned().unwrap_or_default() {
        presets.push(SessionPreset {
            name: text(&s, "name").unwrap(),
            backend: text(&s, "backend").unwrap(),
            payload: s["payload"].as_array().unwrap().iter().map(|p| p.as_str().unwrap().to_string()).collect(),
            desktop_name: text(&s, "desktop_name"),
            glx_vendor: text(&s, "glx_vendor"),
        });
    }
    SessionsFile::Parsed(presets)
}

#[test]
fn missing_file_falls_back_to_defaults() {
    let presets = load_presets("/tmp/redfog-login-protocol-test-does-not-exist.toml", SessionsFile::Missing).unwrap();
    assert_eq!(presets, default_presets());
}

#[test]
fn parses_a_real_config_file() {
    let file = read(
        r#"
            [[session]]
            name = "KDE Plasma"
            backend = "kwin"
            payload = ["plasmashell", "--no-respawn"]

            [[session]]
            name = "Sway (custom)"
            backend = "gst-wayland-display"
            payload = ["sway", "-c", "/tmp/whatever.conf"]
            desktop_name = "sway"
            glx_vendor = "nvidia"
        "#,
    );
    let presets = load_presets("/tmp/x.toml", file).unwrap();
    assert_eq!(presets.len(), 2);
    assert_eq!(presets[1].name, "Sway (custom)");
    assert_eq!(presets[1].backend, "gst-wayland-display");
    assert_eq!(presets[1].payload, vec!["sway", "-c", "/tmp/whatever.conf"]);
    assert_eq!(presets[1].desktop_name.as_deref(), Some("sway"));
    assert_eq!(presets[1].glx_vendor.as_deref(), Some("nvidia"));
}

#[test]
fn empty_sessions_list_is_an_error() {
    let result = load_presets("/tmp/x.toml", read(""));
    assert!(result.is_err());
    assert_eq!(result.unwrap_err(), "/tmp/x.toml defines no [[session]] entries");
}

#[test]
fn malformed_toml_is_an_error() {
    let result = load_presets("/tmp/x.toml", read("this is not valid toml [[["));
    assert!(result.is_err());
    assert!(result.unwrap_err().starts_with("failed to parse /tmp/x.toml: "));
}

#[test]
fn unreadable_file_is_an_error() {
    assert_eq!(
        load_presets("/p", SessionsFile::Unreadable("permission denied".to_string())),
        Err("failed to read /p: permission denied".to_string())
    );
}

#[test]
fn built_in_presets_are_plasma_and_sway() {
    let presets = default_presets();
    assert_eq!(presets.len(), 2);
    assert_eq!(presets[0].name, "KDE Plasma");
    assert_eq!(presets[0].backend, "kwin");
    assert_eq!(presets[0].payload, ["plasmashell", "--no-respawn"]);
    assert_eq!(presets[0].desktop_name, None);
    assert_eq!(presets[1].name, "Sway");
    assert_eq!(presets[1].backend, "gst-wayland-display");
    assert_eq!(presets[1].payload, ["sway"]);
    assert_eq!(presets[1].desktop_name.as_deref(), Some("sway"));
    assert_eq!(presets[1].glx_vendor, None);
    assert_eq!(session_names(&presets), ["KDE Plasma", "Sway", "Custom"]);
}

#[test]
fn signing_in_follows_the_servers_answer() {
    assert_eq!(authenticate("me", ServerReply::NoServer), Ok(()));
    assert_eq!(authenticate(" \t", ServerReply::NoServer), Err("Username cannot be empty".to_string()));
    assert_eq!(
        authenticate("", ServerReply::Unreachable("gone".to_string())),
        Err("failed to reach session server: gone".to_string())
    );
    assert_eq!(
        authenticate("", ServerReply::Unreadable("cut".to_string())),
        Err("failed to read response from session server: cut".to_string())
    );
    assert_eq!(
        authenticate("", ServerReply::Invalid("eh".to_string())),
        Err("invalid response from session server: eh".to_string())
    );
    assert_eq!(authenticate("", ServerReply::Answer(LoginResponse::Authenticate(Ok(())))), Ok(()));
    assert_eq!(
        authenticate("me", ServerReply::Answer(LoginResponse::Authenticate(Err("no".to_string())))),
        Err("no".to_string())
    );
}

fn state() -> LoginUiState {
    LoginUiState::new(1920, 1080, vec!["KDE Plasma".to_string(), "Sway".to_string(), "Custom".to_string()], (0, 0))
}

fn rect(left: i32, top: i32, right: i32, bottom: i32) -> Rect {
    Rect { left, top, right, bottom }
}

fn layout(rows: Vec<Rect>) -> Layout {
    Layout {
        username_field: rect(0, 0, 10, 10),
        password_field: rect(0, 10, 10, 20),
        session_box: rect(0, 20, 10, 30),
        session_options: rows,
        login_button: rect(0, 30, 10, 40),
    }
}

#[test]
fn a_point_hits_what_lies_on_top() {
    let plain = layout(vec![]);
    assert_eq!(plain.hit_test(0, 0), Hit::Username);
    assert_eq!(plain.hit_test(9, 10), Hit::Password);
    assert_eq!(plain.hit_test(5, 25), Hit::SessionToggle);
    assert_eq!(plain.hit_test(5, 39), Hit::LoginButton);
    assert_eq!(plain.hit_test(10, 0), Hit::Nothing);
    assert_eq!(plain.hit_test(5, 40), Hit::Nothing);
    let open = layout(vec![rect(0, 30, 10, 35), rect(0, 33, 10, 40)]);
    assert_eq!(open.hit_test(5, 34), Hit::SessionOption(0));
    assert_eq!(open.hit_test(5, 36), Hit::SessionOption(1));
    assert!(rect_contains(&rect(-5, -5, 0, 0), -1, -5));
    assert!(!rect_contains(&rect(-5, -5, 0, 0), 0, -5));
}

#[test]
fn typing_goes_into_the_focused_field() {
    let mut s = state();
    assert!(handle_key(&mut s, 30, "a").is_none());
    assert!(handle_key(&mut s, 30, "éx").is_none());
    assert_eq!(s.username, "aéx");
    handle_key(&mut s, KEY_BACKSPACE, "");
    assert_eq!(s.username, "aé");
    for ignored in ["", "\u{8}", "a\u{7f}", "\u{9f}b", "\n"] {
        handle_key(&mut s, 31, ignored);
    }
    assert_eq!(s.username, "aé");
    handle_key(&mut s, KEY_TAB, "\t");
    assert_eq!(s.focus, Focus::Password);
    handle_key(&mut s, KEY_BACKSPACE, "");
    handle_key(&mut s, 30, "pw");
    assert_eq!(s.password, "pw");
    handle_key(&mut s, KEY_TAB, "");
    assert_eq!(s.focus, Focus::Username);
    s.focus = Focus::Nothing;
    handle_key(&mut s, 30, "zzz");
    handle_key(&mut s, KEY_BACKSPACE, "");
    assert_eq!((s.username.as_str(), s.password.as_str()), ("aé", "pw"));
    handle_key(&mut s, KEY_TAB, "");
    assert_eq!(s.focus, Focus::Username);
}

#[test]
fn control_codes_are_what_std_says() {
    for c in '\0'..='\u{ffff}' {
        let mut s = state();
        handle_key(&mut s, 30, &c.to_string());
        assert_eq!(s.username.is_empty(), c.is_control(), "{c:?}");
    }
}

#[test]
fn enter_and_the_button_sign_in() {
    let mut s = state();
    s.username = "me".to_string();
    s.password = "pw".to_string();
    s.selected_session = 1;
    let c = handle_key(&mut s, KEY_ENTER, "\n").unwrap();
    assert_eq!((c.username.as_str(), c.password.as_str(), c.session.as_str()), ("me", "pw", "Sway"));
    s.selected_session = 2;
    assert_eq!(try_submit(&s).session, "user-configured");
    assert_eq!(handle_click(&mut s, Hit::LoginButton).unwrap().session, "user-configured");
    assert!(login_answered(&mut s, Ok(())));
    assert_eq!(s.password, "pw");
    assert!(!login_answered(&mut s, Err("wrong".to_string())));
    assert_eq!((s.username.as_str(), s.password.as_str(), s.error_msg.as_deref()), ("me", "", Some("wrong")));
}

#[test]
fn an_open_list_takes_the_click() {
    let mut s = state();
    assert!(handle_click(&mut s, Hit::SessionToggle).is_none());
    assert!(s.session_dropdown_open);
    assert!(handle_click(&mut s, Hit::LoginButton).is_none());
    assert!(!s.session_dropdown_open);
    handle_click(&mut s, Hit::SessionToggle);
    handle_click(&mut s, Hit::SessionOption(1));
    assert_eq!((s.selected_session, s.session_dropdown_open), (1, false));
    handle_click(&mut s, Hit::KeyboardToggle);
    assert!(s.keyboard_dropdown_open);
    handle_click(&mut s, Hit::KeyboardOption(0));
    assert_eq!((s.selected_layout, s.keyboard_dropdown_open), (0, false));
    handle_click(&mut s, Hit::Password);
    assert_eq!(s.focus, Focus::Password);
    handle_click(&mut s, Hit::Username);
    assert_eq!(s.focus, Focus::Username);
    handle_click(&mut s, Hit::SessionOption(2));
    assert_eq!(s.selected_session, 1);
}

#[test]
fn events_reach_the_screen() {
    let mut s = state();
    let l = layout(vec![]);
    assert!(handle_input(&mut s, &l, UiEvent::MouseMove { x: 5, y: 35 }).is_none());
    assert!(handle_input(&mut s, &l, UiEvent::MouseButton { button: BTN_LEFT + 1, pressed: true }).is_none());
    assert!(handle_input(&mut s, &l, UiEvent::MouseButton { button: BTN_LEFT, pressed: false }).is_none());
    assert!(handle_input(&mut s, &l, UiEvent::MouseButton { button: BTN_LEFT, pressed: true }).is_some());
    assert!(handle_input(&mut s, &l, UiEvent::MouseAxis).is_none());
    handle_input(&mut s, &l, UiEvent::KeyboardKey { keycode: 30, pressed: true, text: "q".to_string() });
    handle_input(&mut s, &l, UiEvent::KeyboardKey { keycode: 30, pressed: false, text: "q".to_string() });
    assert_eq!(s.username, "q");
}

#[test]
fn the_caret_blinks_and_layouts_switch() {
    let mut s = state();
    assert!(!blink(&mut s, 499));
    assert!(s.caret_blink_on);
    assert!(blink(&mut s, 500));
    assert!(!s.caret_blink_on);
    assert_eq!(layout_to_switch_to(&s, "us"), None);
    assert_eq!(layout_to_switch_to(&s, "de"), Some("us".to_string()));
}

#[test]
fn passwords_are_masked() {
    assert_eq!(display_text("hunter2", true), "*******");
    assert_eq!(display_text("éé", true), "**");
    assert_eq!(display_text("plain", false), "plain");
}

#[test]
fn text_is_measured_by_its_font() {
    assert_eq!(text_width("REDFOG", true), 60);
    assert_eq!(text_width("LOG IN", false), 54);
    assert_eq!(text_width("é", false), 9);
    assert_eq!(text_width("", true), 0);
}

#[test]
fn things_are_centered() {
    assert_eq!(center(100, 44, 15), 114);
    assert_eq!(center(100, 15, 44), 100 + (15 - 44) / 2);
    assert_eq!(center(-7, 10, 10), -7);
}

#[test]
fn pixels_off_the_canvas_are_dropped() {
    assert_eq!(pixel_index(3, 2, 10, 5), Some(23));
    assert_eq!(pixel_index(9, 4, 10, 5), Some(49));
    for (x, y) in [(-1, 0), (0, -1), (10, 0), (0, 5)] {
        assert_eq!(pixel_index(x, y, 10, 5), None);
    }
}

#[test]
fn a_background_lasts_as_long_as_its_size() {
    assert!(background_is_stale(&None, 1, 1));
    let kept = Some(BackgroundCache { width: 2, height: 1, rgba: vec![0; 8] });
    assert!(!background_is_stale(&kept, 2, 1));
    assert!(background_is_stale(&kept, 1, 2));
}

#[test]
fn keys_are_offset_and_read_before_they_change_what_is_held() {
    let down = key_event(30, true);
    assert_eq!((down.keycode, down.reads_text, down.down), (38, true, true));
    let up = key_event(30, false);
    assert_eq!((up.keycode, up.reads_text, up.down), (38, false, false));
    assert_eq!(layout_to_use("de", true), "de");
    assert_eq!(layout_to_use("no-such-layout", false), "us");
}

#[test]
fn the_screens_state_can_be_copied() {
    let mut state = LoginUiState::new(640, 480, vec!["A".to_string(), "B".to_string()], (3, 4));
    state.username = "user".to_string();
    state.password = "secret".to_string();
    state.error_msg = Some("no".to_string());
    state.selected_session = 1;
    let copy = state.clone();
    assert_eq!((copy.width, copy.height, copy.cursor_pos), (640, 480, (3, 4)));
    assert_eq!((copy.username, copy.password, copy.error_msg), (state.username, state.password, state.error_msg));
    assert_eq!((copy.sessions, copy.keyboard_layouts), (state.sessions, state.keyboard_layouts));
    assert_eq!((copy.selected_session, copy.focus, copy.caret_blink_on), (1, Focus::Username, true));
    for answer in [LoginResponse::Authenticate(Ok(())), LoginResponse::Authenticate(Err("no".to_string()))] {
        assert_eq!(answer.clone(), answer);
    }
}
