use redfog::accounts::parse_logind_session_id;

#[test]
fn parses_session_id_from_real_cgroup_v2_format() {
    assert_eq!(
        parse_logind_session_id("0::/user.slice/user-1000.slice/session-c14.scope\n"),
        Some("c14".to_string())
    );
}

#[test]
fn parses_session_id_with_nested_subpath() {
    assert_eq!(
        parse_logind_session_id("0::/user.slice/user-1000.slice/session-c14.scope/some/nested/cgroup\n"),
        Some("c14".to_string())
    );
}

#[test]
fn returns_none_when_not_in_a_logind_session() {
    assert_eq!(parse_logind_session_id("0::/redfog-pam-session-12345-0.scope\n"), None);
    assert_eq!(parse_logind_session_id("0::/user.slice/user-1000.slice\n"), None);
    assert_eq!(parse_logind_session_id(""), None);
}

#[test]
fn tolerates_legacy_cgroup_v1_style_lines() {
    assert_eq!(
        parse_logind_session_id("1:name=systemd:/user.slice/user-1000.slice/session-5.scope\n7:memory:/user.slice\n"),
        Some("5".to_string())
    );
}

#[test]
fn an_empty_name_is_passed_over() {
    assert_eq!(parse_logind_session_id("0::/session-\n1::/session-.scope\n2::/session-7\n"), Some("7".to_string()));
    assert_eq!(parse_logind_session_id("0::/a/session-x/session-y"), Some("x".to_string()));
}
