use switchhosts::hosts_apply::error::HostsApplyError;
use switchhosts::hosts_apply::write::{
    after_direct_write, after_elevated_write, first_action, make_append_content,
    normalize_line_endings, plan_apply, restore_line_endings, system_hosts_path, ApplyAction,
    ApplyOutcome, DirectWrite, HostsPlatform, CONTENT_START_MARKER,
};
use switchhosts::json::bridge::parse_json;

#[test]
fn system_hosts_paths() {
    assert_eq!(system_hosts_path(HostsPlatform::Unix), "/etc/hosts");
    assert_eq!(system_hosts_path(HostsPlatform::Windows), r"C:\Windows\System32\drivers\etc\hosts");
}

#[test]
fn normalize_crlf_and_lone_cr() {
    assert_eq!(normalize_line_endings("a\r\nb\rc\n\r\r\nd"), "a\nb\nc\n\n\nd");
    assert_eq!(normalize_line_endings(""), "");
}

#[test]
fn normalize_is_idempotent() {
    let once = normalize_line_endings("x\r\r\n\ry\r");
    assert_eq!(normalize_line_endings(&once), once);
    assert!(!once.contains('\r'));
}

#[test]
fn restore_windows_and_back() {
    let lf = "127.0.0.1 a\n\n::1 b\n";
    let crlf = restore_line_endings(lf, HostsPlatform::Windows);
    assert_eq!(crlf, "127.0.0.1 a\r\n\r\n::1 b\r\n");
    assert_eq!(normalize_line_endings(&crlf), lf);
    assert_eq!(restore_line_endings(lf, HostsPlatform::Unix), lf);
}

#[test]
fn append_without_marker_keeps_everything() {
    let r = make_append_content("127.0.0.1 localhost", "1.2.3.4 x");
    assert_eq!(r, format!("127.0.0.1 localhost\n\n{CONTENT_START_MARKER}\n\n1.2.3.4 x"));
}

#[test]
fn append_replaces_previous_block() {
    let prev = format!("127.0.0.1 localhost  \n\n{CONTENT_START_MARKER}\n\nold stuff\n");
    let r = make_append_content(&prev, "new stuff");
    assert_eq!(r, format!("127.0.0.1 localhost\n\n{CONTENT_START_MARKER}\n\nnew stuff"));
}

#[test]
fn append_empty_content_drops_block() {
    let prev = format!("head\n{CONTENT_START_MARKER}\nold");
    assert_eq!(make_append_content(&prev, ""), "head\n");
}

#[test]
fn append_twice_is_stable() {
    let once = make_append_content("base\n", "c");
    let twice = make_append_content(&once, "c");
    assert_eq!(make_append_content(&twice, "c"), twice);
}

#[test]
fn plan_overwrite_mode() {
    let plan = plan_apply("a\r\nb", "overwrite", "old\r\n", HostsPlatform::Unix);
    assert_eq!(plan.previous_content, "old\n");
    assert_eq!(plan.new_content, "a\nb");
    assert_eq!(plan.disk_content, "a\nb");
    assert!(!plan.unchanged);
}

#[test]
fn plan_append_mode_on_windows() {
    let plan = plan_apply("1.1.1.1 x", "append", "base\r\n", HostsPlatform::Windows);
    let lf = format!("base\n\n\n{CONTENT_START_MARKER}\n\n1.1.1.1 x");
    assert_eq!(plan.new_content, lf);
    assert_eq!(plan.disk_content, lf.replace('\n', "\r\n"));
}

#[test]
fn plan_identical_file_is_unchanged() {
    let plan = plan_apply("a\nb\n", "overwrite", "a\nb\n", HostsPlatform::Unix);
    assert!(plan.unchanged);
    match first_action(&plan) {
        ApplyAction::Finish(Ok(o)) => {
            assert_eq!(o, ApplyOutcome { previous_content: "a\nb\n".into(), new_content: "a\nb\n".into(), unchanged: true });
        }
        other => panic!("unexpected {other:?}"),
    }
}

#[test]
fn changed_file_is_written_then_done() {
    let plan = plan_apply("new", "overwrite", "old", HostsPlatform::Unix);
    assert_eq!(first_action(&plan), ApplyAction::Write { content: "new".into() });
    match after_direct_write(&plan, "/etc/hosts", DirectWrite::Written) {
        ApplyAction::Finish(Ok(o)) => {
            assert_eq!(o, ApplyOutcome { previous_content: "old".into(), new_content: "new".into(), unchanged: false });
        }
        other => panic!("unexpected {other:?}"),
    }
}

#[test]
fn permission_denied_goes_to_elevation() {
    let plan = plan_apply("new", "overwrite", "old", HostsPlatform::Unix);
    assert_eq!(after_direct_write(&plan, "/etc/hosts", DirectWrite::PermissionDenied), ApplyAction::WriteElevated { content: "new".into() });
    assert!(matches!(after_elevated_write(&plan, Ok(())), Ok(ApplyOutcome { unchanged: false, .. })));
    assert_eq!(after_elevated_write(&plan, Err(HostsApplyError::Cancelled)), Err(HostsApplyError::Cancelled));
}

#[test]
fn other_write_error_is_io() {
    let plan = plan_apply("new", "overwrite", "old", HostsPlatform::Unix);
    assert_eq!(
        after_direct_write(&plan, "/etc/hosts", DirectWrite::Failed { reason: "disk full".into() }),
        ApplyAction::Finish(Err(HostsApplyError::Io { message: "write /etc/hosts: disk full".into() }))
    );
}

#[test]
fn renderer_values_of_errors() {
    let v = HostsApplyError::NoAccess { message: "m".into() }.into_renderer_value();
    assert_eq!(v, parse_json(br#"{"success": false, "code": "no_access", "message": "m"}"#).unwrap());
    let v = HostsApplyError::Cancelled.into_renderer_value();
    assert_eq!(v, parse_json(br#"{"success": false, "code": "cancelled", "message": "user cancelled"}"#).unwrap());
    let v = HostsApplyError::Io { message: "boom".into() }.into_renderer_value();
    assert_eq!(v, parse_json(br#"{"success": false, "code": "fail", "message": "boom"}"#).unwrap());
}

#[test]
fn error_texts() {
    assert_eq!(HostsApplyError::NoAccess { message: "m".into() }.to_text(), "no access: m");
    assert_eq!(HostsApplyError::Cancelled.to_text(), "cancelled");
    assert_eq!(HostsApplyError::Io { message: "x".into() }.to_text(), "io: x");
}

#[test]
fn reapplying_the_same_selection_writes_nothing() {
    let with_block = "127.0.0.1 localhost\r\n\r\n# --- SWITCHHOSTS_CONTENT_START ---\r\n\r\nold\r\n";
    for platform in [HostsPlatform::Unix, HostsPlatform::Windows] {
        for (mode, previous) in [("overwrite", "anything\n"), ("append", with_block)] {
            let first = plan_apply("1.1.1.1 a\r\n2.2.2.2 b", mode, previous, platform);
            assert!(!first.unchanged);
            let second = plan_apply("1.1.1.1 a\r\n2.2.2.2 b", mode, &first.disk_content, platform);
            assert!(second.unchanged, "{mode} {platform:?}");
            assert_eq!(second.new_content, first.new_content);
        }
    }
}

#[test]
fn reapplying_an_empty_selection_in_append_mode_keeps_growing() {
    let first = plan_apply("", "append", "127.0.0.1 localhost", HostsPlatform::Unix);
    assert_eq!(first.disk_content, "127.0.0.1 localhost\n");
    let second = plan_apply("", "append", &first.disk_content, HostsPlatform::Unix);
    assert_eq!(second.disk_content, "127.0.0.1 localhost\n\n");
    assert!(!second.unchanged);
}

#[test]
fn reapplying_in_append_mode_onto_a_file_without_trailing_whitespace_writes_nothing() {
    let first = plan_apply("1.1.1.1 a", "append", "127.0.0.1 localhost", HostsPlatform::Unix);
    let second = plan_apply("1.1.1.1 a", "append", &first.disk_content, HostsPlatform::Unix);
    assert!(second.unchanged);
    let trailing = plan_apply("1.1.1.1 a", "append", "127.0.0.1 localhost\n", HostsPlatform::Unix);
    let again = plan_apply("1.1.1.1 a", "append", &trailing.disk_content, HostsPlatform::Unix);
    assert!(!again.unchanged);
}

#[test]
fn reapplying_onto_a_raw_file_with_a_block_writes_nothing() {
    let raw = "127.0.0.1 localhost  \r\r\n# --- SWITCHHOSTS_CONTENT_START ---\r\nold\r";
    for platform in [HostsPlatform::Unix, HostsPlatform::Windows] {
        let first = plan_apply("10.0.0.1 x\r", "append", raw, platform);
        let second = plan_apply("10.0.0.1 x\r", "append", &first.disk_content, platform);
        assert!(second.unchanged, "{platform:?}");
    }
}
