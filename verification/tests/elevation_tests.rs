use switchhosts::hosts_apply::elevation::{
    applescript_string_literal, elevated_copy_result, is_user_cancelled, osascript_copy_script,
    osascript_result, pkexec_result, shell_execute_failure, temp_file_name,
};
use switchhosts::hosts_apply::error::HostsApplyError;

#[test]
fn applescript_literal_escapes() {
    assert_eq!(applescript_string_literal("/tmp/a b"), "\"/tmp/a b\"");
    assert_eq!(applescript_string_literal(r#"a"b\c"#), r#""a\"b\\c""#);
}

#[test]
fn osascript_script_text() {
    let s = osascript_copy_script("/tmp/x.hosts", "/etc/hosts");
    assert_eq!(
        s,
        "do shell script \"/bin/cp \" & quoted form of \"/tmp/x.hosts\" & \" \" & quoted form of \"/etc/hosts\" & \" && /bin/chmod 644 \" & quoted form of \"/etc/hosts\" with administrator privileges"
    );
}

#[test]
fn cancellation_detection() {
    assert!(is_user_cancelled("execution error: User canceled. (-128)"));
    assert!(is_user_cancelled("(-128)"));
    assert!(is_user_cancelled("User cancelled"));
    assert!(!is_user_cancelled("some other failure (-1)"));
}

#[test]
fn osascript_outcomes() {
    assert_eq!(osascript_result(true, "exit status: 0", ""), Ok(()));
    assert_eq!(osascript_result(false, "exit status: 1", "x (-128)"), Err(HostsApplyError::Cancelled));
    assert_eq!(
        osascript_result(false, "exit status: 1", "  bad thing \n"),
        Err(HostsApplyError::Io { message: "osascript exit exit status: 1: bad thing".into() })
    );
}

#[test]
fn pkexec_outcomes() {
    assert_eq!(pkexec_result(true, Some(0), ""), Ok(()));
    assert_eq!(pkexec_result(false, Some(126), "whatever"), Err(HostsApplyError::Cancelled));
    assert_eq!(pkexec_result(false, Some(127), "  "), Err(HostsApplyError::NoAccess { message: "polkit refused the action".into() }));
    assert_eq!(pkexec_result(false, Some(127), " not authorized\n"), Err(HostsApplyError::NoAccess { message: "not authorized".into() }));
    assert_eq!(pkexec_result(false, Some(1), "cp: failed\n"), Err(HostsApplyError::Io { message: "pkexec exit 1: cp: failed".into() }));
    assert_eq!(pkexec_result(false, Some(-2), ""), Err(HostsApplyError::Io { message: "pkexec exit -2: ".into() }));
    assert_eq!(pkexec_result(false, None, "killed"), Err(HostsApplyError::Io { message: "pkexec exit ?: killed".into() }));
}

#[test]
fn windows_outcomes() {
    assert_eq!(shell_execute_failure(1223, 1223, "s", "d"), HostsApplyError::Cancelled);
    assert_eq!(
        shell_execute_failure(5, 1223, "C:\\t\\s", "C:\\h"),
        HostsApplyError::Io { message: "ShellExecuteExW failed: GetLastError=5; src=C:\\t\\s, dst=C:\\h".into() }
    );
    assert_eq!(elevated_copy_result(0, "s", "d"), Ok(()));
    assert_eq!(
        elevated_copy_result(1, "s", "d"),
        Err(HostsApplyError::Io { message: "elevated copy failed: cmd /c copy exit code 1; src=s, dst=d".into() })
    );
}

#[test]
fn temp_names() {
    assert_eq!(temp_file_name(1712345678901234567), "swh_apply_1712345678901234567.hosts");
    assert_eq!(temp_file_name(0), "swh_apply_0.hosts");
    assert_eq!(temp_file_name(-15), "swh_apply_-15.hosts");
    assert_eq!(temp_file_name(i64::MIN), format!("swh_apply_{}.hosts", i64::MIN));
}
