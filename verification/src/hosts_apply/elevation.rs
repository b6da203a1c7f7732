//! Decisions of the platform elevation helpers: the AppleScript that asks
//! macOS for administrator rights, and what the exit of `osascript`,
//! `pkexec` or the elevated Windows copy means.
//!
//! The helpers themselves (spawning the processes, the UAC prompt) run
//! outside the library; they hand back what the process reported.

use vstd::prelude::*;
use crate::text::{
    concat, contains_seq, contains_str, decimal_seq, i64_to_decimal, int_decimal_seq, replace_seq,
    replace_str, string_of, trim_seq, trim_str, u64_to_decimal,
};
use super::error::HostsApplyError;

verus! {

broadcast use vstd::string::group_string_axioms;

// ---- macOS: osascript --------------------------------------------------------------

/// An AppleScript string literal for `s`: in double quotes, with `\` and
/// `"` escaped by a backslash.
pub open spec fn applescript_literal_spec(s: Seq<char>) -> Seq<char> {
    seq!['"'] + replace_seq(replace_seq(s, seq!['\\'], seq!['\\', '\\']), seq!['"'], seq!['\\', '"'])
        + seq!['"']
}

/// AppleScript string literal: wrap in double quotes, escape `"` and `\`.
/// Shell quoting is left to `quoted form of`.
pub fn applescript_string_literal(s: &str) -> (r: String)
    ensures
        r@ == applescript_literal_spec(s@),
{
    proof {
        reveal_strlit("\\");
        reveal_strlit("\\\\");
        reveal_strlit("\"");
        reveal_strlit("\\\"");
        assert("\\"@ =~= seq!['\\']);
        assert("\\\\"@ =~= seq!['\\', '\\']);
        assert("\""@ =~= seq!['"']);
        assert("\\\""@ =~= seq!['\\', '"']);
    }
    let a = replace_str(s, "\\", "\\\\");
    let escaped = replace_str(a.as_str(), "\"", "\\\"");
    let b = concat("\"", escaped.as_str());
    concat(b.as_str(), "\"")
}

/// The AppleScript that copies `src` over `dst` as root and makes `dst`
/// mode 644, both paths passed through `quoted form of`.
pub open spec fn osascript_copy_script_spec(src: Seq<char>, dst: Seq<char>) -> Seq<char> {
    "do shell script \"/bin/cp \" & quoted form of "@ + applescript_literal_spec(src)
        + " & \" \" & quoted form of "@ + applescript_literal_spec(dst)
        + " & \" && /bin/chmod 644 \" & quoted form of "@ + applescript_literal_spec(dst)
        + " with administrator privileges"@
}

pub fn osascript_copy_script(src: &str, dst: &str) -> (r: String)
    ensures
        r@ == osascript_copy_script_spec(src@, dst@),
{
    let src_lit = applescript_string_literal(src);
    let dst_lit = applescript_string_literal(dst);
    let a = concat("do shell script \"/bin/cp \" & quoted form of ", src_lit.as_str());
    let b = concat(a.as_str(), " & \" \" & quoted form of ");
    let c = concat(b.as_str(), dst_lit.as_str());
    let d = concat(c.as_str(), " & \" && /bin/chmod 644 \" & quoted form of ");
    let e = concat(d.as_str(), dst_lit.as_str());
    concat(e.as_str(), " with administrator privileges")
}

/// `osascript` reports a dismissed prompt as `(-128)` whatever the locale;
/// the English texts are checked too.
pub open spec fn is_user_cancelled_spec(stderr: Seq<char>) -> bool {
    contains_seq(stderr, "(-128)"@) || contains_seq(stderr, "User canceled"@) || contains_seq(
        stderr,
        "User cancelled"@,
    )
}

pub fn is_user_cancelled(stderr: &str) -> (r: bool)
    ensures
        r == is_user_cancelled_spec(stderr@),
{
    contains_str(stderr, "(-128)") || contains_str(stderr, "User canceled") || contains_str(
        stderr,
        "User cancelled",
    )
}

/// What an `osascript` run that exited with `success` means; `status` is
/// the text of its exit status and `stderr` its error output.
pub fn osascript_result(success: bool, status: &str, stderr: &str) -> (r: Result<(), HostsApplyError>)
    ensures
        success ==> r is Ok,
        !success && is_user_cancelled_spec(stderr@) ==> r matches Err(HostsApplyError::Cancelled),
        !success && !is_user_cancelled_spec(stderr@) ==> (r matches Err(
            HostsApplyError::Io { message },
        ) && message@ == "osascript exit "@ + status@ + ": "@ + trim_seq(stderr@)),
{
    if success {
        return Ok(());
    }
    if is_user_cancelled(stderr) {
        return Err(HostsApplyError::Cancelled);
    }
    let a = concat("osascript exit ", status);
    let b = concat(a.as_str(), ": ");
    let t = trim_str(stderr);
    Err(HostsApplyError::Io { message: concat(b.as_str(), t.as_str()) })
}

// ---- Linux: pkexec -----------------------------------------------------------------

/// The text of `pkexec`'s exit code in an error message: the number, or
/// `?` when the process was killed by a signal.
pub open spec fn exit_code_text(code: Option<i32>) -> Seq<char> {
    match code {
        Some(c) => int_decimal_seq(c as int),
        None => "?"@,
    }
}

/// What a `pkexec /bin/cp` run means. Exit 126: the user dismissed the
/// dialog or failed to authenticate. Exit 127: polkit refused. Anything
/// else comes from `cp`.
pub fn pkexec_result(success: bool, code: Option<i32>, stderr: &str) -> (r: Result<
    (),
    HostsApplyError,
>)
    ensures
        success ==> r is Ok,
        !success && code == Some(126i32) ==> r matches Err(HostsApplyError::Cancelled),
        !success && code == Some(127i32) ==> (r matches Err(HostsApplyError::NoAccess { message })
            && message@ == (if trim_seq(stderr@).len() == 0 {
            "polkit refused the action"@
        } else {
            trim_seq(stderr@)
        })),
        !success && code != Some(126i32) && code != Some(127i32) ==> (r matches Err(
            HostsApplyError::Io { message },
        ) && message@ == "pkexec exit "@ + exit_code_text(code) + ": "@ + trim_seq(stderr@)),
{
    if success {
        return Ok(());
    }
    let stderr_trim = trim_str(stderr);
    match code {
        Some(126) => Err(HostsApplyError::Cancelled),
        Some(127) => Err(
            HostsApplyError::NoAccess {
                message: if stderr_trim.as_str().is_empty() {
                    string_of("polkit refused the action")
                } else {
                    stderr_trim
                },
            },
        ),
        _ => {
            let code_text = match code {
                Some(c) => i64_to_decimal(c as i64),
                None => string_of("?"),
            };
            let a = concat("pkexec exit ", code_text.as_str());
            let b = concat(a.as_str(), ": ");
            Err(HostsApplyError::Io { message: concat(b.as_str(), stderr_trim.as_str()) })
        },
    }
}

// ---- Windows: elevated self-relaunch -------------------------------------------------

/// `ShellExecuteExW` failed with `last_err`; `cancelled_code` is the
/// system's `ERROR_CANCELLED`, which the UAC prompt reports when dismissed.
pub fn shell_execute_failure(last_err: u32, cancelled_code: u32, src: &str, dst: &str) -> (r:
    HostsApplyError)
    ensures
        last_err == cancelled_code ==> r is Cancelled,
        last_err != cancelled_code ==> (r matches HostsApplyError::Io { message } && message@
            == "ShellExecuteExW failed: GetLastError="@ + decimal_seq(last_err as nat) + "; src="@
            + src@ + ", dst="@ + dst@),
{
    if last_err == cancelled_code {
        return HostsApplyError::Cancelled;
    }
    let n = u64_to_decimal(last_err as u64);
    let a = concat("ShellExecuteExW failed: GetLastError=", n.as_str());
    let b = concat(a.as_str(), "; src=");
    let c = concat(b.as_str(), src);
    let d = concat(c.as_str(), ", dst=");
    HostsApplyError::Io { message: concat(d.as_str(), dst) }
}

/// The elevated copy exited with `exit_code`: 0 is success, anything else
/// a failed copy.
pub fn elevated_copy_result(exit_code: u32, src: &str, dst: &str) -> (r: Result<(), HostsApplyError>)
    ensures
        exit_code == 0 ==> r is Ok,
        exit_code != 0 ==> (r matches Err(HostsApplyError::Io { message }) && message@
            == "elevated copy failed: cmd /c copy exit code "@ + decimal_seq(exit_code as nat)
            + "; src="@ + src@ + ", dst="@ + dst@),
{
    if exit_code == 0 {
        return Ok(());
    }
    let n = u64_to_decimal(exit_code as u64);
    let a = concat("elevated copy failed: cmd /c copy exit code ", n.as_str());
    let b = concat(a.as_str(), "; src=");
    let c = concat(b.as_str(), src);
    let d = concat(c.as_str(), ", dst=");
    Err(HostsApplyError::Io { message: concat(d.as_str(), dst) })
}

// ---- staging -----------------------------------------------------------------------

/// Name of the temp file staged for an elevated copy, from a nanosecond
/// timestamp: `swh_apply_<stamp>.hosts`.
pub fn temp_file_name(stamp: i64) -> (r: String)
    ensures
        r@ == "swh_apply_"@ + int_decimal_seq(stamp as int) + ".hosts"@,
{
    let n = i64_to_decimal(stamp);
    let a = concat("swh_apply_", n.as_str());
    concat(a.as_str(), ".hosts")
}

} // verus!
