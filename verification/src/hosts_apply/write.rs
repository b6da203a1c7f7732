//! System hosts write orchestration: what is written, and what each write
//! attempt leads to.
//!
//! 1. Line endings are normalized to LF in memory.
//! 2. In `append` mode the new content goes under the
//!    `# --- SWITCHHOSTS_CONTENT_START ---` marker, dropping anything that
//!    was below it before.
//! 3. The on-disk content gets the platform's line endings.
//! 4. If the file already holds it (same hash), nothing is written.
//! 5. A direct write comes first; a permission error falls through to the
//!    elevation helper.
//! 6. On success, the previous and the new content are returned so the
//!    caller can record apply history.

use vstd::prelude::*;
use crate::text::{
    chars_of, concat, find_chars, find_spec, replace_seq, replace_str, string_from_chars,
    string_of, str_eq, trim_end_chars, trim_end_seq,
};
use super::error::HostsApplyError;
use std::collections::hash_map::DefaultHasher;
use std::hash::Hasher;
use vstd::std_specs::hash::DefaultHasherAdditionalSpecFns;
use vstd::utf8::encode_utf8;

verus! {

broadcast use vstd::string::group_string_axioms;

pub const CONTENT_START_MARKER: &'static str = "# --- SWITCHHOSTS_CONTENT_START ---";

/// The platform family the hosts file is written on.
#[derive(Debug, Clone, Copy, PartialEq, Eq)]
pub enum HostsPlatform {
    Windows,
    Unix,
}

pub open spec fn system_hosts_path_spec(platform: HostsPlatform) -> Seq<char> {
    match platform {
        HostsPlatform::Windows => "C:\\Windows\\System32\\drivers\\etc\\hosts"@,
        HostsPlatform::Unix => "/etc/hosts"@,
    }
}

/// Where the system hosts file lives.
pub fn system_hosts_path(platform: HostsPlatform) -> (r: &'static str)
    ensures
        r@ == system_hosts_path_spec(platform),
{
    match platform {
        HostsPlatform::Windows => "C:\\Windows\\System32\\drivers\\etc\\hosts",
        HostsPlatform::Unix => "/etc/hosts",
    }
}

// ---- line endings ----------------------------------------------------------------

/// `s.replace("\r\n", "\n").replace('\r', "\n")`.
pub open spec fn normalize_spec(s: Seq<char>) -> Seq<char> {
    replace_seq(replace_seq(s, seq!['\r', '\n'], seq!['\n']), seq!['\r'], seq!['\n'])
}

/// LF endings to the platform's: CRLF on Windows, unchanged elsewhere.
pub open spec fn restore_spec(s: Seq<char>, platform: HostsPlatform) -> Seq<char> {
    match platform {
        HostsPlatform::Windows => replace_seq(s, seq!['\n'], seq!['\r', '\n']),
        HostsPlatform::Unix => s,
    }
}

/// Every CRLF and every lone CR becomes LF.
pub fn normalize_line_endings(s: &str) -> (r: String)
    ensures
        r@ == normalize_spec(s@),
{
    proof {
        reveal_strlit("\r\n");
        reveal_strlit("\n");
        reveal_strlit("\r");
        assert("\r\n"@ =~= seq!['\r', '\n']);
        assert("\n"@ =~= seq!['\n']);
        assert("\r"@ =~= seq!['\r']);
    }
    let once = replace_str(s, "\r\n", "\n");
    replace_str(once.as_str(), "\r", "\n")
}

/// LF endings as the platform writes them.
pub fn restore_line_endings(s: &str, platform: HostsPlatform) -> (r: String)
    ensures
        r@ == restore_spec(s@, platform),
{
    proof {
        reveal_strlit("\r\n");
        reveal_strlit("\n");
        assert("\r\n"@ =~= seq!['\r', '\n']);
        assert("\n"@ =~= seq!['\n']);
    }
    match platform {
        HostsPlatform::Windows => replace_str(s, "\n", "\r\n"),
        HostsPlatform::Unix => string_of(s),
    }
}

// ---- append mode -----------------------------------------------------------------

/// What append mode keeps of the previous content: everything before the
/// marker, trailing whitespace dropped; all of it when there is no marker.
pub open spec fn append_head(previous: Seq<char>) -> Seq<char> {
    match find_spec(previous, CONTENT_START_MARKER@) {
        Some(i) => trim_end_seq(previous.take(i)),
        None => previous,
    }
}

/// The content written in append mode.
pub open spec fn append_content_spec(previous: Seq<char>, new_content: Seq<char>) -> Seq<char> {
    if new_content.len() == 0 {
        append_head(previous) + seq!['\n']
    } else {
        append_head(previous) + seq!['\n', '\n'] + CONTENT_START_MARKER@ + seq!['\n', '\n']
            + new_content
    }
}

/// Keep what precedes the SwitchHosts block of `previous_lf` and put
/// `new_content_lf` under a fresh marker.
pub fn make_append_content(previous_lf: &str, new_content_lf: &str) -> (r: String)
    ensures
        r@ == append_content_spec(previous_lf@, new_content_lf@),
{
    proof {
        reveal_strlit("\n");
        reveal_strlit("\n\n");
        assert("\n\n"@ =~= seq!['\n', '\n']);
        assert("\n"@ =~= seq!['\n']);
    }
    let prev = chars_of(previous_lf);
    let marker = chars_of(CONTENT_START_MARKER);
    let head = match find_chars(&prev, &marker) {
        Some(idx) => {
            let mut before: Vec<char> = Vec::new();
            let mut k: usize = 0;
            while k < idx
                invariant
                    idx <= prev@.len(),
                    k <= idx,
                    before@ == prev@.take(k as int),
                decreases idx - k,
            {
                before.push(prev[k]);
                k = k + 1;
                assert(before@ =~= prev@.take(k as int));
            }
            let t = trim_end_chars(&before);
            string_from_chars(&t)
        },
        None => string_of(previous_lf),
    };
    if new_content_lf.is_empty() {
        return concat(head.as_str(), "\n");
    }
    let a = concat(head.as_str(), "\n\n");
    let b = concat(a.as_str(), CONTENT_START_MARKER);
    let c = concat(b.as_str(), "\n\n");
    concat(c.as_str(), new_content_lf)
}

// ---- comparison hash -------------------------------------------------------------

/// The value of a fresh `DefaultHasher` fed the UTF-8 bytes of `s` and then
/// a `0xff` end marker, as `Hash for str` feeds them.
pub open spec fn spec_hash_str(s: Seq<char>) -> u64 {
    <DefaultHasher as DefaultHasherAdditionalSpecFns>::spec_finish(seq![encode_utf8(s), seq![0xffu8]])
}

fn hash_str(s: &str) -> (r: u64)
    ensures
        r == spec_hash_str(s@),
{
    let mut hasher = DefaultHasher::new();
    hasher.write(s.as_bytes());
    let end: Vec<u8> = vec![0xffu8];
    assert(end@ =~= seq![0xffu8]);
    hasher.write(end.as_slice());
    assert(hasher@ =~= seq![encode_utf8(s@), seq![0xffu8]]);
    hasher.finish()
}

// ---- the apply plan --------------------------------------------------------------

/// The content to write, in LF form, for the selected content, the write
/// mode and the current (LF) system hosts content.
pub open spec fn final_content_spec(aggregated: Seq<char>, write_mode: Seq<char>, previous: Seq<
    char,
>) -> Seq<char> {
    if write_mode == "append"@ {
        append_content_spec(normalize_spec(previous), normalize_spec(aggregated))
    } else {
        normalize_spec(aggregated)
    }
}

/// What an apply will write, worked out before any write.
#[derive(Debug, PartialEq)]
pub struct ApplyPlan {
    /// The current system hosts content, LF line endings.
    pub previous_content: String,
    /// The content to write, LF line endings.
    pub new_content: String,
    /// The content to write, platform line endings.
    pub disk_content: String,
    /// The file already holds `disk_content` (by hash): nothing to write.
    pub unchanged: bool,
}

/// A successful apply: the content before and after.
#[derive(Debug, PartialEq)]
pub struct ApplyOutcome {
    pub previous_content: String,
    pub new_content: String,
    /// True when the file was already up to date and no write happened.
    pub unchanged: bool,
}

pub open spec fn plan_spec(
    plan: ApplyPlan,
    aggregated: Seq<char>,
    write_mode: Seq<char>,
    previous_raw: Seq<char>,
    platform: HostsPlatform,
) -> bool {
    &&& plan.previous_content@ == normalize_spec(previous_raw)
    &&& plan.new_content@ == final_content_spec(aggregated, write_mode, previous_raw)
    &&& plan.disk_content@ == restore_spec(plan.new_content@, platform)
    &&& plan.unchanged == (spec_hash_str(previous_raw) == spec_hash_str(plan.disk_content@))
}

/// Work out what applying `aggregated_content` in `write_mode` writes,
/// given the current raw content of the system hosts file (empty where it
/// could not be read).
pub fn plan_apply(
    aggregated_content: &str,
    write_mode: &str,
    previous_raw: &str,
    platform: HostsPlatform,
) -> (r: ApplyPlan)
    ensures
        plan_spec(r, aggregated_content@, write_mode@, previous_raw@, platform),
{
    let content_lf = normalize_line_endings(aggregated_content);
    let previous_lf = normalize_line_endings(previous_raw);
    let final_content_lf = if str_eq(write_mode, "append") {
        make_append_content(previous_lf.as_str(), content_lf.as_str())
    } else {
        content_lf
    };
    let disk_content = restore_line_endings(final_content_lf.as_str(), platform);
    let unchanged = hash_str(previous_raw) == hash_str(disk_content.as_str());
    ApplyPlan {
        previous_content: previous_lf,
        new_content: final_content_lf,
        disk_content,
        unchanged,
    }
}

/// What to do next while applying.
#[derive(Debug, PartialEq)]
pub enum ApplyAction {
    /// The apply is over, with this result.
    Finish(Result<ApplyOutcome, HostsApplyError>),
    /// Write `content` to the system hosts file directly.
    Write { content: String },
    /// Write `content` through the OS elevation helper.
    WriteElevated { content: String },
}

/// How a direct write of the system hosts file went.
#[derive(Debug, PartialEq)]
pub enum DirectWrite {
    Written,
    PermissionDenied,
    Failed { reason: String },
}

pub open spec fn outcome_of(plan: ApplyPlan, unchanged: bool, o: ApplyOutcome) -> bool {
    &&& o.previous_content@ == plan.previous_content@
    &&& o.new_content@ == plan.new_content@
    &&& o.unchanged == unchanged
}

fn outcome(plan: &ApplyPlan, unchanged: bool) -> (r: ApplyOutcome)
    ensures
        outcome_of(*plan, unchanged, r),
{
    ApplyOutcome {
        previous_content: plan.previous_content.clone(),
        new_content: plan.new_content.clone(),
        unchanged,
    }
}

/// The first step: finish at once when the file is up to date, else write.
pub fn first_action(plan: &ApplyPlan) -> (r: ApplyAction)
    ensures
        plan.unchanged ==> (r matches ApplyAction::Finish(Ok(o)) && outcome_of(*plan, true, o)),
        !plan.unchanged ==> (r matches ApplyAction::Write { content } && content@
            == plan.disk_content@),
{
    if plan.unchanged {
        ApplyAction::Finish(Ok(outcome(plan, true)))
    } else {
        ApplyAction::Write { content: plan.disk_content.clone() }
    }
}

/// After a direct write to `target`: done, or on to elevation after a
/// permission error, or failed.
pub fn after_direct_write(plan: &ApplyPlan, target: &str, result: DirectWrite) -> (r: ApplyAction)
    ensures
        result is Written ==> (r matches ApplyAction::Finish(Ok(o)) && outcome_of(*plan, false, o)),
        result is PermissionDenied ==> (r matches ApplyAction::WriteElevated { content }
            && content@ == plan.disk_content@),
        result matches DirectWrite::Failed { reason } ==> (r matches ApplyAction::Finish(
            Err(HostsApplyError::Io { message }),
        ) && message@ == "write "@ + target@ + ": "@ + reason@),
{
    match result {
        DirectWrite::Written => ApplyAction::Finish(Ok(outcome(plan, false))),
        DirectWrite::PermissionDenied => ApplyAction::WriteElevated {
            content: plan.disk_content.clone(),
        },
        DirectWrite::Failed { reason } => {
            let a = concat("write ", target);
            let b = concat(a.as_str(), ": ");
            let message = concat(b.as_str(), reason.as_str());
            ApplyAction::Finish(Err(HostsApplyError::Io { message }))
        },
    }
}

/// After the elevated write: its error, or the outcome.
pub fn after_elevated_write(plan: &ApplyPlan, result: Result<(), HostsApplyError>) -> (r: Result<
    ApplyOutcome,
    HostsApplyError,
>)
    ensures
        result is Ok ==> (r matches Ok(o) && outcome_of(*plan, false, o)),
        result matches Err(e) ==> r == Err::<ApplyOutcome, HostsApplyError>(e),
{
    match result {
        Ok(()) => Ok(outcome(plan, false)),
        Err(e) => Err(e),
    }
}

} // verus!
