//! Laws of the hosts write plan: line-ending normalization leaves no CR,
//! is idempotent and undoes the Windows conversion; append mode replaces
//! the previous SwitchHosts block instead of stacking a new one; a file
//! that already holds the content is not written; and applying the same
//! selection again writes nothing.

use vstd::prelude::*;
use crate::text::{
    contains_seq, find_spec, first_occurrence, is_ws, lemma_find_first, occurs_at, replace_seq,
    trim_end_seq, lemma_find_spec_first,
};
use super::write::{
    append_content_spec, append_head, normalize_spec, restore_spec,
    spec_hash_str, ApplyPlan, HostsPlatform, plan_spec, CONTENT_START_MARKER,
};

verus! {

pub open spec fn no_cr(s: Seq<char>) -> bool {
    !s.contains('\r')
}

proof fn lemma_replace_cr_no_cr(t: Seq<char>)
    ensures
        no_cr(replace_seq(t, seq!['\r'], seq!['\n'])),
    decreases t.len(),
{
    if t.len() > 0 {
        lemma_replace_cr_no_cr(t.skip(1));
        let r = replace_seq(t, seq!['\r'], seq!['\n']);
        let tail = replace_seq(t.skip(1), seq!['\r'], seq!['\n']);
        if occurs_at(t, seq!['\r'], 0) {
            assert(r == seq!['\n'] + tail);
        } else {
            assert(t.subrange(0, 1) =~= seq![t[0]]);
            assert(t[0] != '\r');
            assert(r == seq![t[0]] + tail);
        }
        assert forall|i: int| 0 <= i < r.len() implies r[i] != '\r' by {
            if i > 0 {
                assert(r[i] == tail[i - 1]);
            }
        }
    }
}

/// A pattern that starts with CR leaves CR-free text alone.
proof fn lemma_replace_identity(s: Seq<char>, pat: Seq<char>, rep: Seq<char>)
    requires
        pat.len() > 0,
        pat[0] == '\r',
        no_cr(s),
    ensures
        replace_seq(s, pat, rep) == s,
    decreases s.len(),
{
    if s.len() > 0 {
        assert(!occurs_at(s, pat, 0)) by {
            if occurs_at(s, pat, 0) {
                assert(s.subrange(0, pat.len() as int)[0] == s[0]);
            }
        }
        assert(no_cr(s.skip(1))) by {
            assert forall|i: int| 0 <= i < s.skip(1).len() implies s.skip(1)[i] != '\r' by {
                assert(s.skip(1)[i] == s[i + 1]);
            }
        }
        lemma_replace_identity(s.skip(1), pat, rep);
        assert(seq![s[0]] + s.skip(1) =~= s);
    }
}

/// Normalized text holds no CR.
pub proof fn law_normalize_no_cr(s: Seq<char>)
    ensures
        no_cr(normalize_spec(s)),
{
    lemma_replace_cr_no_cr(replace_seq(s, seq!['\r', '\n'], seq!['\n']));
}

/// Normalizing twice is normalizing once.
pub proof fn law_normalize_idempotent(s: Seq<char>)
    ensures
        normalize_spec(normalize_spec(s)) == normalize_spec(s),
{
    let t = normalize_spec(s);
    law_normalize_no_cr(s);
    lemma_replace_identity(t, seq!['\r', '\n'], seq!['\n']);
    lemma_replace_identity(t, seq!['\r'], seq!['\n']);
}

proof fn lemma_crlf_back(s: Seq<char>)
    requires
        no_cr(s),
    ensures
        replace_seq(replace_seq(s, seq!['\n'], seq!['\r', '\n']), seq!['\r', '\n'], seq!['\n']) == s,
    decreases s.len(),
{
    if s.len() > 0 {
        let rest = s.skip(1);
        assert(no_cr(rest)) by {
            assert forall|i: int| 0 <= i < rest.len() implies rest[i] != '\r' by {
                assert(rest[i] == s[i + 1]);
            }
        }
        lemma_crlf_back(rest);
        let rr = replace_seq(rest, seq!['\n'], seq!['\r', '\n']);
        let r = replace_seq(s, seq!['\n'], seq!['\r', '\n']);
        assert(s.subrange(0, 1) =~= seq![s[0]]);
        if s[0] == '\n' {
            assert(occurs_at(s, seq!['\n'], 0));
            assert(r == seq!['\r', '\n'] + rr);
            assert(r.subrange(0, 2) =~= seq!['\r', '\n']);
            assert(occurs_at(r, seq!['\r', '\n'], 0));
            assert(r.skip(2) =~= rr);
        } else {
            assert(!occurs_at(s, seq!['\n'], 0)) by {
                if occurs_at(s, seq!['\n'], 0) {
                    assert(s.subrange(0, 1)[0] == s[0]);
                }
            }
            assert(r == seq![s[0]] + rr);
            assert(!occurs_at(r, seq!['\r', '\n'], 0)) by {
                assert(r[0] == s[0]);
                if occurs_at(r, seq!['\r', '\n'], 0) {
                    assert(r.subrange(0, 2)[0] == r[0]);
                }
            }
            assert(r.skip(1) =~= rr);
        }
        assert(seq![s[0]] + rest =~= s);
    }
}

/// Converting normalized text to Windows line endings and normalizing it
/// again gives the text back.
pub proof fn law_windows_round_trip(s: Seq<char>)
    requires
        no_cr(s),
    ensures
        normalize_spec(restore_spec(s, HostsPlatform::Windows)) == s,
{
    lemma_crlf_back(s);
    lemma_replace_identity(s, seq!['\r'], seq!['\n']);
}

/// Elsewhere the disk content is the LF content itself.
pub proof fn law_unix_unchanged(s: Seq<char>)
    ensures
        restore_spec(s, HostsPlatform::Unix) == s,
{
}

// ---- append mode ---------------------------------------------------------------------

proof fn lemma_trim_end_prefix(x: Seq<char>)
    ensures
        trim_end_seq(x).len() <= x.len(),
        trim_end_seq(x) == x.take(trim_end_seq(x).len() as int),
    decreases x.len(),
{
    if x.len() > 0 && is_ws(x.last()) {
        lemma_trim_end_prefix(x.drop_last());
    } else {
        assert(x.take(x.len() as int) =~= x);
    }
}

proof fn lemma_trim_end_idempotent(x: Seq<char>)
    ensures
        trim_end_seq(trim_end_seq(x)) == trim_end_seq(x),
    decreases x.len(),
{
    if x.len() > 0 && is_ws(x.last()) {
        lemma_trim_end_idempotent(x.drop_last());
    }
}

proof fn lemma_trim_end_newlines(h: Seq<char>)
    ensures
        trim_end_seq(h + seq!['\n', '\n']) == trim_end_seq(h),
{
    let a = h + seq!['\n', '\n'];
    let b = h + seq!['\n'];
    assert(is_ws('\n'));
    assert(a.drop_last() =~= b);
    assert(a.last() == '\n');
    assert(trim_end_seq(a) == trim_end_seq(b));
    assert(b.drop_last() =~= h);
    assert(b.last() == '\n');
    assert(trim_end_seq(b) == trim_end_seq(h));
}

/// No occurrence of `pat` in a prefix of text that has none before `i`.
proof fn lemma_no_occurrence_in_prefix(s: Seq<char>, pat: Seq<char>, n: int)
    requires
        0 <= n <= s.len(),
        forall|j: int| 0 <= j && j + pat.len() <= n ==> !occurs_at(s, pat, j),
    ensures
        !contains_seq(s.take(n), pat),
{
    assert forall|j: int| !occurs_at(s.take(n), pat, j) by {
        if occurs_at(s.take(n), pat, j) {
            assert(s.take(n).subrange(j, j + pat.len()) =~= s.subrange(j, j + pat.len()));
            assert(occurs_at(s, pat, j));
        }
    }
}

/// What append mode keeps holds no marker.
proof fn lemma_head_has_no_marker(prev: Seq<char>)
    ensures
        !contains_seq(append_head(prev), CONTENT_START_MARKER@),
        !contains_seq(trim_end_seq(append_head(prev)), CONTENT_START_MARKER@),
{
    reveal_strlit("# --- SWITCHHOSTS_CONTENT_START ---");
    let m = CONTENT_START_MARKER@;
    assert(m.len() == 35);
    let h = append_head(prev);
    lemma_find_spec_first(prev, m);
    match find_spec(prev, m) {
        Some(i) => {
            assert(first_occurrence(prev, m, i));
            let t = trim_end_seq(prev.take(i));
            lemma_trim_end_prefix(prev.take(i));
            assert(t =~= prev.take(t.len() as int));
            lemma_no_occurrence_in_prefix(prev, m, t.len() as int);
        },
        None => {},
    }
    lemma_trim_end_prefix(h);
    assert forall|j: int| !occurs_at(trim_end_seq(h), m, j) by {
        let t = trim_end_seq(h);
        if occurs_at(t, m, j) {
            assert(t.subrange(j, j + m.len()) =~= h.subrange(j, j + m.len()));
            assert(occurs_at(h, m, j));
        }
    }
}

/// The marker ends the kept head: in what append mode wrote, the first
/// marker is the one it put there.
proof fn lemma_marker_after_head(h: Seq<char>, c: Seq<char>)
    requires
        !contains_seq(h, CONTENT_START_MARKER@),
    ensures
        find_spec(
            h + seq!['\n', '\n'] + CONTENT_START_MARKER@ + seq!['\n', '\n'] + c,
            CONTENT_START_MARKER@,
        ) == Some(h.len() + 2int),
{
    reveal_strlit("# --- SWITCHHOSTS_CONTENT_START ---");
    let m = CONTENT_START_MARKER@;
    let r = h + seq!['\n', '\n'] + m + seq!['\n', '\n'] + c;
    let k: int = h.len() + 2int;
    assert(m.len() == 35);
    assert forall|p: int| 0 <= p < m.len() implies m[p] != '\n' by {}
    assert(r.subrange(k, k + m.len()) =~= m);
    assert forall|j: int| 0 <= j < k implies !occurs_at(r, m, j) by {
        if occurs_at(r, m, j) {
            if j + m.len() <= h.len() {
                assert(r.subrange(j, j + m.len()) =~= h.subrange(j, j + m.len()));
                assert(occurs_at(h, m, j));
            } else {
                let p = if j > h.len() {
                    j
                } else {
                    h.len() as int
                };
                assert(r[p] == '\n');
                assert(r.subrange(j, j + m.len())[p - j] == r[p]);
                assert(m[p - j] != '\n');
            }
        }
    }
    assert(first_occurrence(r, m, k));
    lemma_find_first(r, m, k);
}

/// Append mode replaces the SwitchHosts block: once some content has been
/// appended, appending again keeps only what preceded the first block
/// (trailing whitespace dropped) and puts the new content under it.
pub proof fn law_append_replaces_block(prev: Seq<char>, c1: Seq<char>, c2: Seq<char>)
    requires
        c1.len() > 0,
    ensures
        append_content_spec(append_content_spec(prev, c1), c2) == append_content_spec(
            trim_end_seq(append_head(prev)),
            c2,
        ),
{
    let m = CONTENT_START_MARKER@;
    let h = append_head(prev);
    lemma_head_has_no_marker(prev);
    let r1 = append_content_spec(prev, c1);
    assert(r1 == h + seq!['\n', '\n'] + m + seq!['\n', '\n'] + c1);
    lemma_marker_after_head(h, c1);
    assert(r1.take(h.len() + 2int) =~= h + seq!['\n', '\n']);
    lemma_trim_end_newlines(h);
    assert(append_head(r1) == trim_end_seq(h));
    let t = trim_end_seq(h);
    assert(find_spec(t, m) is None);
    assert(append_head(t) == t);
}

proof fn lemma_head_after_append(prev: Seq<char>, c1: Seq<char>)
    requires
        c1.len() > 0,
    ensures
        append_head(append_content_spec(prev, c1)) == trim_end_seq(append_head(prev)),
{
    let m = CONTENT_START_MARKER@;
    let h = append_head(prev);
    lemma_head_has_no_marker(prev);
    let r1 = append_content_spec(prev, c1);
    lemma_marker_after_head(h, c1);
    assert(r1.take(h.len() + 2int) =~= h + seq!['\n', '\n']);
    lemma_trim_end_newlines(h);
}

/// On a file that SwitchHosts has already written in append mode,
/// applying the same content twice is applying it once.
pub proof fn law_append_stable(prev: Seq<char>, c1: Seq<char>, c: Seq<char>)
    requires
        c1.len() > 0,
        c.len() > 0,
    ensures
        ({
            let x = append_content_spec(prev, c1);
            append_content_spec(append_content_spec(x, c), c) == append_content_spec(x, c)
        }),
{
    let x = append_content_spec(prev, c1);
    law_append_replaces_block(x, c, c);
    law_append_replaces_block(prev, c1, c);
    lemma_head_after_append(prev, c1);
    lemma_trim_end_idempotent(append_head(prev));
}

/// A file that already holds the content to write is left alone.
pub proof fn law_identical_is_unchanged(
    plan: ApplyPlan,
    aggregated: Seq<char>,
    write_mode: Seq<char>,
    previous_raw: Seq<char>,
    platform: HostsPlatform,
)
    requires
        plan_spec(plan, aggregated, write_mode, previous_raw, platform),
        plan.disk_content@ == previous_raw,
    ensures
        plan.unchanged,
{
}


proof fn lemma_no_cr_prefix(s: Seq<char>, n: int)
    requires
        no_cr(s),
        0 <= n <= s.len(),
    ensures
        no_cr(s.take(n)),
{
    assert forall|i: int| 0 <= i < s.take(n).len() implies s.take(n)[i] != '\r' by {
        assert(s.take(n)[i] == s[i]);
    }
}

proof fn lemma_no_cr_concat(a: Seq<char>, b: Seq<char>)
    requires
        no_cr(a),
        no_cr(b),
    ensures
        no_cr(a + b),
{
    assert forall|i: int| 0 <= i < (a + b).len() implies (a + b)[i] != '\r' by {
        if i < a.len() {
            assert((a + b)[i] == a[i]);
        } else {
            assert((a + b)[i] == b[i - a.len()]);
        }
    }
}

/// Append mode puts no CR into CR-free text.
proof fn lemma_append_no_cr(prev: Seq<char>, c: Seq<char>)
    requires
        no_cr(prev),
        no_cr(c),
    ensures
        no_cr(append_content_spec(prev, c)),
{
    reveal_strlit("# --- SWITCHHOSTS_CONTENT_START ---");
    let m = CONTENT_START_MARKER@;
    assert(no_cr(m)) by {
        assert(m.len() == 35);
        assert forall|p: int| 0 <= p < m.len() implies m[p] != '\r' by {}
    }
    let h = append_head(prev);
    match find_spec(prev, m) {
        Some(i) => {
            lemma_find_spec_first(prev, m);
            assert(first_occurrence(prev, m, i));
            lemma_no_cr_prefix(prev, i);
            lemma_trim_end_prefix(prev.take(i));
            lemma_no_cr_prefix(prev.take(i), trim_end_seq(prev.take(i)).len() as int);
        },
        None => {},
    }
    assert(no_cr(h));
    let nl1 = seq!['\n'];
    let nl2 = seq!['\n', '\n'];
    assert(no_cr(nl1) && no_cr(nl2));
    if c.len() == 0 {
        lemma_no_cr_concat(h, nl1);
    } else {
        lemma_no_cr_concat(h, nl2);
        lemma_no_cr_concat(h + nl2, m);
        lemma_no_cr_concat(h + nl2 + m, nl2);
        lemma_no_cr_concat(h + nl2 + m + nl2, c);
    }
}

/// CR-free text reads back from the disk form unchanged.
proof fn lemma_disk_round_trip(s: Seq<char>, platform: HostsPlatform)
    requires
        no_cr(s),
    ensures
        normalize_spec(restore_spec(s, platform)) == s,
{
    match platform {
        HostsPlatform::Windows => law_windows_round_trip(s),
        HostsPlatform::Unix => {
            lemma_replace_identity(s, seq!['\r', '\n'], seq!['\n']);
            lemma_replace_identity(s, seq!['\r'], seq!['\n']);
        },
    }
}

/// Applying a selection again to the file that the previous apply wrote
/// writes nothing: in replace mode always; in append mode when the
/// selection is not empty and what append mode keeps of the file has no
/// trailing whitespace (so whenever the file holds a SwitchHosts block, or
/// does not end in whitespace).
pub proof fn law_reapply_is_unchanged(
    first: ApplyPlan,
    second: ApplyPlan,
    aggregated: Seq<char>,
    write_mode: Seq<char>,
    previous_raw: Seq<char>,
    platform: HostsPlatform,
)
    requires
        plan_spec(first, aggregated, write_mode, previous_raw, platform),
        plan_spec(second, aggregated, write_mode, first.disk_content@, platform),
        write_mode == "append"@ ==> normalize_spec(aggregated).len() > 0 && trim_end_seq(
            append_head(normalize_spec(previous_raw)),
        ) == append_head(normalize_spec(previous_raw)),
    ensures
        second.unchanged,
{
    if write_mode == "append"@ {
        let c = normalize_spec(aggregated);
        let n0 = normalize_spec(previous_raw);
        law_normalize_no_cr(previous_raw);
        law_normalize_no_cr(aggregated);
        lemma_append_no_cr(n0, c);
        assert(first.new_content@ == append_content_spec(n0, c));
        lemma_disk_round_trip(first.new_content@, platform);
        lemma_head_after_append(n0, c);
        assert(second.new_content@ == append_content_spec(first.new_content@, c));
    }
    assert(second.disk_content@ == first.disk_content@);
}

/// A file that holds a SwitchHosts block meets the append-mode condition of
/// `law_reapply_is_unchanged`: what precedes the block is kept trimmed.
pub proof fn law_block_head_is_trimmed(prev: Seq<char>)
    requires
        contains_seq(prev, CONTENT_START_MARKER@),
    ensures
        trim_end_seq(append_head(prev)) == append_head(prev),
{
    lemma_trim_end_idempotent(prev.take(find_spec(prev, CONTENT_START_MARKER@)->Some_0));
}


/// Replacing a pattern that starts with CR keeps a CR-free prefix.
proof fn lemma_replace_keeps_prefix(s: Seq<char>, t: Seq<char>, pat: Seq<char>, rep: Seq<char>)
    requires
        pat.len() > 0,
        pat[0] == '\r',
        no_cr(t),
        t.len() <= s.len(),
        s.take(t.len() as int) == t,
    ensures
        t.len() <= replace_seq(s, pat, rep).len(),
        replace_seq(s, pat, rep).take(t.len() as int) == t,
    decreases t.len(),
{
    if t.len() > 0 {
        assert(s[0] == t[0]);
        assert(!occurs_at(s, pat, 0)) by {
            if occurs_at(s, pat, 0) {
                assert(s.subrange(0, pat.len() as int)[0] == s[0]);
            }
        }
        let t1 = t.drop_first();
        assert(no_cr(t1)) by {
            assert forall|k: int| 0 <= k < t1.len() implies t1[k] != '\r' by {
                assert(t1[k] == t[k + 1]);
            }
        }
        assert(s.skip(1).take(t1.len() as int) =~= t1) by {
            assert forall|k: int| 0 <= k < t1.len() implies s.skip(1)[k] == t1[k] by {
                assert(s.skip(1)[k] == s[k + 1]);
                assert(s.take(t.len() as int)[k + 1] == s[k + 1]);
            }
        }
        lemma_replace_keeps_prefix(s.skip(1), t1, pat, rep);
        let r1 = replace_seq(s.skip(1), pat, rep);
        let r = replace_seq(s, pat, rep);
        assert(r == seq![s[0]] + r1);
        assert(r.take(t.len() as int) =~= t) by {
            assert forall|k: int| 0 <= k < t.len() implies r.take(t.len() as int)[k] == t[k] by {
                if k > 0 {
                    assert(r[k] == r1[k - 1]);
                    assert(r1.take(t1.len() as int)[k - 1] == r1[k - 1]);
                }
            }
        }
    }
}

/// A CR-free text `m`, not starting with the second character of a
/// two-character pattern, survives replacing a pattern that starts with CR.
proof fn lemma_replace_keeps_occurrence(
    s: Seq<char>,
    m: Seq<char>,
    i: int,
    pat: Seq<char>,
    rep: Seq<char>,
)
    requires
        1 <= pat.len() <= 2,
        pat[0] == '\r',
        pat.len() == 2 ==> m[0] != pat[1],
        m.len() > 0,
        no_cr(m),
        occurs_at(s, m, i),
    ensures
        contains_seq(replace_seq(s, pat, rep), m),
    decreases s.len(),
{
    let r = replace_seq(s, pat, rep);
    if i == 0 {
        assert(s.take(m.len() as int) =~= m) by {
            assert(s.subrange(0, m.len() as int) == m);
        }
        lemma_replace_keeps_prefix(s, m, pat, rep);
        assert(r.subrange(0, m.len() as int) =~= r.take(m.len() as int));
        assert(occurs_at(r, m, 0));
    } else if occurs_at(s, pat, 0) {
        let n = pat.len() as int;
        assert(s.subrange(0, n)[0] == s[0]);
        assert(s.subrange(i, i + m.len())[0] == s[i]);
        if n == 2 && i == 1 {
            assert(s.subrange(0, n)[1] == s[1]);
        }
        assert(i >= n);
        assert(occurs_at(s.skip(n), m, i - n)) by {
            assert(s.skip(n).subrange(i - n, i - n + m.len()) =~= s.subrange(i, i + m.len()));
        }
        lemma_replace_keeps_occurrence(s.skip(n), m, i - n, pat, rep);
        let r1 = replace_seq(s.skip(n), pat, rep);
        let k = choose|k: int| occurs_at(r1, m, k);
        assert(r == rep + r1);
        assert(r.subrange(rep.len() + k, rep.len() + k + m.len()) =~= r1.subrange(k, k + m.len()));
        assert(occurs_at(r, m, rep.len() + k));
    } else {
        assert(occurs_at(s.skip(1), m, i - 1)) by {
            assert(s.skip(1).subrange(i - 1, i - 1 + m.len()) =~= s.subrange(i, i + m.len()));
        }
        lemma_replace_keeps_occurrence(s.skip(1), m, i - 1, pat, rep);
        let r1 = replace_seq(s.skip(1), pat, rep);
        let k = choose|k: int| occurs_at(r1, m, k);
        assert(r == seq![s[0]] + r1);
        assert(r.subrange(1 + k, 1 + k + m.len()) =~= r1.subrange(k, k + m.len()));
        assert(occurs_at(r, m, 1 + k));
    }
}

/// Normalizing line endings keeps a SwitchHosts block marker in the file.
pub proof fn law_normalize_keeps_marker(raw: Seq<char>)
    requires
        contains_seq(raw, CONTENT_START_MARKER@),
    ensures
        contains_seq(normalize_spec(raw), CONTENT_START_MARKER@),
{
    reveal_strlit("# --- SWITCHHOSTS_CONTENT_START ---");
    let m = CONTENT_START_MARKER@;
    assert(m.len() == 35);
    assert(no_cr(m)) by {
        assert forall|p: int| 0 <= p < m.len() implies m[p] != '\r' by {}
    }
    assert(m[0] == '#');
    let i = choose|i: int| occurs_at(raw, m, i);
    let crlf = seq!['\r', '\n'];
    lemma_replace_keeps_occurrence(raw, m, i, crlf, seq!['\n']);
    let t = replace_seq(raw, crlf, seq!['\n']);
    let j = choose|j: int| occurs_at(t, m, j);
    lemma_replace_keeps_occurrence(t, m, j, seq!['\r'], seq!['\n']);
}

/// Applying a selection again to the file that the previous apply wrote
/// writes nothing: in replace mode always; in append mode when the
/// selection is not empty and the file held a SwitchHosts block before the
/// first apply.
pub proof fn law_reapply_after_block_is_unchanged(
    first: ApplyPlan,
    second: ApplyPlan,
    aggregated: Seq<char>,
    write_mode: Seq<char>,
    previous_raw: Seq<char>,
    platform: HostsPlatform,
)
    requires
        plan_spec(first, aggregated, write_mode, previous_raw, platform),
        plan_spec(second, aggregated, write_mode, first.disk_content@, platform),
        write_mode == "append"@ ==> normalize_spec(aggregated).len() > 0 && contains_seq(
            previous_raw,
            CONTENT_START_MARKER@,
        ),
    ensures
        second.unchanged,
{
    if write_mode == "append"@ {
        law_normalize_keeps_marker(previous_raw);
        law_block_head_is_trimmed(normalize_spec(previous_raw));
    }
    law_reapply_is_unchanged(first, second, aggregated, write_mode, previous_raw, platform);
}

/// The plan skips the write exactly when the current raw file and the
/// content to write hash alike with a fresh `DefaultHasher` (so a file
/// holding more or less than the content is written, short of a hash
/// collision).
pub proof fn law_unchanged_exactly_on_equal_hash(
    plan: ApplyPlan,
    aggregated: Seq<char>,
    write_mode: Seq<char>,
    previous_raw: Seq<char>,
    platform: HostsPlatform,
)
    requires
        plan_spec(plan, aggregated, write_mode, previous_raw, platform),
    ensures
        plan.unchanged <==> spec_hash_str(previous_raw) == spec_hash_str(plan.disk_content@),
{
}
} // verus!
