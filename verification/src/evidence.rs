//! Evidence records: scenario results, the run manifest, event lines, the
//! evidence directory layout and artifact digests.
//!
//! Everything recorded here is observational. A digest identifies an
//! artifact; it is not by itself proof of correct behavior.

use vstd::prelude::*;
use sha2::{Digest, Sha256};
use crate::text::{digit_char, is_lower_hex_digit, push_char, push_str};

verus! {

/// One line in `events-<scenario>.jsonl`. `dir` marks direction relative to
/// the session: "in" (bridge -> session), "out" (session -> bridge), or
/// "session" for session-level records (timeouts, violations).
#[derive(Debug, Clone)]
pub struct Event {
    pub ts_unix_ms: u128,
    pub dir: &'static str,
    pub scenario: String,
    pub line: String,
}

#[derive(Debug, Clone)]
pub struct ScenarioResult {
    pub scenario: String,
    pub backend: String,
    pub outcome: String,
    pub success: bool,
    pub task_dispatches: u32,
    pub decisions: u32,
    pub rejections: Vec<String>,
    pub ticks: u64,
    pub wall_time_ms: u128,
}

#[derive(Debug, Clone)]
pub struct SourceIdentity {
    pub git_commit: String,
    pub git_dirty: bool,
    pub patch_applied: Option<String>,
}

/// The executable that produced the evidence; `path` is the file system
/// path as text.
#[derive(Debug, Clone)]
pub struct ExecutableIdentity {
    pub path: String,
    pub sha256: String,
}

#[derive(Debug, Clone)]
pub struct SimulatorIdentity {
    pub backend: String,
    pub python: String,
    pub python_version: String,
    pub platform: String,
}

#[derive(Debug, Clone)]
pub struct Manifest {
    pub run_id: String,
    pub created_unix_ms: u128,
    pub source: SourceIdentity,
    pub executable: ExecutableIdentity,
    pub simulator: SimulatorIdentity,
    pub policy_max_observation_age_ms: u64,
    pub scope: &'static str,
}

// ---------------------------------------------------------------------
// Evidence layout
// ---------------------------------------------------------------------

/// Joining a path component onto a base path, as `Path::join` does on Unix:
/// an absolute component replaces the base, and a separator is inserted
/// only where the base does not already end in one.
pub open spec fn path_join(base: Seq<char>, part: Seq<char>) -> Seq<char> {
    if part.len() > 0 && part[0] == '/' {
        part
    } else if base.len() == 0 {
        part
    } else if base.last() == '/' {
        base + part
    } else {
        base + seq!['/'] + part
    }
}

fn push_path_component(path: &mut String, part: &str)
    ensures
        final(path)@ == path_join(old(path)@, part@),
{
    let ghost base = path@;
    let pc = crate::text::chars_of(part);
    let pathc = crate::text::chars_of(path.as_str());
    if pc.len() > 0 && pc[0] == '/' {
        *path = String::from_str(part);
    } else if pathc.len() == 0 {
        push_str(path, part);
    } else if pathc[pathc.len() - 1] == '/' {
        push_str(path, part);
    } else {
        push_char(path, '/');
        push_str(path, part);
        assert(path@ =~= base + seq!['/'] + part@);
    }
}

/// The evidence directory of a run: `<repo_root>/evidence/<run_id>`.
pub fn evidence_dir_for(repo_root: &str, run_id: &str) -> (dir: String)
    ensures
        dir@ == path_join(path_join(repo_root@, "evidence"@), run_id@),
{
    let mut dir = String::from_str(repo_root);
    push_path_component(&mut dir, "evidence");
    push_path_component(&mut dir, run_id);
    dir
}

// ---------------------------------------------------------------------
// Digests
// ---------------------------------------------------------------------

/// The SHA-256 digest of a byte sequence.
pub uninterp spec fn sha256_of(data: Seq<u8>) -> Seq<u8>;

/// `sha2::Sha256::digest`: the 32-byte SHA-256 digest of `data`. The digest
/// itself is named, not described.
#[verifier::external_body]
fn sha256_digest(data: &[u8]) -> (d: Vec<u8>)
    ensures
        d@ == sha256_of(data@),
        d@.len() == 32,
{
    Sha256::digest(data).to_vec()
}

pub open spec fn hex_digit(n: nat) -> char {
    if n < 10 {
        digit_char(n)
    } else {
        ((n + 87) as u32) as char
    }
}

/// Lower-case hexadecimal, two digits per byte, high nibble first.
pub open spec fn hex_lower(data: Seq<u8>) -> Seq<char> {
    Seq::new(
        2 * data.len(),
        |i: int|
            if i % 2 == 0 {
                hex_digit((data[i / 2] / 16) as nat)
            } else {
                hex_digit((data[i / 2] % 16) as nat)
            },
    )
}

/// `hex::encode`: lower-case hexadecimal of `data`, two characters per byte,
/// high nibble first (the crate's table is `0123456789abcdef`).
#[verifier::external_body]
fn hex_encode(data: &[u8]) -> (s: String)
    ensures
        s@ == hex_lower(data@),
{
    hex::encode(data)
}

/// The SHA-256 digest of `data` as 64 lower-case hexadecimal characters.
pub fn sha256_hex(data: &[u8]) -> (s: String)
    ensures
        s@ == hex_lower(sha256_of(data@)),
        s@.len() == 64,
        forall|i: int| 0 <= i < s@.len() ==> is_lower_hex_digit(#[trigger] s@[i]),
        crate::receipt::digest_ok(s@),
{
    let d = sha256_digest(data);
    let s = hex_encode(d.as_slice());
    proof {
        assert forall|i: int| 0 <= i < s@.len() implies is_lower_hex_digit(#[trigger] s@[i]) by {
            let b = d@[i / 2];
            assert(b / 16 < 16 && b % 16 < 16) by (nonlinear_arith)
                requires
                    b < 256,
            ;
        }
    }
    s
}

// ---------------------------------------------------------------------
// Session records
// ---------------------------------------------------------------------

/// The characters serde_json writes for `c` inside a JSON string.
pub open spec fn json_escape_char(c: char) -> Seq<char> {
    if c == '"' {
        seq!['\\', '"']
    } else if c == '\\' {
        seq!['\\', '\\']
    } else if c == '\n' {
        seq!['\\', 'n']
    } else if c == '\r' {
        seq!['\\', 'r']
    } else if c == '\t' {
        seq!['\\', 't']
    } else if (c as u32) == 0x08 {
        seq!['\\', 'b']
    } else if (c as u32) == 0x0c {
        seq!['\\', 'f']
    } else if (c as u32) < 0x20 {
        seq!['\\', 'u', '0', '0', hex_digit(((c as u32) / 16) as nat), hex_digit(((c as u32) % 16) as nat)]
    } else {
        seq![c]
    }
}

/// The body of a JSON string literal holding `s`.
pub open spec fn json_escape(s: Seq<char>) -> Seq<char>
    decreases s.len(),
{
    if s.len() == 0 {
        seq![]
    } else {
        json_escape(s.drop_last()) + json_escape_char(s.last())
    }
}

fn hex_digit_exec(n: u32) -> (c: char)
    requires
        n < 16,
    ensures
        c == hex_digit(n as nat),
{
    if n < 10 {
        ((n + 48) as u8) as char
    } else {
        ((n + 87) as u8) as char
    }
}

fn push_json_escaped_char(s: &mut String, c: char)
    ensures
        final(s)@ == old(s)@ + json_escape_char(c),
{
    let ghost start = s@;
    let u = c as u32;
    if c == '"' {
        push_str(s, "\\\"");
        proof { reveal_strlit("\\\""); }
    } else if c == '\\' {
        push_str(s, "\\\\");
        proof { reveal_strlit("\\\\"); }
    } else if c == '\n' {
        push_str(s, "\\n");
        proof { reveal_strlit("\\n"); }
    } else if c == '\r' {
        push_str(s, "\\r");
        proof { reveal_strlit("\\r"); }
    } else if c == '\t' {
        push_str(s, "\\t");
        proof { reveal_strlit("\\t"); }
    } else if u == 0x08 {
        push_str(s, "\\b");
        proof { reveal_strlit("\\b"); }
    } else if u == 0x0c {
        push_str(s, "\\f");
        proof { reveal_strlit("\\f"); }
    } else if u < 0x20 {
        push_str(s, "\\u00");
        proof { reveal_strlit("\\u00"); }
        push_char(s, hex_digit_exec(u / 16));
        push_char(s, hex_digit_exec(u % 16));
    } else {
        push_char(s, c);
    }
    assert(s@ =~= start + json_escape_char(c));
}

/// Appends `t` escaped for a JSON string literal.
pub fn push_json_escaped(s: &mut String, t: &str)
    ensures
        final(s)@ == old(s)@ + json_escape(t@),
{
    let cs = crate::text::chars_of(t);
    let ghost start = s@;
    let mut i: usize = 0;
    while i < cs.len()
        invariant
            i <= cs@.len(),
            cs@ == t@,
            s@ == start + json_escape(cs@.take(i as int)),
        decreases cs@.len() - i,
    {
        assert(cs@.take(i + 1).drop_last() =~= cs@.take(i as int));
        push_json_escaped_char(s, cs[i]);
        i = i + 1;
        assert(s@ =~= start + json_escape(cs@.take(i as int)));
    }
    assert(cs@.take(cs@.len() as int) =~= cs@);
}

/// The session record written when a bridge line cannot be understood:
/// `{"session":"malformed_message","error":"<error, JSON-escaped>"}`.
pub open spec fn malformed_message_record_spec(error: Seq<char>) -> Seq<char> {
    "{\"session\":\"malformed_message\",\"error\":\""@ + json_escape(error) + "\"}"@
}

pub fn malformed_message_record(error: &str) -> (line: String)
    ensures
        line@ == malformed_message_record_spec(error@),
{
    let mut line = String::from_str("{\"session\":\"malformed_message\",\"error\":\"");
    push_json_escaped(&mut line, error);
    push_str(&mut line, "\"}");
    line
}

/// The session record written when the bridge stays silent too long.
pub fn proposal_timeout_record() -> (line: String)
    ensures
        line@ == "{\"session\":\"proposal_timeout\"}"@,
{
    String::from_str("{\"session\":\"proposal_timeout\"}")
}

/// Whether a run's outcome is an infrastructure failure rather than a task
/// result: a protocol error or violation, a dead bridge, or a timeout that
/// the scenario did not expect.
pub open spec fn infrastructure_failure_spec(outcome: Seq<char>, timeout_expected: bool) -> bool {
    ||| outcome == "protocol_error"@
    ||| outcome == "protocol_violation"@
    ||| outcome == "bridge_died"@
    ||| (outcome == "timeout"@ && !timeout_expected)
}

pub fn infrastructure_failure(result: &ScenarioResult, timeout_expected: bool) -> (r: bool)
    ensures
        r == infrastructure_failure_spec(result.outcome@, timeout_expected),
{
    let o = result.outcome.as_str();
    crate::text::str_eq(o, "protocol_error") || crate::text::str_eq(o, "protocol_violation")
        || crate::text::str_eq(o, "bridge_died") || (crate::text::str_eq(o, "timeout")
        && !timeout_expected)
}

/// How many of the runs are infrastructure failures; each run is a result
/// and whether its scenario expected a timeout.
pub open spec fn failure_count(runs: Seq<(ScenarioResult, bool)>) -> nat
    decreases runs.len(),
{
    if runs.len() == 0 {
        0
    } else {
        failure_count(runs.drop_last()) + if infrastructure_failure_spec(
            runs.last().0.outcome@,
            runs.last().1,
        ) {
            1nat
        } else {
            0nat
        }
    }
}

/// Counts the infrastructure failures of a matrix run.
pub fn count_infrastructure_failures(runs: &[(ScenarioResult, bool)]) -> (n: u32)
    requires
        runs@.len() <= u32::MAX,
    ensures
        n == failure_count(runs@),
{
    let mut n: u32 = 0;
    let mut i: usize = 0;
    while i < runs.len()
        invariant
            i <= runs@.len(),
            runs@.len() <= u32::MAX,
            n == failure_count(runs@.take(i as int)),
            n <= i,
        decreases runs@.len() - i,
    {
        assert(runs@.take(i + 1).drop_last() =~= runs@.take(i as int));
        if infrastructure_failure(&runs[i].0, runs[i].1) {
            n = n + 1;
        }
        i = i + 1;
    }
    assert(runs@.take(runs@.len() as int) =~= runs@);
    n
}

} // verus!
