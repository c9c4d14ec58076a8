//! The macOS provider: start identity is BSDInfo's `(tvsec, tvusec)`, liveness compares the
//! file's `procStart` — a ctime string written in UTC — against `tvsec` to the second, and the
//! environment comes from the decoded procargs buffer (an empty region with argv intact is the
//! restricted-process shape: unavailable, never denied).
use vstd::prelude::*;

use crate::discovery::opt_view;
use crate::text::{chars_of, string_of, trim, trim_spec};

use super::procargs::{decode, decode_with, i32_be, i32_le, procargs_view, ProcArgsView};
use super::{
    keep_pty, pty_under, AcqResult, Liveness, ProcFacts, ProcSnapshot, SnapshotOutcome, StartId,
};

verus! {

/// libproc-backed facts.
#[derive(Debug, Default)]
pub struct MacProc;

/// Epoch seconds of a ctime-layout date (`%a %b %e %H:%M:%S %Y`) read as UTC, as `chrono`
/// parses it; `None` when `chrono` rejects the text.
pub uninterp spec fn ctime_utc_secs(s: Seq<char>) -> Option<i64>;

/// `chrono::NaiveDateTime::parse_from_str(s, "%a %b %e %H:%M:%S %Y")`, then `.and_utc()
/// .timestamp()`. Trusted: the parse is named, not described.
#[verifier::external_body]
fn parse_ctime_utc(s: &str) -> (r: Option<i64>)
    ensures
        r == ctime_utc_secs(s@),
{
    match chrono::NaiveDateTime::parse_from_str(s, "%a %b %e %H:%M:%S %Y") {
        Ok(dt) => Some(dt.and_utc().timestamp()),
        Err(_) => None,
    }
}

/// The macOS `procStart` as UTC epoch seconds: the trimmed text parsed in ctime layout.
pub open spec fn proc_start_secs(s: Seq<char>) -> Option<i64> {
    ctime_utc_secs(trim_spec(s))
}

/// Parse the macOS `procStart` ctime string as UTC epoch seconds.
pub fn parse_proc_start(s: &str) -> (r: Option<i64>)
    ensures
        r == proc_start_secs(s@),
{
    let t = string_of(trim(chars_of(s).as_slice()).as_slice());
    parse_ctime_utc(t.as_str())
}

/// The verdict of comparing a parsed `procStart` (epoch seconds, `None` = did not parse)
/// against a start identity: a Linux identity never matches; an unparsed date is a date-parse
/// failure; a kernel second beyond `i64` mismatches; equal seconds match; else a mismatch,
/// near when within 2 s.
pub open spec fn mac_liveness_spec(id: super::StartIdView, file_secs: Option<i64>) -> Liveness {
    match id {
        super::StartIdView::Mac { tvsec, tvusec: _ } => match file_secs {
            None => Liveness::DateParseFailed,
            Some(f) => if tvsec > i64::MAX {
                Liveness::Mismatch { near: false }
            } else if f == tvsec {
                Liveness::Match
            } else {
                Liveness::Mismatch { near: -2 <= f - tvsec <= 2 }
            },
        },
        _ => Liveness::Mismatch { near: false },
    }
}

/// Verdict over an already-parsed `procStart`.
pub fn liveness_of_secs(snapshot: &StartId, file_secs: Option<i64>) -> (r: Liveness)
    ensures
        r == mac_liveness_spec(snapshot@, file_secs),
{
    match snapshot {
        StartId::Mac { tvsec, tvusec: _ } => match file_secs {
            None => Liveness::DateParseFailed,
            Some(f) => {
                if *tvsec > 0x7fff_ffff_ffff_ffff {
                    Liveness::Mismatch { near: false }
                } else {
                    let k = *tvsec as i64;
                    if f == k {
                        Liveness::Match
                    } else {
                        let d = f as i128 - k as i128;
                        Liveness::Mismatch { near: -2 <= d && d <= 2 }
                    }
                }
            },
        },
        _ => Liveness::Mismatch { near: false },
    }
}

/// The environment outcome of a decoded region: empty or NUL-only = unavailable (the
/// restricted-process shape); an unterminated last string = malformed (kernel truncation);
/// else the region.
pub open spec fn env_outcome_spec(region: Seq<u8>) -> AcqResult<Seq<u8>> {
    if forall|i: int| 0 <= i < region.len() ==> region[i] == 0 {
        AcqResult::Unavailable
    } else if region.last() != 0 {
        AcqResult::Malformed
    } else {
        AcqResult::Acquired(region)
    }
}

pub open spec fn acq_bytes_view(a: AcqResult<Vec<u8>>) -> AcqResult<Seq<u8>> {
    match a {
        AcqResult::Acquired(v) => AcqResult::Acquired(v@),
        AcqResult::Denied => AcqResult::Denied,
        AcqResult::Unavailable => AcqResult::Unavailable,
        AcqResult::Malformed => AcqResult::Malformed,
    }
}

pub open spec fn acq_argv_view(a: AcqResult<Vec<Vec<u8>>>) -> AcqResult<Seq<Seq<u8>>> {
    match a {
        AcqResult::Acquired(v) => AcqResult::Acquired(crate::text::byte_views(v@)),
        AcqResult::Denied => AcqResult::Denied,
        AcqResult::Unavailable => AcqResult::Unavailable,
        AcqResult::Malformed => AcqResult::Malformed,
    }
}

/// Classify a decoded environment region.
pub fn env_outcome(region: Vec<u8>) -> (r: AcqResult<Vec<u8>>)
    ensures
        acq_bytes_view(r) == env_outcome_spec(region@),
{
    let mut i: usize = 0;
    while i < region.len()
        invariant
            i <= region.len(),
            forall|k: int| 0 <= k < i ==> region@[k] == 0,
        decreases region.len() - i,
    {
        if region[i] != 0 {
            if region[region.len() - 1] != 0 {
                return AcqResult::Malformed;
            }
            return AcqResult::Acquired(region);
        }
        i = i + 1;
    }
    AcqResult::Unavailable
}

/// argv and environment outcomes of a decoded procargs buffer (`None`: undecodable).
pub open spec fn procargs_outcome_spec(p: Option<ProcArgsView>) -> (
    AcqResult<Seq<Seq<u8>>>,
    AcqResult<Seq<u8>>,
) {
    match p {
        None => (AcqResult::Malformed, AcqResult::Malformed),
        Some(x) => (AcqResult::Acquired(x.argv), env_outcome_spec(x.env_region)),
    }
}

/// argv and environment of a procargs read: refused (`None`) = both denied; an undecodable
/// buffer = both malformed; else argv and the classified region.
pub fn procargs_outcome(raw: Option<Vec<u8>>) -> (r: (AcqResult<Vec<Vec<u8>>>, AcqResult<Vec<u8>>))
    ensures
        match raw {
            None => r.0 is Denied && r.1 is Denied,
            Some(b) => {
                let o = (acq_argv_view(r.0), acq_bytes_view(r.1));
                o == procargs_outcome_spec(decode_with(b@, i32_le(b@))) || o
                    == procargs_outcome_spec(decode_with(b@, i32_be(b@)))
            },
        },
{
    match raw {
        None => (AcqResult::Denied, AcqResult::Denied),
        Some(b) => match decode(b.as_slice()) {
            None => (AcqResult::Malformed, AcqResult::Malformed),
            Some(p) => {
                let ghost pv = p@;
                let argv = p.argv;
                let env = env_outcome(p.env_region);
                (AcqResult::Acquired(argv), env)
            },
        },
    }
}

/// What was read for one pid, in the race-guard order.
#[derive(Debug)]
pub struct MacReads {
    /// `(tvsec, tvusec)` before the facts; `None` = the process is not running.
    pub id_before: Option<(u64, u64)>,
    /// `pbi_comm`, when it is UTF-8.
    pub comm: Option<String>,
    /// The process cwd, when it is UTF-8.
    pub cwd: Option<String>,
    /// The raw procargs buffer; `None` = refused.
    pub procargs: Option<Vec<u8>>,
    /// fd 1's vnode path: `Ok(None)` = not a vnode; `Err` = refused.
    pub fd1: Result<Option<String>, ()>,
    /// `(tvsec, tvusec)` after the facts; `None` = vanished meanwhile.
    pub id_after: Option<(u64, u64)>,
}

impl ProcFacts for MacProc {
    open spec fn pty_prefix_spec(&self) -> Seq<char> {
        "/dev/ttys"@
    }

    open spec fn liveness_spec(&self, snapshot: super::StartIdView, file_proc_start: Seq<char>) -> Liveness {
        mac_liveness_spec(snapshot, proc_start_secs(file_proc_start))
    }

    /// The platform pty prefix: `/dev/ttys`.
    fn pty_prefix(&self) -> (r: &'static str) {
        "/dev/ttys"
    }

    /// Compare a session file's `procStart` (UTC ctime) against a snapshot's start identity.
    fn liveness(&self, snapshot: &StartId, file_proc_start: &str) -> (r: Liveness) {
        match snapshot {
            StartId::Mac { .. } => {
                let secs = parse_proc_start(file_proc_start);
                liveness_of_secs(snapshot, secs)
            },
            _ => Liveness::Mismatch { near: false },
        }
    }
}

impl MacProc {
    /// The production provider.
    pub fn new() -> (r: MacProc) {
        MacProc
    }


    /// Assemble the race-guarded snapshot from one pid's reads: gone without an identity before
    /// or after, raced when the two differ in either field, else the facts with the epoch start
    /// `tvsec` and fd 1 kept only under `/dev/ttys`.
    pub fn snapshot(&self, reads: MacReads) -> (r: SnapshotOutcome)
        ensures
            (reads.id_before is None || reads.id_after is None) ==> r is Gone,
            (reads.id_before matches Some(b) && reads.id_after matches Some(a) && a != b) ==> r is Raced,
            (reads.id_before is Some && reads.id_after == reads.id_before) ==> match r {
                SnapshotOutcome::Present(s) => {
                    let b = reads.id_before.unwrap();
                    &&& s.start_id@ == super::StartIdView::Mac { tvsec: b.0, tvusec: b.1 }
                    &&& s.start_epoch_secs == b.0
                    &&& opt_view(s.comm) == opt_view(reads.comm)
                    &&& opt_view(s.cwd) == opt_view(reads.cwd)
                    &&& match reads.procargs {
                        None => s.argv is Denied && s.env_block is Denied,
                        Some(buf) => {
                            let o = (acq_argv_view(s.argv), acq_bytes_view(s.env_block));
                            o == procargs_outcome_spec(decode_with(buf@, i32_le(buf@))) || o
                                == procargs_outcome_spec(decode_with(buf@, i32_be(buf@)))
                        },
                    }
                    &&& match reads.fd1 {
                        Ok(t) => s.fd1_pty matches AcqResult::Acquired(k) && opt_view(k) == pty_under(
                            opt_view(t),
                            "/dev/ttys"@,
                        ),
                        Err(_) => s.fd1_pty is Denied,
                    }
                },
                _ => false,
            },
    {
        let before = match reads.id_before {
            Some(b) => b,
            None => return SnapshotOutcome::Gone,
        };
        let after = match reads.id_after {
            Some(a) => a,
            None => return SnapshotOutcome::Gone,
        };
        if after.0 != before.0 || after.1 != before.1 {
            return SnapshotOutcome::Raced;
        }
        let MacReads { id_before, comm, cwd, procargs, fd1, id_after } = reads;
        let (argv, env_block) = procargs_outcome(procargs);
        let fd1_pty = match fd1 {
            Ok(t) => AcqResult::Acquired(keep_pty(t, "/dev/ttys")),
            Err(_) => AcqResult::Denied,
        };
        SnapshotOutcome::Present(
            Box::new(
                ProcSnapshot {
                    start_id: StartId::Mac { tvsec: before.0, tvusec: before.1 },
                    start_epoch_secs: before.0,
                    comm,
                    argv,
                    cwd,
                    env_block,
                    fd1_pty,
                },
            ),
        )
    }
}

} // verus!
