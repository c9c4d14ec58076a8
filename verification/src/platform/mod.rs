//! The OS-facts model: everything fleetops knows about a live process — its lossless start
//! identity, typed acquisition outcomes, the race-guarded snapshot, liveness verdicts — and the
//! acquisition tallies the doctor and the footer report. The providers (`linux`, `macos`) turn
//! raw facts into these types; reading the facts is the caller's I/O.
use vstd::prelude::*;

use crate::discovery::opt_view;

pub mod linux;
pub mod macos;
pub mod procargs;

verus! {

/// Lossless, platform-native process start identity — the liveness / PID-reuse token, compared
/// exactly, never converted.
#[derive(Debug, Clone, PartialEq, Eq)]
pub enum StartId {
    /// Raw `/proc/<pid>/stat` field-22 tick string (exactly what the agent writes as `procStart`).
    Linux(String),
    /// `pbi_start_tvsec` + `pbi_start_tvusec` from BSDInfo.
    Mac {
        /// Kernel start time, whole epoch seconds.
        tvsec: u64,
        /// Sub-second component — part of the identity for the race re-read.
        tvusec: u64,
    },
}

/// Plain model of a start identity.
pub enum StartIdView {
    Linux(Seq<char>),
    Mac { tvsec: u64, tvusec: u64 },
}

impl View for StartId {
    type V = StartIdView;

    open spec fn view(&self) -> StartIdView {
        match self {
            StartId::Linux(t) => StartIdView::Linux(t@),
            StartId::Mac { tvsec, tvusec } => StartIdView::Mac { tvsec: *tvsec, tvusec: *tvusec },
        }
    }
}

impl StartId {
    /// Exact identity comparison.
    pub fn same_as(&self, other: &StartId) -> (r: bool)
        ensures
            r == (self@ == other@),
    {
        match (self, other) {
            (StartId::Linux(a), StartId::Linux(b)) => crate::text::str_eq(a.as_str(), b.as_str()),
            (StartId::Mac { tvsec: a, tvusec: b }, StartId::Mac { tvsec: c, tvusec: d }) => *a
                == *c && *b == *d,
            _ => false,
        }
    }
}

/// Typed fact-acquisition outcome — every fact can fail differently, and the doctor must see
/// how.
#[derive(Debug, Clone, PartialEq, Eq)]
pub enum AcqResult<T> {
    /// Fact acquired.
    Acquired(T),
    /// Kernel/API refused (EPERM etc.).
    Denied,
    /// Returned but empty where content was expected.
    Unavailable,
    /// Returned but undecodable.
    Malformed,
}

impl<T> AcqResult<T> {
    /// The acquired value, if any.
    pub fn ok(self) -> (r: Option<T>)
        ensures
            match self {
                AcqResult::Acquired(v) => r == Some(v),
                _ => r is None,
            },
    {
        match self {
            AcqResult::Acquired(v) => Some(v),
            _ => None,
        }
    }

    /// Borrowing accessor: the same outcome, the value borrowed.
    pub fn as_ref(&self) -> (r: AcqResult<&T>)
        ensures
            match *self {
                AcqResult::Acquired(v) => r matches AcqResult::Acquired(w) && *w == v,
                AcqResult::Denied => r is Denied,
                AcqResult::Unavailable => r is Unavailable,
                AcqResult::Malformed => r is Malformed,
            },
    {
        match self {
            AcqResult::Acquired(v) => AcqResult::Acquired(v),
            AcqResult::Denied => AcqResult::Denied,
            AcqResult::Unavailable => AcqResult::Unavailable,
            AcqResult::Malformed => AcqResult::Malformed,
        }
    }
}

/// Everything the scans need to know about one live process, gathered race-guarded.
#[derive(Debug, Clone, PartialEq, Eq)]
pub struct ProcSnapshot {
    /// Lossless start identity — liveness token, compared exactly.
    pub start_id: StartId,
    /// Derived epoch seconds — Codex rollout-age joining only, never liveness.
    pub start_epoch_secs: u64,
    /// Short process name, trailing whitespace trimmed.
    pub comm: Option<String>,
    /// Exact argv.
    pub argv: AcqResult<Vec<Vec<u8>>>,
    /// Process working directory.
    pub cwd: Option<String>,
    /// Raw NUL-separated environment bytes.
    pub env_block: AcqResult<Vec<u8>>,
    /// Resolved target of fd 1 when it is a pty under the platform prefix; `Ok(None)` = fd 1 is
    /// not such a pty; `Denied` = refused while the process was live.
    pub fd1_pty: AcqResult<Option<String>>,
}

/// Snapshot acquisition outcome.
#[derive(Debug)]
pub enum SnapshotOutcome {
    /// Process not running (or vanished before the first identity read).
    Gone,
    /// Start identity changed between the first and second read — facts discarded.
    Raced,
    /// Race-guarded snapshot.
    Present(Box<ProcSnapshot>),
}

/// Verdict of comparing a session file's `procStart` against a snapshot's start identity.
#[derive(Debug, Clone, Copy, PartialEq, Eq, Structural)]
pub enum Liveness {
    /// Identities match — the file describes this process.
    Match,
    /// Parsed fine, kernel disagrees. `near` = within 2 s (drift signal, still not live).
    Mismatch {
        /// Delta of at most 2 s.
        near: bool,
    },
    /// The file's `procStart` did not parse for this platform (format drift).
    DateParseFailed,
}

/// A platform's process-facts provider, as far as it decides from facts already read: the
/// prefix of its terminal device paths, and the liveness verdict of a session file's
/// `procStart` against a snapshot's start identity.
pub trait ProcFacts {
    /// The prefix of this platform's terminal device paths.
    spec fn pty_prefix_spec(&self) -> Seq<char>;

    /// The verdict `liveness` answers.
    spec fn liveness_spec(&self, snapshot: StartIdView, file_proc_start: Seq<char>) -> Liveness;

    /// The platform pty prefix.
    fn pty_prefix(&self) -> (r: &'static str)
        ensures
            r@ == self.pty_prefix_spec(),
    ;

    /// Compare a session file's `procStart` against a snapshot's start identity.
    fn liveness(&self, snapshot: &StartId, file_proc_start: &str) -> (r: Liveness)
        ensures
            r == self.liveness_spec(snapshot@, file_proc_start@),
    ;
}

/// Platform fact-acquisition tallies, accumulated across one sweep.
#[derive(Debug, Default, Clone, PartialEq, Eq, Structural)]
pub struct PlatformStats {
    /// `procStart` string malformed for this platform.
    pub date_parse_failed: usize,
    /// Parsed fine, kernel disagrees — includes the near subset.
    pub start_mismatch: usize,
    /// Within-2-s subset of `start_mismatch`.
    pub start_mismatch_near: usize,
    /// Env acquisition refused.
    pub env_denied: usize,
    /// Env region returned but empty.
    pub env_unavailable: usize,
    /// Env/argv buffer undecodable.
    pub env_malformed: usize,
    /// fd-1 info refused while the process was live.
    pub fd1_denied: usize,
    /// Start identity changed between reads — snapshot discarded.
    pub identity_raced: usize,
}

impl PlatformStats {
    /// All tallies zero.
    pub fn zero() -> (r: PlatformStats)
        ensures
            r == (PlatformStats {
                date_parse_failed: 0,
                start_mismatch: 0,
                start_mismatch_near: 0,
                env_denied: 0,
                env_unavailable: 0,
                env_malformed: 0,
                fd1_denied: 0,
                identity_raced: 0,
            }),
    {
        PlatformStats {
            date_parse_failed: 0,
            start_mismatch: 0,
            start_mismatch_near: 0,
            env_denied: 0,
            env_unavailable: 0,
            env_malformed: 0,
            fd1_denied: 0,
            identity_raced: 0,
        }
    }

    /// Fold another sweep fragment's tallies in, field by field.
    pub fn absorb(&mut self, other: &PlatformStats)
        requires
            old(self).date_parse_failed + other.date_parse_failed <= usize::MAX,
            old(self).start_mismatch + other.start_mismatch <= usize::MAX,
            old(self).start_mismatch_near + other.start_mismatch_near <= usize::MAX,
            old(self).env_denied + other.env_denied <= usize::MAX,
            old(self).env_unavailable + other.env_unavailable <= usize::MAX,
            old(self).env_malformed + other.env_malformed <= usize::MAX,
            old(self).fd1_denied + other.fd1_denied <= usize::MAX,
            old(self).identity_raced + other.identity_raced <= usize::MAX,
        ensures
            final(self).date_parse_failed == old(self).date_parse_failed + other.date_parse_failed,
            final(self).start_mismatch == old(self).start_mismatch + other.start_mismatch,
            final(self).start_mismatch_near == old(self).start_mismatch_near
                + other.start_mismatch_near,
            final(self).env_denied == old(self).env_denied + other.env_denied,
            final(self).env_unavailable == old(self).env_unavailable + other.env_unavailable,
            final(self).env_malformed == old(self).env_malformed + other.env_malformed,
            final(self).fd1_denied == old(self).fd1_denied + other.fd1_denied,
            final(self).identity_raced == old(self).identity_raced + other.identity_raced,
    {
        self.date_parse_failed = self.date_parse_failed + other.date_parse_failed;
        self.start_mismatch = self.start_mismatch + other.start_mismatch;
        self.start_mismatch_near = self.start_mismatch_near + other.start_mismatch_near;
        self.env_denied = self.env_denied + other.env_denied;
        self.env_unavailable = self.env_unavailable + other.env_unavailable;
        self.env_malformed = self.env_malformed + other.env_malformed;
        self.fd1_denied = self.fd1_denied + other.fd1_denied;
        self.identity_raced = self.identity_raced + other.identity_raced;
    }

    /// Tally one env-block outcome: each failure kind bumps its own counter.
    pub fn count_env<T>(&mut self, env: &AcqResult<T>)
        requires
            env is Denied ==> old(self).env_denied < usize::MAX,
            env is Unavailable ==> old(self).env_unavailable < usize::MAX,
            env is Malformed ==> old(self).env_malformed < usize::MAX,
        ensures
            *final(self) == (match *env {
                AcqResult::Acquired(_) => *old(self),
                AcqResult::Denied => PlatformStats {
                    env_denied: (old(self).env_denied + 1) as usize,
                    ..*old(self)
                },
                AcqResult::Unavailable => PlatformStats {
                    env_unavailable: (old(self).env_unavailable + 1) as usize,
                    ..*old(self)
                },
                AcqResult::Malformed => PlatformStats {
                    env_malformed: (old(self).env_malformed + 1) as usize,
                    ..*old(self)
                },
            }),
    {
        match env {
            AcqResult::Acquired(_) => {},
            AcqResult::Denied => self.env_denied = self.env_denied + 1,
            AcqResult::Unavailable => self.env_unavailable = self.env_unavailable + 1,
            AcqResult::Malformed => self.env_malformed = self.env_malformed + 1,
        }
    }

    /// Records one start-time check: `Mismatch` raises the mismatch counter (and the
    /// near counter when `near` is set), `DateParseFailed` raises its own counter, and
    /// `Match` leaves every counter as it was.
    pub fn count_liveness(&mut self, verdict: Liveness)
        requires
            verdict is Mismatch ==> old(self).start_mismatch < usize::MAX
                && old(self).start_mismatch_near < usize::MAX,
            verdict is DateParseFailed ==> old(self).date_parse_failed < usize::MAX,
        ensures
            *final(self) == (match verdict {
                Liveness::Match => *old(self),
                Liveness::Mismatch { near } => PlatformStats {
                    start_mismatch: (old(self).start_mismatch + 1) as usize,
                    start_mismatch_near: if near {
                        (old(self).start_mismatch_near + 1) as usize
                    } else {
                        old(self).start_mismatch_near
                    },
                    ..*old(self)
                },
                Liveness::DateParseFailed => PlatformStats {
                    date_parse_failed: (old(self).date_parse_failed + 1) as usize,
                    ..*old(self)
                },
            }),
    {
        match verdict {
            Liveness::Match => {},
            Liveness::Mismatch { near } => {
                self.start_mismatch = self.start_mismatch + 1;
                if near {
                    self.start_mismatch_near = self.start_mismatch_near + 1;
                }
            },
            Liveness::DateParseFailed => self.date_parse_failed = self.date_parse_failed + 1,
        }
    }
}

/// wezterm socket-discovery tallies.
#[derive(Debug, Default, Clone, PartialEq, Eq, Structural)]
pub struct PaneDiscoveryStats {
    /// `gui-sock-*` files seen across candidate dirs.
    pub sockets_found: usize,
    /// Socket files with no matching live `wezterm-gui` pid — connecting to these can hang.
    pub sockets_stale: usize,
    /// Socket files owned by another user — skipped.
    pub sockets_foreign_uid: usize,
    /// Live instances whose `cli list` call errored.
    pub instances_failed: usize,
}

impl PaneDiscoveryStats {
    /// All tallies zero.
    pub fn zero() -> (r: PaneDiscoveryStats)
        ensures
            r == (PaneDiscoveryStats {
                sockets_found: 0,
                sockets_stale: 0,
                sockets_foreign_uid: 0,
                instances_failed: 0,
            }),
    {
        PaneDiscoveryStats {
            sockets_found: 0,
            sockets_stale: 0,
            sockets_foreign_uid: 0,
            instances_failed: 0,
        }
    }
}

/// The kept fd-1 target: the resolved target when it lies under the platform pty prefix.
pub open spec fn pty_under(target: Option<Seq<char>>, prefix: Seq<char>) -> Option<Seq<char>> {
    match target {
        Some(t) => if crate::text::has_prefix(t, prefix) {
            Some(t)
        } else {
            None
        },
        None => None,
    }
}

/// Keep an fd-1 target only when it lies under `prefix`.
pub fn keep_pty(target: Option<String>, prefix: &str) -> (r: Option<String>)
    ensures
        opt_view(r) == pty_under(opt_view(target), prefix@),
{
    match target {
        Some(t) => {
            let cs = crate::text::chars_of(t.as_str());
            let p = crate::text::chars_of(prefix);
            if crate::text::starts_with(cs.as_slice(), p.as_slice()) {
                Some(t)
            } else {
                None
            }
        },
        None => None,
    }
}

} // verus!
