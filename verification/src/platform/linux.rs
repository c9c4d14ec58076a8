//! The `/proc` provider: start identity is the raw `stat` starttime tick string (liveness is
//! exact string equality), snapshots are race-guarded by re-reading it, and the epoch start is
//! `btime + ticks / HZ`. The caller reads the files under the provider's root; this module
//! turns what was read into facts.
use vstd::prelude::*;

use crate::discovery::{opt_view, starttime_spec};
use crate::telemetry::{path_join, path_join_spec};
use crate::text::{
    all_digits, byte_views, chars_of, dec, has_prefix, lines, lines_spec, parse_i64,
    parse_i64_spec, parse_unsigned, parse_unsigned_chars, slice_chars, split_bytes,
    split_bytes_spec, string_of, trim, trim_end, trim_end_spec, trim_spec,
};

use super::{
    keep_pty, pty_under, AcqResult, Liveness, ProcFacts, ProcSnapshot, SnapshotOutcome, StartId,
};

pub use crate::discovery::starttime_from_stat;

verus! {

/// Kernel clock ticks per second.
pub const HZ: u64 = 100;

/// `/proc`-backed facts over an injectable root.
#[derive(Debug)]
pub struct LinuxProc {
    root: String,
    /// Boot time (epoch secs) from `<root>/stat` `btime`; 0 when unreadable.
    btime: u64,
}

/// The text after `btime ` on the first line that starts with it.
pub open spec fn first_btime(ls: Seq<Seq<char>>) -> Option<Seq<char>>
    decreases ls.len(),
{
    if ls.len() == 0 {
        None
    } else if has_prefix(ls[0], "btime "@) {
        Some(ls[0].skip(6))
    } else {
        first_btime(ls.drop_first())
    }
}

/// Boot time from the content of `<root>/stat`: the first `btime ` line's value, trimmed and
/// read as a `u64`; 0 when the file is unreadable, has no such line, or the value is not one.
pub open spec fn btime_spec(proc_stat: Option<Seq<char>>) -> u64 {
    match proc_stat {
        None => 0,
        Some(c) => match first_btime(lines_spec(c)) {
            Some(v) => match parse_unsigned(trim_spec(v), u64::MAX as nat) {
                Some(n) => n as u64,
                None => 0,
            },
            None => 0,
        },
    }
}

/// The liveness verdict of a tick-string identity against a file's `procStart`: equal strings
/// match; otherwise a mismatch, near when both read as `i64` ticks within `2 * HZ` of each
/// other. A macOS identity never matches here.
pub open spec fn linux_liveness_spec(id: super::StartIdView, file_proc_start: Seq<char>) -> Liveness {
    match id {
        super::StartIdView::Linux(ticks) => if ticks == file_proc_start {
            Liveness::Match
        } else {
            match (parse_i64_spec(ticks), parse_i64_spec(file_proc_start)) {
                (Some(a), Some(b)) => Liveness::Mismatch {
                    near: -200 <= a - b <= 200,
                },
                _ => Liveness::Mismatch { near: false },
            }
        },
        _ => Liveness::Mismatch { near: false },
    }
}

/// The non-empty pieces, in order.
pub open spec fn nonempty_args(ps: Seq<Seq<u8>>) -> Seq<Seq<u8>>
    decreases ps.len(),
{
    if ps.len() == 0 {
        Seq::empty()
    } else if ps.last().len() > 0 {
        nonempty_args(ps.drop_last()).push(ps.last())
    } else {
        nonempty_args(ps.drop_last())
    }
}

/// The argv of a `cmdline` file: the NUL-separated pieces, empty ones dropped.
pub open spec fn argv_spec(cmdline: Seq<u8>) -> Seq<Seq<u8>> {
    nonempty_args(split_bytes_spec(cmdline, 0))
}

/// Split a `cmdline` file into its non-empty NUL-separated arguments.
pub fn argv_of(cmdline: &[u8]) -> (r: Vec<Vec<u8>>)
    ensures
        byte_views(r@) == argv_spec(cmdline@),
{
    let parts = split_bytes(cmdline, 0);
    let ghost pv = split_bytes_spec(cmdline@, 0);
    let mut out: Vec<Vec<u8>> = Vec::new();
    let mut i: usize = 0;
    assert(pv.take(0) =~= Seq::<Seq<u8>>::empty());
    while i < parts.len()
        invariant
            i <= parts.len(),
            byte_views(parts@) == pv,
            byte_views(out@) == nonempty_args(pv.take(i as int)),
        decreases parts.len() - i,
    {
        assert(pv.take(i + 1).drop_last() =~= pv.take(i as int));
        assert(parts@[i as int]@ == pv[i as int]);
        if parts[i].len() > 0 {
            let ghost before = byte_views(out@);
            out.push(parts[i].clone());
            assert(byte_views(out@) =~= before.push(pv[i as int]));
        }
        i = i + 1;
    }
    assert(pv.take(parts.len() as int) =~= pv);
    out
}

/// The comm file's text with trailing whitespace trimmed.
pub fn comm_of(content: Option<String>) -> (r: Option<String>)
    ensures
        opt_view(r) == match opt_view(content) {
            Some(c) => Some(trim_end_spec(c)),
            None => None,
        },
{
    match content {
        Some(c) => {
            let cs = chars_of(c.as_str());
            let t = trim_end(cs.as_slice());
            Some(string_of(t.as_slice()))
        },
        None => None,
    }
}

/// The pids among directory entry names: those that read as a `u32`.
pub open spec fn pids_spec(names: Seq<Seq<char>>) -> Seq<u32>
    decreases names.len(),
{
    if names.len() == 0 {
        Seq::empty()
    } else {
        let prev = pids_spec(names.drop_last());
        match parse_unsigned(names.last(), u32::MAX as nat) {
            Some(n) => prev.push(n as u32),
            None => prev,
        }
    }
}

pub open spec fn name_views(v: Seq<String>) -> Seq<Seq<char>> {
    v.map_values(|s: String| s@)
}

/// All live pids: the numeric entries of the provider's root listing, in listing order.
pub fn pids_of(names: &[String]) -> (r: Vec<u32>)
    ensures
        r@ == pids_spec(name_views(names@)),
{
    let ghost nv = name_views(names@);
    let mut out: Vec<u32> = Vec::new();
    let mut i: usize = 0;
    assert(nv.take(0) =~= Seq::<Seq<char>>::empty());
    while i < names.len()
        invariant
            i <= names.len(),
            nv == name_views(names@),
            out@ == pids_spec(nv.take(i as int)),
        decreases names.len() - i,
    {
        assert(nv.take(i + 1).drop_last() =~= nv.take(i as int));
        assert(nv.take(i + 1).last() == names@[i as int]@);
        let cs = chars_of(names[i].as_str());
        match parse_unsigned_chars(cs.as_slice(), 0xffff_ffff) {
            Some(n) => out.push(n as u32),
            None => {},
        }
        i = i + 1;
    }
    assert(nv.take(names.len() as int) =~= nv);
    out
}

/// What was read for one pid, in the race-guard order: `stat`, then the facts, then `stat`
/// again. `None` = the read failed.
#[derive(Debug)]
pub struct LinuxReads {
    /// `<pid>/stat` before the facts.
    pub stat_before: Option<String>,
    /// `<pid>/comm`.
    pub comm: Option<String>,
    /// `<pid>/cmdline`.
    pub cmdline: Option<Vec<u8>>,
    /// Target of `<pid>/cwd`, when it is UTF-8.
    pub cwd: Option<String>,
    /// `<pid>/environ`.
    pub environ: Option<Vec<u8>>,
    /// Target of `<pid>/fd/1`, when it is UTF-8.
    pub fd1: Option<String>,
    /// `<pid>/stat` after the facts.
    pub stat_after: Option<String>,
}

/// Epoch start of a tick string: `btime + ticks / HZ` when the ticks read as a `u64`, else 0.
pub open spec fn epoch_spec(btime: u64, ticks: Seq<char>) -> int {
    match parse_unsigned(ticks, u64::MAX as nat) {
        Some(t) => btime + t / 100,
        None => 0,
    }
}

fn find_btime(ls: &Vec<Vec<char>>) -> (r: Option<Vec<char>>)
    ensures
        match r {
            Some(v) => first_btime(crate::text::char_views(ls@)) == Some(v@),
            None => first_btime(crate::text::char_views(ls@)) is None,
        },
{
    let ghost lv = crate::text::char_views(ls@);
    let pre = chars_of("btime ");
    proof {
        reveal_strlit("btime ");
    }
    let mut i: usize = 0;
    assert(lv.skip(0) =~= lv);
    while i < ls.len()
        invariant
            i <= ls.len(),
            lv == crate::text::char_views(ls@),
            pre@ == "btime "@,
            first_btime(lv) == first_btime(lv.skip(i as int)),
        decreases ls.len() - i,
    {
        let l = &ls[i];
        proof {
            reveal_strlit("btime ");
        }
        assert(l@ == lv[i as int]);
        assert(lv.skip(i as int)[0] == lv[i as int]);
        assert(lv.skip(i as int).drop_first() =~= lv.skip(i + 1));
        if crate::text::starts_with(l.as_slice(), pre.as_slice()) {
            let v = slice_chars(l.as_slice(), 6, l.len());
            assert(v@ == lv[i as int].skip(6));
            return Some(v);
        }
        i = i + 1;
    }
    None
}

impl LinuxProc {
    pub closed spec fn root_view(&self) -> Seq<char> {
        self.root@
    }

    pub closed spec fn btime_view(&self) -> u64 {
        self.btime
    }

    /// Provider over `root` (production `/proc`); `proc_stat` is the content of `<root>/stat`
    /// when readable.
    pub fn new(root: String, proc_stat: Option<&str>) -> (r: LinuxProc)
        ensures
            r.root_view() == root@,
            r.btime_view() == btime_spec(match proc_stat {
                Some(c) => Some(c@),
                None => None,
            }),
    {
        let btime = match proc_stat {
            None => 0,
            Some(c) => {
                let cs = chars_of(c);
                let ls = lines(cs.as_slice());
                match find_btime(&ls) {
                    Some(v) => {
                        let t = trim(v.as_slice());
                        match parse_unsigned_chars(t.as_slice(), 0xffff_ffff_ffff_ffff) {
                            Some(n) => n,
                            None => 0,
                        }
                    },
                    None => 0,
                }
            },
        };
        LinuxProc { root, btime }
    }

    /// Boot time, epoch seconds.
    pub fn btime(&self) -> (r: u64)
        ensures
            r == self.btime_view(),
    {
        self.btime
    }

    /// The provider's root directory.
    pub fn root(&self) -> (r: &str)
        ensures
            r@ == self.root_view(),
    {
        self.root.as_str()
    }

    /// `<root>/<pid>`.
    pub fn pid_dir(&self, pid: u32) -> (r: String)
        ensures
            r@ == path_join_spec(self.root_view(), dec(pid as nat)),
    {
        let p = crate::text::dec_string(pid as u64);
        path_join(self.root.as_str(), p.as_str())
    }

}

/// The snapshot the reads describe: gone without a start time before; raced when the start
/// time after differs; else the facts — argv from `cmdline` (unreadable = denied), the
/// environment bytes (unreadable = denied), fd 1 kept only under `/dev/pts/`, and the epoch
/// start from the ticks.
pub open spec fn linux_snapshot_gone(reads: LinuxReads) -> bool {
    match reads.stat_before {
        None => true,
        Some(s) => starttime_spec(s@) is None,
    }
}

pub open spec fn linux_snapshot_raced(reads: LinuxReads) -> bool {
    !linux_snapshot_gone(reads) && match reads.stat_after {
        None => true,
        Some(s) => starttime_spec(s@) != starttime_spec(reads.stat_before->0@),
    }
}

impl ProcFacts for LinuxProc {
    open spec fn pty_prefix_spec(&self) -> Seq<char> {
        "/dev/pts/"@
    }

    open spec fn liveness_spec(&self, snapshot: super::StartIdView, file_proc_start: Seq<char>) -> Liveness {
        linux_liveness_spec(snapshot, file_proc_start)
    }

    /// The platform pty prefix: `/dev/pts/`.
    fn pty_prefix(&self) -> (r: &'static str) {
        "/dev/pts/"
    }

    /// Compare a session file's `procStart` against a snapshot's start identity: exact string
    /// equality is liveness; a near miss is only a drift signal.
    fn liveness(&self, snapshot: &StartId, file_proc_start: &str) -> (r: Liveness) {
        match snapshot {
            StartId::Linux(ticks) => {
                if crate::text::str_eq(ticks.as_str(), file_proc_start) {
                    return Liveness::Match;
                }
                let a = parse_i64(chars_of(ticks.as_str()).as_slice());
                let b = parse_i64(chars_of(file_proc_start).as_slice());
                match (a, b) {
                    (Some(x), Some(y)) => {
                        let d = x as i128 - y as i128;
                        Liveness::Mismatch { near: -200 <= d && d <= 200 }
                    },
                    _ => Liveness::Mismatch { near: false },
                }
            },
            _ => Liveness::Mismatch { near: false },
        }
    }
}

impl LinuxProc {
    /// Assemble the race-guarded snapshot from one pid's reads.
    pub fn snapshot(&self, reads: LinuxReads) -> (r: SnapshotOutcome)
        requires
            !linux_snapshot_gone(reads) ==> epoch_spec(
                self.btime_view(),
                starttime_spec(reads.stat_before->0@)->0,
            ) <= u64::MAX,
        ensures
            linux_snapshot_gone(reads) ==> r is Gone,
            linux_snapshot_raced(reads) ==> r is Raced,
            !linux_snapshot_gone(reads) && !linux_snapshot_raced(reads) ==> match r {
                SnapshotOutcome::Present(s) => {
                    let ticks = starttime_spec(reads.stat_before->0@)->0;
                    &&& s.start_id@ == super::StartIdView::Linux(ticks)
                    &&& s.start_epoch_secs == epoch_spec(self.btime_view(), ticks)
                    &&& opt_view(s.comm) == match opt_view(reads.comm) {
                        Some(c) => Some(trim_end_spec(c)),
                        None => None,
                    }
                    &&& match reads.cmdline {
                        Some(b) => s.argv matches AcqResult::Acquired(a) && byte_views(a@) == argv_spec(
                            b@,
                        ),
                        None => s.argv is Denied,
                    }
                    &&& opt_view(s.cwd) == opt_view(reads.cwd)
                    &&& match reads.environ {
                        Some(b) => s.env_block matches AcqResult::Acquired(e) && e@ == b@,
                        None => s.env_block is Denied,
                    }
                    &&& s.fd1_pty matches AcqResult::Acquired(t) && opt_view(t) == pty_under(
                        opt_view(reads.fd1),
                        "/dev/pts/"@,
                    )
                },
                _ => false,
            },
    {
        let ticks_before = match &reads.stat_before {
            Some(s) => match starttime_from_stat(s.as_str()) {
                Some(t) => t,
                None => return SnapshotOutcome::Gone,
            },
            None => return SnapshotOutcome::Gone,
        };
        let same = match &reads.stat_after {
            Some(s) => match starttime_from_stat(s.as_str()) {
                Some(t) => crate::text::str_eq(t.as_str(), ticks_before.as_str()),
                None => false,
            },
            None => false,
        };
        if !same {
            return SnapshotOutcome::Raced;
        }
        let ghost reads0 = reads;
        let LinuxReads { stat_before, comm, cmdline, cwd, environ, fd1, stat_after } = reads;
        let comm = comm_of(comm);
        let argv = match cmdline {
            Some(b) => AcqResult::Acquired(argv_of(b.as_slice())),
            None => AcqResult::Denied,
        };
        let env_block = match environ {
            Some(b) => AcqResult::Acquired(b),
            None => AcqResult::Denied,
        };
        let fd1_pty = AcqResult::Acquired(keep_pty(fd1, "/dev/pts/"));
        let start_epoch_secs = match parse_unsigned_chars(
            chars_of(ticks_before.as_str()).as_slice(),
            0xffff_ffff_ffff_ffff,
        ) {
            Some(t) => self.btime + t / 100,
            None => 0,
        };
        SnapshotOutcome::Present(
            Box::new(
                ProcSnapshot {
                    start_id: StartId::Linux(ticks_before),
                    start_epoch_secs,
                    comm,
                    argv,
                    cwd,
                    env_block,
                    fd1_pty,
                },
            ),
        )
    }
}

} // verus!
