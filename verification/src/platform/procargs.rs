//! The macOS `KERN_PROCARGS2` buffer decoder: `argc` (native-endian `i32`), the exec path, its
//! NUL padding, exactly `argc` NUL-terminated argv strings, then the environment region. An
//! argv string that looks like an assignment never leaks into the environment; malformed input
//! is `None`, never a panic.
use vstd::prelude::*;

use crate::text::byte_views;

verus! {

/// Decoded argv and the raw environment region.
#[derive(Debug, Clone, PartialEq, Eq)]
pub struct ProcArgs {
    /// Exactly `argc` argv strings.
    pub argv: Vec<Vec<u8>>,
    /// Everything after the last argv string (empty when the kernel omitted it).
    pub env_region: Vec<u8>,
}

/// Plain model of decoded procargs.
pub struct ProcArgsView {
    pub argv: Seq<Seq<u8>>,
    pub env_region: Seq<u8>,
}

impl View for ProcArgs {
    type V = ProcArgsView;

    open spec fn view(&self) -> ProcArgsView {
        ProcArgsView { argv: byte_views(self.argv@), env_region: self.env_region@ }
    }
}

pub open spec fn procargs_view(p: Option<ProcArgs>) -> Option<ProcArgsView> {
    match p {
        Some(x) => Some(x@),
        None => None,
    }
}

/// Two's-complement value of a 32-bit pattern.
pub open spec fn signed32(u: int) -> int {
    if u >= 0x8000_0000 {
        u - 0x1_0000_0000
    } else {
        u
    }
}

/// The first four bytes as a little-endian `i32`.
pub open spec fn i32_le(b: Seq<u8>) -> int {
    signed32(b[0] + 256 * b[1] + 65536 * b[2] + 16777216 * b[3])
}

/// The first four bytes as a big-endian `i32`.
pub open spec fn i32_be(b: Seq<u8>) -> int {
    signed32(b[3] + 256 * b[2] + 65536 * b[1] + 16777216 * b[0])
}

/// `i32::from_ne_bytes`: the four bytes read in the machine's byte order — little- or
/// big-endian, whichever the machine is; which one is not stated.
#[verifier::external_body]
fn i32_from_ne_bytes(b0: u8, b1: u8, b2: u8, b3: u8) -> (r: i32)
    ensures
        r == i32_le(seq![b0, b1, b2, b3]) || r == i32_be(seq![b0, b1, b2, b3]),
{
    i32::from_ne_bytes([b0, b1, b2, b3])
}

/// The first NUL at or after `i`.
pub open spec fn nul_from(s: Seq<u8>, i: int) -> Option<int>
    decreases s.len() - i,
{
    if i < 0 || i >= s.len() {
        None
    } else if s[i] == 0 {
        Some(i)
    } else {
        nul_from(s, i + 1)
    }
}

/// Past the run of NULs starting at `i`.
pub open spec fn skip_nuls(s: Seq<u8>, i: int) -> int
    decreases s.len() - i,
{
    if 0 <= i < s.len() && s[i] == 0 {
        skip_nuls(s, i + 1)
    } else {
        i
    }
}

/// `n` NUL-terminated strings starting at `pos`, and the position after the last terminator;
/// `None` when a terminator is missing.
pub open spec fn args_from(s: Seq<u8>, pos: int, n: nat) -> Option<(Seq<Seq<u8>>, int)>
    decreases n,
{
    if n == 0 {
        Some((Seq::empty(), pos))
    } else {
        match nul_from(s, pos) {
            None => None,
            Some(e) => match args_from(s, e + 1, (n - 1) as nat) {
                Some((rest, end)) => Some((seq![s.subrange(pos, e)] + rest, end)),
                None => None,
            },
        }
    }
}

/// The decoding of `buf` with the header read as `argc`: `None` for a short header, a
/// negative `argc`, an unterminated exec path or a missing argv terminator.
pub open spec fn decode_with(buf: Seq<u8>, argc: int) -> Option<ProcArgsView> {
    if buf.len() < 4 || argc < 0 {
        None
    } else {
        let rest = buf.skip(4);
        match nul_from(rest, 0) {
            None => None,
            Some(p) => match args_from(rest, skip_nuls(rest, p), argc as nat) {
                None => None,
                Some((argv, end)) => Some(ProcArgsView { argv, env_region: rest.skip(end) }),
            },
        }
    }
}

proof fn lemma_nul_from(s: Seq<u8>, i: int)
    requires
        0 <= i,
    ensures
        match nul_from(s, i) {
            Some(e) => i <= e < s.len() && s[e] == 0 && forall|k: int| i <= k < e ==> s[k] != 0,
            None => forall|k: int| i <= k < s.len() ==> s[k] != 0,
        },
    decreases s.len() - i,
{
    if i < s.len() && s[i] != 0 {
        lemma_nul_from(s, i + 1);
    }
}

proof fn lemma_skip_nuls(s: Seq<u8>, i: int)
    requires
        0 <= i <= s.len(),
    ensures
        i <= skip_nuls(s, i) <= s.len(),
    decreases s.len() - i,
{
    if i < s.len() && s[i] == 0 {
        lemma_skip_nuls(s, i + 1);
    }
}

proof fn lemma_args_from_end(s: Seq<u8>, pos: int, n: nat)
    requires
        0 <= pos <= s.len(),
    ensures
        args_from(s, pos, n) matches Some((a, end)) ==> pos <= end <= s.len() && a.len() == n,
    decreases n,
{
    if n > 0 {
        lemma_nul_from(s, pos);
        if let Some(e) = nul_from(s, pos) {
            lemma_args_from_end(s, e + 1, (n - 1) as nat);
        }
    }
}

fn find_nul(s: &[u8], from: usize) -> (r: Option<usize>)
    requires
        from <= s.len(),
    ensures
        match r {
            Some(e) => nul_from(s@, from as int) == Some(e as int),
            None => nul_from(s@, from as int) is None,
        },
{
    let mut i = from;
    while i < s.len()
        invariant
            from <= i <= s.len(),
            nul_from(s@, from as int) == nul_from(s@, i as int),
        decreases s.len() - i,
    {
        if s[i] == 0 {
            return Some(i);
        }
        i = i + 1;
    }
    None
}

/// Decode with a given `argc` (the header's value).
pub fn decode_with_argc(buf: &[u8], argc: i32) -> (r: Option<ProcArgs>)
    ensures
        procargs_view(r) == decode_with(buf@, argc as int),
{
    if buf.len() < 4 || argc < 0 {
        return None;
    }
    let ghost rest_v = buf@.skip(4);
    let mut rest: Vec<u8> = Vec::new();
    let mut j: usize = 4;
    while j < buf.len()
        invariant
            4 <= j <= buf.len(),
            rest@ == buf@.subrange(4, j as int),
        decreases buf.len() - j,
    {
        rest.push(buf[j]);
        j = j + 1;
    }
    assert(rest@ =~= rest_v);
    let p = match find_nul(rest.as_slice(), 0) {
        Some(p) => p,
        None => return None,
    };
    proof {
        lemma_nul_from(rest@, 0);
    }
    let mut pos = p;
    while pos < rest.len() && rest[pos] == 0
        invariant
            p <= pos <= rest.len(),
            skip_nuls(rest@, p as int) == skip_nuls(rest@, pos as int),
        decreases rest.len() - pos,
    {
        pos = pos + 1;
    }
    assert(skip_nuls(rest@, pos as int) == pos as int);
    let ghost start = pos as int;
    assert(decode_with(buf@, argc as int) == match args_from(rest@, start, argc as nat) {
        None => None,
        Some((argv, end)) => Some(ProcArgsView { argv, env_region: rest@.skip(end) }),
    });
    let ghost want = args_from(rest@, start, argc as nat);
    let mut argv: Vec<Vec<u8>> = Vec::new();
    let mut k: i32 = 0;
    while k < argc
        invariant
            0 <= k <= argc,
            pos <= rest.len(),
            want == args_from(rest@, start, argc as nat),
            want is Some ==> ({
                let w = want->0;
                args_from(rest@, pos as int, (argc - k) as nat) is Some && w.0 == byte_views(
                    argv@,
                ) + args_from(rest@, pos as int, (argc - k) as nat).unwrap().0 && w.1 == args_from(
                    rest@,
                    pos as int,
                    (argc - k) as nat,
                ).unwrap().1
            }),
            want is None ==> args_from(rest@, pos as int, (argc - k) as nat) is None,
            want is None ==> decode_with(buf@, argc as int) is None,
        decreases argc - k,
    {
        proof {
            lemma_nul_from(rest@, pos as int);
        }
        let e = match find_nul(rest.as_slice(), pos) {
            Some(e) => e,
            None => return None,
        };
        let mut a: Vec<u8> = Vec::new();
        let mut q = pos;
        while q < e
            invariant
                pos <= q <= e,
                e < rest.len(),
                a@ == rest@.subrange(pos as int, q as int),
            decreases e - q,
        {
            a.push(rest[q]);
            q = q + 1;
        }
        proof {
            let ghost tail = args_from(rest@, e + 1, (argc - k - 1) as nat);
            assert(args_from(rest@, pos as int, (argc - k) as nat) == match tail {
                Some((r2, end)) => Some((seq![rest@.subrange(pos as int, e as int)] + r2, end)),
                None => None,
            });
            if want is Some {
                assert(byte_views(argv@.push(a)) =~= byte_views(argv@).push(a@));
                let r2 = tail.unwrap().0;
                assert(byte_views(argv@) + (seq![a@] + r2) =~= byte_views(argv@).push(a@) + r2);
            }
        }
        argv.push(a);
        pos = e + 1;
        k = k + 1;
    }
    proof {
        lemma_skip_nuls(rest@, p as int);
        assert(byte_views(argv@) + Seq::<Seq<u8>>::empty() =~= byte_views(argv@));
    }
    let mut env_region: Vec<u8> = Vec::new();
    let mut q = pos;
    while q < rest.len()
        invariant
            pos <= q <= rest.len(),
            env_region@ == rest@.subrange(pos as int, q as int),
        decreases rest.len() - q,
    {
        env_region.push(rest[q]);
        q = q + 1;
    }
    assert(env_region@ =~= rest@.skip(pos as int));
    Some(ProcArgs { argv, env_region })
}

/// Decode a raw `KERN_PROCARGS2` buffer, its header read in the machine's byte order.
pub fn decode(buf: &[u8]) -> (r: Option<ProcArgs>)
    ensures
        procargs_view(r) == decode_with(buf@, i32_le(buf@)) || procargs_view(r) == decode_with(
            buf@,
            i32_be(buf@),
        ),
        buf.len() < 4 ==> r is None,
{
    if buf.len() < 4 {
        return None;
    }
    let argc = i32_from_ne_bytes(buf[0], buf[1], buf[2], buf[3]);
    assert(seq![buf@[0], buf@[1], buf@[2], buf@[3]] =~= buf@.take(4));
    decode_with_argc(buf, argc)
}

} // verus!
