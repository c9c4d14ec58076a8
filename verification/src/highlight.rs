//! Pane highlighting: the status → tint table, the tint colors, and the exact OSC escape bytes
//! (OSC 11 sets a pane's background, OSC 111 restores the terminal default), plus the frames a
//! highlight command writes. Writing them to a pts is the caller's I/O.
use vstd::prelude::*;

use vstd::string::StringSliceAdditionalSpecFns;

use crate::fold::Status;

verus! {

/// OSC 11 hex payload — amber (`NeedsAnswer` / `Waiting`).
pub const AMBER: &'static str = "453000";

/// OSC 11 hex payload — dark red (`Stalled`).
pub const RED: &'static str = "3a0d0d";

/// OSC 11 hex payload — steady dark green (just finished, not yet noticed).
pub const GREEN: &'static str = "0a3512";

/// OSC 11 hex payload — bright green, the pulse's bright frame.
pub const PULSE_BRIGHT: &'static str = "1a7a30";

/// Pane background tint driven by board status.
#[derive(Debug, Clone, Copy, PartialEq, Eq, Structural)]
pub enum Tint {
    /// No tint — an OSC 111 reset restores the terminal's default.
    Clear,
    /// `NeedsAnswer` / `Waiting`.
    Amber,
    /// `Stalled`.
    Red,
    /// Steady state after the finish pulse settles.
    Green,
}

/// A highlight write to apply to one session's pts.
#[derive(Debug, Clone, PartialEq, Eq)]
pub enum HighlightCmd {
    /// Hold a steady tint (`Tint::Clear` writes a reset instead of a color).
    Steady {
        /// Target pts path.
        pts: String,
        /// Desired tint.
        tint: Tint,
    },
    /// The "just finished" pulse: bright/dim green alternation settling into dark green.
    Pulse {
        /// Target pts path.
        pts: String,
    },
}

/// The tint table: an open question or a native wait is amber, a stall is red, everything
/// else untinted.
pub open spec fn desired_tint_spec(status: Status) -> Tint {
    match status {
        Status::NeedsAnswer | Status::Waiting => Tint::Amber,
        Status::Stalled => Tint::Red,
        Status::Working | Status::Idle | Status::Shell | Status::Unknown => Tint::Clear,
    }
}

/// Status → desired tint.
pub fn desired_tint(status: Status) -> (r: Tint)
    ensures
        r == desired_tint_spec(status),
{
    match status {
        Status::NeedsAnswer | Status::Waiting => Tint::Amber,
        Status::Stalled => Tint::Red,
        Status::Working | Status::Idle | Status::Shell | Status::Unknown => Tint::Clear,
    }
}

/// The hex payload of a tint; none for `Tint::Clear` (a reset carries no color).
pub open spec fn tint_color_spec(tint: Tint) -> Option<Seq<char>> {
    match tint {
        Tint::Clear => None,
        Tint::Amber => Some(AMBER@),
        Tint::Red => Some(RED@),
        Tint::Green => Some(GREEN@),
    }
}

/// The hex payload for a tint.
pub fn tint_color(tint: Tint) -> (r: Option<&'static str>)
    ensures
        match r {
            Some(c) => tint_color_spec(tint) == Some(c@),
            None => tint_color_spec(tint) is None,
        },
{
    match tint {
        Tint::Clear => None,
        Tint::Amber => Some(AMBER),
        Tint::Red => Some(RED),
        Tint::Green => Some(GREEN),
    }
}

/// `ESC ] 1 1 ; #` — the head of an OSC 11 set.
pub open spec fn osc_set_head() -> Seq<u8> {
    seq![0x1bu8, 0x5du8, 0x31u8, 0x31u8, 0x3bu8, 0x23u8]
}

/// `ESC \` — the string terminator.
pub open spec fn osc_tail() -> Seq<u8> {
    seq![0x1bu8, 0x5cu8]
}

/// The OSC 11 escape for a color: `ESC ] 11 ; #`, the color's bytes, `ESC \`.
pub open spec fn osc_set_spec(color: Seq<u8>) -> Seq<u8> {
    osc_set_head() + color + osc_tail()
}

/// Build the OSC 11 "set background" escape for a hex color (no leading `#`).
pub fn osc_set(color: &str) -> (r: Vec<u8>)
    ensures
        r@ == osc_set_spec(color.spec_bytes()),
{
    let mut bytes: Vec<u8> = vec![0x1bu8, 0x5du8, 0x31u8, 0x31u8, 0x3bu8, 0x23u8];
    let c = color.as_bytes();
    let mut i: usize = 0;
    while i < c.len()
        invariant
            i <= c.len(),
            c@ == color.spec_bytes(),
            bytes@ == osc_set_head() + c@.take(i as int),
        decreases c.len() - i,
    {
        bytes.push(c[i]);
        assert(c@.take(i + 1) =~= c@.take(i as int).push(c@[i as int]));
        i = i + 1;
    }
    assert(c@.take(c.len() as int) =~= c@);
    bytes.push(0x1bu8);
    bytes.push(0x5cu8);
    assert(bytes@ =~= osc_set_spec(color.spec_bytes()));
    bytes
}

/// `ESC ] 1 1 1 ESC \` — the OSC 111 reset.
pub open spec fn osc_reset_spec() -> Seq<u8> {
    seq![0x1bu8, 0x5du8, 0x31u8, 0x31u8, 0x31u8, 0x1bu8, 0x5cu8]
}

/// The OSC 111 "reset background" escape.
pub fn osc_reset() -> (r: Vec<u8>)
    ensures
        r@ == osc_reset_spec(),
{
    let r: Vec<u8> = vec![0x1bu8, 0x5du8, 0x31u8, 0x31u8, 0x31u8, 0x1bu8, 0x5cu8];
    assert(r@ =~= osc_reset_spec());
    r
}

/// The escapes a command writes, in order (a pulse's frames are paced by the writer): a steady
/// tint writes its color, or a reset for no tint; a pulse writes its six frames.
pub open spec fn command_frames(cmd: HighlightCmd) -> Seq<Seq<u8>> {
    match cmd {
        HighlightCmd::Steady { pts: _, tint } => match tint_color_spec(tint) {
            Some(_) => seq![
                osc_set_spec(
                    match tint {
                        Tint::Amber => AMBER.spec_bytes(),
                        Tint::Red => RED.spec_bytes(),
                        _ => GREEN.spec_bytes(),
                    },
                ),
            ],
            None => seq![osc_reset_spec()],
        },
        HighlightCmd::Pulse { pts: _ } => seq![
            osc_set_spec(PULSE_BRIGHT.spec_bytes()),
            osc_set_spec(GREEN.spec_bytes()),
            osc_set_spec(PULSE_BRIGHT.spec_bytes()),
            osc_set_spec(GREEN.spec_bytes()),
            osc_set_spec(PULSE_BRIGHT.spec_bytes()),
            osc_set_spec(GREEN.spec_bytes()),
        ],
    }
}

/// The target pts and the escapes to write for one command.
pub fn command_writes(cmd: &HighlightCmd) -> (r: (String, Vec<Vec<u8>>))
    ensures
        r.0@ == match *cmd {
            HighlightCmd::Steady { pts, tint: _ } => pts@,
            HighlightCmd::Pulse { pts } => pts@,
        },
        crate::text::byte_views(r.1@) == command_frames(*cmd),
{
    match cmd {
        HighlightCmd::Steady { pts, tint } => {
            let bytes = match tint {
                Tint::Clear => osc_reset(),
                Tint::Amber => osc_set(AMBER),
                Tint::Red => osc_set(RED),
                Tint::Green => osc_set(GREEN),
            };
            let ghost b = bytes@;
            let frames: Vec<Vec<u8>> = vec![bytes];
            assert(crate::text::byte_views(frames@) =~= seq![b]);
            (pts.clone(), frames)
        },
        HighlightCmd::Pulse { pts } => {
            let mut frames: Vec<Vec<u8>> = Vec::new();
            let mut k: usize = 0;
            while k < 6
                invariant
                    k <= 6,
                    crate::text::byte_views(frames@) == command_frames(*cmd).take(k as int),
                    *cmd == (HighlightCmd::Pulse { pts: *pts }),
                decreases 6 - k,
            {
                let f = if k % 2 == 0 {
                    osc_set(PULSE_BRIGHT)
                } else {
                    osc_set(GREEN)
                };
                assert(f@ == command_frames(*cmd)[k as int]) by {
                    if k == 0 {
                    } else if k == 1 {
                    } else if k == 2 {
                    } else if k == 3 {
                    } else if k == 4 {
                    } else {
                    }
                }
                let ghost before = crate::text::byte_views(frames@);
                let ghost fv = f@;
                frames.push(f);
                assert(crate::text::byte_views(frames@) =~= before.push(fv));
                assert(command_frames(*cmd).take(k + 1) =~= command_frames(*cmd).take(k as int).push(
                    command_frames(*cmd)[k as int],
                ));
                k = k + 1;
            }
            assert(command_frames(*cmd).take(6) =~= command_frames(*cmd));
            (pts.clone(), frames)
        },
    }
}


/// A steady command writes exactly one escape: for a tint with a color, the OSC 11 set of that
/// tint's own color, its characters as ASCII bytes; for no tint, the OSC 111 reset.
pub proof fn steady_writes_the_tints_own_color(pts: String, tint: Tint)
    ensures
        command_frames(HighlightCmd::Steady { pts, tint }) == match tint_color_spec(tint) {
            Some(c) => seq![osc_set_head() + c.map_values(|ch: char| ch as u8) + osc_tail()],
            None => seq![osc_reset_spec()],
        },
{
    reveal_strlit("453000");
    reveal_strlit("3a0d0d");
    reveal_strlit("0a3512");
    match tint_color_spec(tint) {
        Some(c) => {
            let lit: &str = match tint {
                Tint::Amber => AMBER,
                Tint::Red => RED,
                _ => GREEN,
            };
            assert(lit@ == c);
            assert(vstd::string::is_ascii(lit));
            vstd::string::is_ascii_spec_bytes(lit);
            assert(lit.spec_bytes() =~= c.map_values(|ch: char| ch as u8));
        },
        None => {},
    }
}


/// Distinct tints write distinct steady escapes: amber, red, green and the reset can never be
/// mistaken for one another.
pub proof fn steady_escapes_tell_tints_apart(pts: String, a: Tint, b: Tint)
    ensures
        command_frames(HighlightCmd::Steady { pts, tint: a }) == command_frames(
            HighlightCmd::Steady { pts, tint: b },
        ) ==> a == b,
{
    steady_writes_the_tints_own_color(pts, a);
    steady_writes_the_tints_own_color(pts, b);
    reveal_strlit("453000");
    reveal_strlit("3a0d0d");
    reveal_strlit("0a3512");
    let fa = command_frames(HighlightCmd::Steady { pts, tint: a });
    let fb = command_frames(HighlightCmd::Steady { pts, tint: b });
    if fa == fb {
        assert(fa[0] == fb[0]);
        assert(fa[0].len() == fb[0].len());
        if a != Tint::Clear && b != Tint::Clear {
            assert(fa[0][6] == fb[0][6]);
            assert(fa[0][7] == fb[0][7]);
        }
    }
}

} // verus!
