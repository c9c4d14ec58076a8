use fleetops::fold::Status;
use fleetops::highlight::{
    command_writes, desired_tint, osc_reset, osc_set, tint_color, HighlightCmd, Tint, AMBER, GREEN,
    PULSE_BRIGHT, RED,
};

#[test]
fn desired_tint_table() {
    let cases = [
        (Status::NeedsAnswer, Tint::Amber),
        (Status::Waiting, Tint::Amber),
        (Status::Stalled, Tint::Red),
        (Status::Working, Tint::Clear),
        (Status::Idle, Tint::Clear),
        (Status::Shell, Tint::Clear),
        (Status::Unknown, Tint::Clear),
    ];
    for (status, want) in cases {
        assert_eq!(desired_tint(status), want, "{status:?}");
    }
}

#[test]
fn tint_color_table() {
    assert_eq!(tint_color(Tint::Clear), None, "a reset carries no color");
    assert_eq!(tint_color(Tint::Amber), Some(AMBER));
    assert_eq!(tint_color(Tint::Red), Some(RED));
    assert_eq!(tint_color(Tint::Green), Some(GREEN));
}

#[test]
fn osc_set_exact_bytes() {
    assert_eq!(osc_set(AMBER), b"\x1b]11;#453000\x1b\\".to_vec());
    assert_eq!(osc_set(RED), b"\x1b]11;#3a0d0d\x1b\\".to_vec());
    assert_eq!(osc_set(GREEN), b"\x1b]11;#0a3512\x1b\\".to_vec());
    assert_eq!(osc_set(PULSE_BRIGHT), b"\x1b]11;#1a7a30\x1b\\".to_vec());
}

#[test]
fn osc_reset_exact_bytes() {
    assert_eq!(osc_reset(), b"\x1b]111\x1b\\");
}

#[test]
fn command_frames_in_order() {
    let (pts, frames) = command_writes(&HighlightCmd::Steady { pts: "/dev/pts/7".to_string(), tint: Tint::Clear });
    assert_eq!(pts, "/dev/pts/7");
    assert_eq!(frames, vec![osc_reset()]);
    let (_, frames) = command_writes(&HighlightCmd::Steady { pts: "/dev/pts/7".to_string(), tint: Tint::Red });
    assert_eq!(frames, vec![osc_set(RED)]);
    let (pts, frames) = command_writes(&HighlightCmd::Pulse { pts: "/dev/pts/8".to_string() });
    assert_eq!(pts, "/dev/pts/8");
    assert_eq!(frames.len(), 6);
    assert_eq!(frames[0], osc_set(PULSE_BRIGHT));
    assert_eq!(frames[5], osc_set(GREEN), "the pulse settles on steady green");
}
