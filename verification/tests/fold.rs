use fleetops::discovery::NativeStatus;
use fleetops::fold::{sort_key, status, Status, STALL_AFTER_SECS};

#[test]
fn fold_priority_table() {
    let other = NativeStatus::Other("pondering".to_string());
    let cases: &[(&NativeStatus, bool, Option<u64>, Status)] = &[
        (&NativeStatus::Busy, true, Some(9_999), Status::NeedsAnswer),
        (&NativeStatus::Idle, true, None, Status::NeedsAnswer),
        (&other, true, None, Status::NeedsAnswer),
        (&NativeStatus::Busy, false, Some(STALL_AFTER_SECS - 1), Status::Working),
        (&NativeStatus::Busy, false, Some(STALL_AFTER_SECS), Status::Working),
        (&NativeStatus::Busy, false, Some(STALL_AFTER_SECS + 1), Status::Stalled),
        (&NativeStatus::Busy, false, None, Status::Working),
        (&NativeStatus::Idle, false, Some(9_999), Status::Idle),
        (&NativeStatus::Shell, false, None, Status::Shell),
        (&NativeStatus::Waiting, false, Some(9_999), Status::Waiting),
        (&NativeStatus::Waiting, false, None, Status::Waiting),
        (&other, false, Some(1), Status::Unknown),
    ];
    for (native, pending, age, want) in cases {
        assert_eq!(status(native, *pending, *age), *want, "{native:?} pending={pending} age={age:?}");
    }
}

#[test]
fn sort_buckets_put_attention_first() {
    let order = [
        Status::NeedsAnswer,
        Status::Waiting,
        Status::Stalled,
        Status::Unknown,
        Status::Working,
        Status::Idle,
        Status::Shell,
    ];
    assert!(order.windows(2).all(|w| sort_key(w[0]) < sort_key(w[1])));
}

#[test]
fn status_names_are_the_variant_names() {
    assert_eq!(Status::NeedsAnswer.name(), "NeedsAnswer");
    assert_eq!(Status::Working.name(), "Working");
    assert_eq!(Status::Shell.name(), "Shell");
}
