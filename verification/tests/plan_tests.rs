use eva_common::OID;
use eva_common::value::Value;
use timed_seq::{Sequence, SequenceAction, SequenceActionOwned, SequenceOwned};

fn oid(s: &str) -> OID {
    s.parse().unwrap()
}

fn act(target: &str, wait: u64) -> SequenceActionOwned {
    SequenceActionOwned { oid: oid(target), params: None, wait }
}

#[test]
fn empty_plan_has_zero_durations() {
    let s = SequenceOwned::new(30_000_000);
    assert_eq!(s.max_expected_duration(), 0);
    assert_eq!(s.abort_timeout(), 0);
    assert_eq!(s.timeout(), 30_000_000);
}

#[test]
fn expected_duration_sums_delays_and_group_maxima() {
    let mut s = SequenceOwned::new(60_000_000);
    s.push_delay(2_000_000);
    s.push_actions_multi(vec![act("unit:g/a", 3_000_000), act("unit:g/b", 5_000_000)]);
    s.push_action(act("unit:g/c", 1_000_000));
    assert_eq!(s.max_expected_duration(), 8_000_000);
}

#[test]
fn expected_duration_counts_empty_multi_as_zero() {
    let mut s = SequenceOwned::new(10_000_000);
    s.push_actions_multi(Vec::new());
    s.push_delay(7);
    assert_eq!(s.max_expected_duration(), 7);
}

#[test]
fn abort_timeout_none_single_multi_empty() {
    let mut s = SequenceOwned::new(10_000_000);
    assert_eq!(s.abort_timeout(), 0);
    s.set_on_abort(act("unit:g/a", 4_000_000));
    assert_eq!(s.abort_timeout(), 4_000_000);
    s.set_on_abort_multi(vec![act("unit:g/a", 2_000_000), act("unit:g/b", 7_000_000)]);
    assert_eq!(s.abort_timeout(), 7_000_000);
    s.set_on_abort_multi(Vec::new());
    assert_eq!(s.abort_timeout(), 0);
}

#[test]
fn abort_plan_does_not_change_expected_duration() {
    let mut s = SequenceOwned::new(10_000_000);
    s.push_delay(5);
    s.set_on_abort(act("unit:g/a", 9_000_000));
    assert_eq!(s.max_expected_duration(), 5);
    assert_eq!(s.abort_timeout(), 9_000_000);
}

#[test]
fn identifiers_are_distinct_per_construction() {
    let mut seen: Vec<uuid::Uuid> = Vec::new();
    for _ in 0..64 {
        let s = SequenceOwned::new(1);
        let id = s.uuid();
        assert!(!seen.contains(&id));
        seen.push(id);
    }
}

#[test]
fn identifier_is_stable_under_mutation() {
    let mut s = SequenceOwned::new(1_000_000);
    let before = s.uuid();
    s.push_delay(10);
    s.push_action(act("unit:g/a", 20));
    s.set_on_abort(act("unit:g/b", 30));
    assert_eq!(s.uuid(), before);
}

#[test]
fn unit_action_carries_value_and_wait() {
    let a = SequenceActionOwned::new_unit(oid("unit:g/lamp"), Value::U8(1), 1_500_000);
    assert_eq!(a.oid, oid("unit:g/lamp"));
    assert_eq!(a.wait, 1_500_000);
    match a.params {
        Some(eva_common::actions::Params::Unit(up)) => assert_eq!(up.value, Value::U8(1)),
        _ => panic!("unit action must carry unit params"),
    }
}

#[test]
fn borrowed_plan_durations_match_owned() {
    let oa = oid("unit:g/a");
    let ob = oid("unit:g/b");
    let mut s = Sequence::new(60_000_000);
    s.push_delay(2_000_000);
    s.push_actions_multi(vec![
        SequenceAction { oid: &oa, params: None, wait: 3_000_000 },
        SequenceAction { oid: &ob, params: None, wait: 5_000_000 },
    ]);
    s.push_action(SequenceAction { oid: &oa, params: None, wait: 1_000_000 });
    assert_eq!(s.max_expected_duration(), 8_000_000);
    assert_eq!(s.abort_timeout(), 0);
    s.set_on_abort_multi(vec![
        SequenceAction { oid: &oa, params: None, wait: 2_000_000 },
        SequenceAction { oid: &ob, params: None, wait: 7_000_000 },
    ]);
    assert_eq!(s.abort_timeout(), 7_000_000);
}

#[test]
fn borrowed_unit_action_borrows_target() {
    let o = oid("unit:g/lamp");
    let a = SequenceAction::new_unit(&o, Value::String("on".to_string()), 250_000);
    assert_eq!(*a.oid, oid("unit:g/lamp"));
    assert_eq!(a.wait, 250_000);
    match a.params {
        Some(eva_common::actions::Params::Unit(up)) => {
            assert_eq!(up.value, Value::String("on".to_string()));
        },
        _ => panic!("unit action must carry unit params"),
    }
}

#[test]
fn expected_duration_saturates_instead_of_wrapping() {
    let mut s = SequenceOwned::new(0);
    s.push_delay(u64::MAX);
    s.push_delay(u64::MAX);
    assert_eq!(s.max_expected_duration(), u64::MAX);
}
