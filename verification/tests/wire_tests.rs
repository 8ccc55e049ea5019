use eva_common::OID;
use eva_common::value::Value;
use timed_seq::{
    Sequence, SequenceAction, SequenceActionEntryOwned, SequenceActionOwned, SequenceEntryOwned,
    SequenceOwned, WireError, WireValue,
};

fn oid(s: &str) -> OID {
    s.parse().unwrap()
}

fn act(target: &str, wait: u64) -> SequenceActionOwned {
    SequenceActionOwned { oid: oid(target), params: None, wait }
}

fn assert_actions_equal(a: &SequenceActionOwned, b: &SequenceActionOwned) {
    assert_eq!(a.oid, b.oid);
    assert_eq!(a.wait, b.wait);
    match (&a.params, &b.params) {
        (None, None) => {},
        (
            Some(eva_common::actions::Params::Unit(ua)),
            Some(eva_common::actions::Params::Unit(ub)),
        ) => {
            assert_eq!(ua.value, ub.value);
        },
        _ => panic!("parameter payloads differ"),
    }
}

fn assert_groups_equal(a: &SequenceActionEntryOwned, b: &SequenceActionEntryOwned) {
    match (a, b) {
        (SequenceActionEntryOwned::Single(x), SequenceActionEntryOwned::Single(y)) => {
            assert_actions_equal(x, y);
        },
        (SequenceActionEntryOwned::Multi(xs), SequenceActionEntryOwned::Multi(ys)) => {
            assert_eq!(xs.len(), ys.len());
            for (x, y) in xs.iter().zip(ys.iter()) {
                assert_actions_equal(x, y);
            }
        },
        _ => panic!("group shapes differ"),
    }
}

fn assert_plans_equal(a: &SequenceOwned, b: &SequenceOwned) {
    assert_eq!(a.uuid(), b.uuid());
    assert_eq!(a.timeout(), b.timeout());
    assert_eq!(a.seq.len(), b.seq.len());
    for (x, y) in a.seq.iter().zip(b.seq.iter()) {
        match (x, y) {
            (SequenceEntryOwned::Delay(dx), SequenceEntryOwned::Delay(dy)) => {
                assert_eq!(dx, dy);
            },
            (SequenceEntryOwned::Actions(gx), SequenceEntryOwned::Actions(gy)) => {
                assert_groups_equal(gx, gy);
            },
            _ => panic!("entry shapes differ"),
        }
    }
    match (&a.on_abort, &b.on_abort) {
        (None, None) => {},
        (Some(ga), Some(gb)) => assert_groups_equal(ga, gb),
        _ => panic!("abort plans differ"),
    }
}

fn sample_plan() -> SequenceOwned {
    let mut s = SequenceOwned::new(42_000_000);
    s.push_delay(2_000_000);
    s.push_action(SequenceActionOwned::new_unit(
        oid("unit:room1/lamp"),
        Value::U8(1),
        1_000_000,
    ));
    s.push_actions_multi(vec![act("unit:g/a", 3_000_000), act("unit:g/b", 5_000_000)]);
    s.push_actions_multi(Vec::new());
    s.set_on_abort_multi(vec![act("unit:g/a", 100), act("unit:g/b", 200)]);
    s
}

#[test]
fn owned_round_trip_preserves_everything() {
    let s = sample_plan();
    let w = s.to_wire();
    let t = SequenceOwned::from_wire(&w).unwrap();
    assert_plans_equal(&s, &t);
}

#[test]
fn owned_round_trip_without_abort_plan() {
    let mut s = SequenceOwned::new(5);
    s.push_delay(9);
    let t = SequenceOwned::from_wire(&s.to_wire()).unwrap();
    assert_plans_equal(&s, &t);
    assert!(t.on_abort.is_none());
}

#[test]
fn borrowed_round_trip_decodes_as_equal_owned_plan() {
    let oa = oid("unit:g/a");
    let ob = oid("unit:g/b");
    let mut s = Sequence::new(42_000_000);
    s.push_delay(2_000_000);
    s.push_actions_multi(vec![
        SequenceAction { oid: &oa, params: None, wait: 3_000_000 },
        SequenceAction { oid: &ob, params: None, wait: 5_000_000 },
    ]);
    s.set_on_abort(SequenceAction { oid: &oa, params: None, wait: 4_000_000 });
    let t = SequenceOwned::from_wire(&s.to_wire()).unwrap();
    assert_eq!(t.uuid(), s.uuid());
    assert_eq!(t.timeout(), 42_000_000);
    assert_eq!(t.max_expected_duration(), s.max_expected_duration());
    assert_eq!(t.abort_timeout(), 4_000_000);
    assert_eq!(t.seq.len(), 2);
}

/// Rewrites every number leaf as float seconds and back, as the
/// float-seconds wire profile does at its boundary.
fn through_float_seconds(w: WireValue) -> WireValue {
    match w {
        WireValue::Num(n) => {
            let secs: f64 = n as f64 / 1_000_000.0;
            WireValue::Num((secs * 1_000_000.0).round() as u64)
        },
        WireValue::List(items) => {
            WireValue::List(items.into_iter().map(through_float_seconds).collect())
        },
        WireValue::Object(fields) => WireValue::Object(
            fields.into_iter().map(|(k, v)| (k, through_float_seconds(v))).collect(),
        ),
        other => other,
    }
}

#[test]
fn float_seconds_profile_round_trips_within_precision() {
    let s = sample_plan();
    let w = through_float_seconds(s.to_wire());
    let t = SequenceOwned::from_wire(&w).unwrap();
    assert_plans_equal(&s, &t);
}

fn wire_text(s: &str) -> WireValue {
    WireValue::Text(s.to_string())
}

fn plan_object(id_key: &str, id: &str, entries: Vec<WireValue>) -> WireValue {
    WireValue::Object(vec![
        (id_key.to_string(), wire_text(id)),
        ("seq".to_string(), WireValue::List(entries)),
        ("on_abort".to_string(), WireValue::Null),
        ("timeout".to_string(), WireValue::Num(1_000_000)),
    ])
}

const ID: &str = "67e55044-10b1-426f-9247-bb680e5fe0c8";

#[test]
fn legacy_identifier_alias_decodes_identically() {
    let entries = || vec![WireValue::Num(5)];
    let a = SequenceOwned::from_wire(&plan_object("u", ID, entries())).unwrap();
    let b = SequenceOwned::from_wire(&plan_object("uuid", ID, entries())).unwrap();
    assert_plans_equal(&a, &b);
    assert_eq!(a.uuid(), ID.parse::<uuid::Uuid>().unwrap());
}

#[test]
fn entries_disambiguate_by_shape() {
    let action_obj = || {
        WireValue::Object(vec![
            ("i".to_string(), WireValue::Target(oid("unit:g/a"))),
            ("params".to_string(), WireValue::Null),
            ("wait".to_string(), WireValue::Num(7)),
        ])
    };
    let w = plan_object(
        "u",
        ID,
        vec![
            WireValue::Num(3),
            WireValue::List(vec![action_obj(), action_obj()]),
            WireValue::Object(vec![
                ("i".to_string(), WireValue::Target(oid("unit:g/a"))),
                ("params".to_string(), WireValue::Null),
                ("wait".to_string(), WireValue::Num(7)),
            ]),
        ],
    );
    let s = SequenceOwned::from_wire(&w).unwrap();
    assert_eq!(s.seq.len(), 3);
    assert!(matches!(s.seq[0], SequenceEntryOwned::Delay(3)));
    assert!(matches!(
        s.seq[1],
        SequenceEntryOwned::Actions(SequenceActionEntryOwned::Multi(_))
    ));
    assert!(matches!(
        s.seq[2],
        SequenceEntryOwned::Actions(SequenceActionEntryOwned::Single(_))
    ));
}

#[test]
fn malformed_identifier_is_rejected() {
    let w = plan_object("u", "not-an-identifier", vec![]);
    assert!(matches!(SequenceOwned::from_wire(&w), Err(WireError::BadIdentifier)));
    let w2 = WireValue::Object(vec![
        ("u".to_string(), WireValue::Num(4)),
        ("seq".to_string(), WireValue::List(vec![])),
        ("on_abort".to_string(), WireValue::Null),
        ("timeout".to_string(), WireValue::Num(1)),
    ]);
    assert!(matches!(SequenceOwned::from_wire(&w2), Err(WireError::BadIdentifier)));
}

#[test]
fn missing_identifier_is_rejected_as_shape() {
    let w = WireValue::Object(vec![
        ("seq".to_string(), WireValue::List(vec![])),
        ("timeout".to_string(), WireValue::Num(1)),
    ]);
    assert!(matches!(SequenceOwned::from_wire(&w), Err(WireError::BadShape)));
}

#[test]
fn malformed_durations_are_rejected() {
    let w = WireValue::Object(vec![
        ("u".to_string(), wire_text(ID)),
        ("seq".to_string(), WireValue::List(vec![])),
        ("on_abort".to_string(), WireValue::Null),
        ("timeout".to_string(), wire_text("soon")),
    ]);
    assert!(matches!(SequenceOwned::from_wire(&w), Err(WireError::BadDuration)));
    let bad_action = WireValue::Object(vec![
        ("i".to_string(), WireValue::Target(oid("unit:g/a"))),
        ("params".to_string(), WireValue::Null),
        ("wait".to_string(), wire_text("soon")),
    ]);
    let w2 = plan_object("u", ID, vec![bad_action]);
    assert!(matches!(SequenceOwned::from_wire(&w2), Err(WireError::BadDuration)));
}

#[test]
fn unrecognizable_shapes_are_rejected() {
    assert!(matches!(
        SequenceOwned::from_wire(&WireValue::Num(4)),
        Err(WireError::BadShape)
    ));
    let w = plan_object("u", ID, vec![wire_text("pause")]);
    assert!(matches!(SequenceOwned::from_wire(&w), Err(WireError::BadShape)));
    let w2 = plan_object("u", ID, vec![WireValue::Null]);
    assert!(matches!(SequenceOwned::from_wire(&w2), Err(WireError::BadShape)));
    let action_missing_wait = WireValue::Object(vec![
        ("i".to_string(), WireValue::Target(oid("unit:g/a"))),
        ("params".to_string(), WireValue::Null),
    ]);
    let w3 = plan_object("u", ID, vec![action_missing_wait]);
    assert!(matches!(SequenceOwned::from_wire(&w3), Err(WireError::BadShape)));
}

#[test]
fn output_always_uses_canonical_identifier_key() {
    let s = SequenceOwned::new(1);
    match s.to_wire() {
        WireValue::Object(fields) => {
            assert_eq!(fields[0].0, "u");
            assert!(fields.iter().all(|(k, _)| k != "uuid"));
        },
        _ => panic!("a plan must encode as an object"),
    }
}

#[test]
fn encoded_identifier_is_the_plans_own() {
    let s = SequenceOwned::new(1);
    match s.to_wire() {
        WireValue::Object(fields) => match &fields[0].1 {
            WireValue::Text(t) => {
                assert_eq!(t.parse::<uuid::Uuid>().unwrap(), s.uuid());
            },
            _ => panic!("the identifier must encode as text"),
        },
        _ => panic!("a plan must encode as an object"),
    }
}
