//! End-to-end tests of the encoder against the in-memory store.

use kvenc::encoder::Encoder;
use kvenc::encoder::EncoderError;
use kvenc::encoder::Event;
use kvenc::scalar::ScalarValue;
use kvenc::store::Store;
use kvenc::store::StoreError;

fn s(text: &str) -> String {
    text.to_string()
}

#[test]
fn record_with_nested_child() {
    // {"a": 1, "b": {"c": "x"}}: set a=1 on the root, create child b,
    // set c="x" on it, pop back to the root.
    let mut store = Store::new();
    let mut enc = Encoder::from_key(&mut store, 0).unwrap();
    enc.stage_key(ScalarValue::Sz(s("a"))).unwrap();
    enc.write_scalar(&mut store, ScalarValue::U32(1)).unwrap();
    enc.stage_key(ScalarValue::Sz(s("b"))).unwrap();
    enc.begin_nested(&mut store).unwrap();
    enc.stage_key(ScalarValue::Sz(s("c"))).unwrap();
    enc.write_scalar(&mut store, ScalarValue::Sz(s("x"))).unwrap();
    enc.end_nested().unwrap();
    assert_eq!(enc.current_depth(), 1);
    enc.commit(&mut store).unwrap();
    // One child created, two values written, zero errors.
    assert_eq!(store.node_count(), 2);
    assert_eq!(store.get_value(0, &s("a")), Some(&ScalarValue::U32(1)));
    assert_eq!(store.get_child(0, &s("b")), Some(1));
    assert_eq!(store.get_value(1, &s("c")), Some(&ScalarValue::Sz(s("x"))));
    assert_eq!(store.value_count(0), 1);
    assert_eq!(store.value_count(1), 1);
}

#[test]
fn scalar_without_staged_name() {
    // Emitting 42 with no preceding key stage: NoFieldName, zero store calls.
    let mut store = Store::new();
    let mut enc = Encoder::from_key(&mut store, 0).unwrap();
    let r = enc.write_scalar(&mut store, ScalarValue::U32(42));
    assert!(matches!(r, Err(EncoderError::NoFieldName)));
    // Not even the transaction's work tree saw a write.
    assert_eq!(store.tx_value_count(0, 0), 0);
    assert_eq!(store.tx_node_count(0), 1);
    assert_eq!(store.node_count(), 1);
    assert_eq!(store.value_count(0), 0);
}

#[test]
fn nested_without_staged_name() {
    let mut store = Store::new();
    let mut enc = Encoder::from_key(&mut store, 0).unwrap();
    let r = enc.begin_nested(&mut store);
    assert!(matches!(r, Err(EncoderError::NoFieldName)));
    assert_eq!(enc.current_depth(), 1);
    assert_eq!(store.tx_node_count(0), 1);
}

#[test]
fn boolean_key_is_rejected() {
    // Staging the key `true` fails at the staging step; emitting 5 after it
    // still finds no staged name; zero store calls either way.
    let mut store = Store::new();
    let mut enc = Encoder::from_key(&mut store, 0).unwrap();
    let r = enc.stage_key(ScalarValue::Bool(true));
    assert!(matches!(r, Err(EncoderError::KeyMustBeAString)));
    let r = enc.write_scalar(&mut store, ScalarValue::U32(5));
    assert!(matches!(r, Err(EncoderError::NoFieldName)));
    assert_eq!(store.tx_value_count(0, 0), 0);
    assert_eq!(store.tx_node_count(0), 1);
}

#[test]
fn non_string_keys_are_rejected() {
    let mut store = Store::new();
    let mut enc = Encoder::from_key(&mut store, 0).unwrap();
    for key in [
        ScalarValue::U32(3),
        ScalarValue::U64(4),
        ScalarValue::I32(-5),
        ScalarValue::I64(-6),
        ScalarValue::Bytes(vec![1, 2]),
    ] {
        let r = enc.stage_key(key);
        assert!(matches!(r, Err(EncoderError::KeyMustBeAString)));
    }
    assert_eq!(store.tx_value_count(0, 0), 0);
}

#[test]
fn discarding_the_encoder_commits_nothing() {
    // Writes are visible in the transaction's work tree but never in the
    // committed tree unless commit is called.
    let mut store = Store::new();
    let mut enc = Encoder::from_key(&mut store, 0).unwrap();
    enc.stage_key(ScalarValue::Sz(s("a"))).unwrap();
    enc.write_scalar(&mut store, ScalarValue::U32(1)).unwrap();
    enc.stage_key(ScalarValue::Sz(s("b"))).unwrap();
    enc.begin_nested(&mut store).unwrap();
    assert_eq!(store.tx_get_value(0, 0, &s("a")), Some(&ScalarValue::U32(1)));
    assert_eq!(store.tx_get_child(0, 0, &s("b")), Some(1));
    assert_eq!(store.tx_node_count(0), 2);
    assert_eq!(store.get_value(0, &s("a")), None);
    drop(enc);
    assert_eq!(store.get_value(0, &s("a")), None);
    assert_eq!(store.get_child(0, &s("b")), None);
    assert_eq!(store.node_count(), 1);
    assert_eq!(store.value_count(0), 0);
}

#[test]
fn commit_makes_writes_visible() {
    let mut store = Store::new();
    let mut enc = Encoder::from_key(&mut store, 0).unwrap();
    enc.stage_key(ScalarValue::Sz(s("a"))).unwrap();
    enc.write_scalar(&mut store, ScalarValue::U64(7)).unwrap();
    assert_eq!(store.get_value(0, &s("a")), None);
    enc.commit(&mut store).unwrap();
    assert_eq!(store.get_value(0, &s("a")), Some(&ScalarValue::U64(7)));
}

#[test]
fn restaging_replaces_the_pending_name() {
    // The second stage wins; no store write happens for the discarded name.
    let mut store = Store::new();
    let mut enc = Encoder::from_key(&mut store, 0).unwrap();
    enc.stage_key(ScalarValue::Sz(s("x"))).unwrap();
    enc.stage_key(ScalarValue::Sz(s("y"))).unwrap();
    enc.write_scalar(&mut store, ScalarValue::U32(7)).unwrap();
    enc.commit(&mut store).unwrap();
    assert_eq!(store.get_value(0, &s("x")), None);
    assert_eq!(store.get_value(0, &s("y")), Some(&ScalarValue::U32(7)));
    assert_eq!(store.value_count(0), 1);
}

#[test]
fn name_is_consumed_by_use() {
    // After a successful scalar write or nested entry the pending slot is
    // empty again.
    let mut store = Store::new();
    let mut enc = Encoder::from_key(&mut store, 0).unwrap();
    enc.stage_key(ScalarValue::Sz(s("a"))).unwrap();
    enc.write_scalar(&mut store, ScalarValue::U32(1)).unwrap();
    let r = enc.write_scalar(&mut store, ScalarValue::U32(2));
    assert!(matches!(r, Err(EncoderError::NoFieldName)));
    enc.stage_key(ScalarValue::Sz(s("b"))).unwrap();
    enc.begin_nested(&mut store).unwrap();
    let r = enc.write_scalar(&mut store, ScalarValue::U32(3));
    assert!(matches!(r, Err(EncoderError::NoFieldName)));
}

#[test]
fn stack_balance_and_root_survives() {
    let mut store = Store::new();
    let mut enc = Encoder::from_key(&mut store, 0).unwrap();
    assert_eq!(enc.current_depth(), 1);
    enc.stage_key(ScalarValue::Sz(s("b"))).unwrap();
    enc.begin_nested(&mut store).unwrap();
    assert_eq!(enc.current_depth(), 2);
    enc.end_nested().unwrap();
    assert_eq!(enc.current_depth(), 1);
    // Leaving more often than entering never pops the root.
    let r = enc.end_nested();
    assert!(matches!(r, Err(EncoderError::SerializerError(_))));
    assert_eq!(enc.current_depth(), 1);
    // The encoder still writes to the root afterwards.
    enc.stage_key(ScalarValue::Sz(s("a"))).unwrap();
    enc.write_scalar(&mut store, ScalarValue::U32(1)).unwrap();
    enc.commit(&mut store).unwrap();
    assert_eq!(store.get_value(0, &s("a")), Some(&ScalarValue::U32(1)));
}

#[test]
fn reentering_a_child_reuses_the_node() {
    let mut store = Store::new();
    let mut enc = Encoder::from_key(&mut store, 0).unwrap();
    enc.stage_key(ScalarValue::Sz(s("b"))).unwrap();
    enc.begin_nested(&mut store).unwrap();
    enc.stage_key(ScalarValue::Sz(s("c"))).unwrap();
    enc.write_scalar(&mut store, ScalarValue::U32(1)).unwrap();
    enc.end_nested().unwrap();
    enc.stage_key(ScalarValue::Sz(s("b"))).unwrap();
    enc.begin_nested(&mut store).unwrap();
    enc.stage_key(ScalarValue::Sz(s("d"))).unwrap();
    enc.write_scalar(&mut store, ScalarValue::U32(2)).unwrap();
    enc.end_nested().unwrap();
    enc.commit(&mut store).unwrap();
    assert_eq!(store.node_count(), 2);
    assert_eq!(store.get_value(1, &s("c")), Some(&ScalarValue::U32(1)));
    assert_eq!(store.get_value(1, &s("d")), Some(&ScalarValue::U32(2)));
}

#[test]
fn shared_transaction_joins_sibling_encoders() {
    // Two encoders over one borrowed transaction land in one atomic commit.
    let mut store = Store::new();
    let tx = store.begin_transaction();
    let mut enc1 = Encoder::from_key_transacted(&store, 0, &tx).unwrap();
    let mut enc2 = Encoder::from_key_transacted(&store, 0, &tx).unwrap();
    enc1.stage_key(ScalarValue::Sz(s("a"))).unwrap();
    enc1.write_scalar(&mut store, ScalarValue::U32(1)).unwrap();
    enc2.stage_key(ScalarValue::Sz(s("b"))).unwrap();
    enc2.write_scalar(&mut store, ScalarValue::U32(2)).unwrap();
    drop(enc1);
    drop(enc2);
    assert_eq!(store.get_value(0, &s("a")), None);
    store.commit(tx).unwrap();
    assert_eq!(store.get_value(0, &s("a")), Some(&ScalarValue::U32(1)));
    assert_eq!(store.get_value(0, &s("b")), Some(&ScalarValue::U32(2)));
}

#[test]
fn bad_handles_surface_as_io_errors() {
    let mut store = Store::new();
    // No node 5 in a fresh store.
    let r = Encoder::from_key(&mut store, 5);
    assert!(matches!(r, Err(EncoderError::IoError(StoreError::BadNode))));
    // A transaction of one store names nothing in another.
    let mut other = Store::new();
    let enc = Encoder::from_key(&mut store, 0).unwrap();
    let r = enc.commit(&mut other);
    assert!(matches!(
        r,
        Err(EncoderError::IoError(StoreError::BadTransaction))
    ));
    // The borrowed shape rejects foreign handles the same way.
    let tx = store.begin_transaction();
    let r = Encoder::from_key_transacted(&other, 0, &tx);
    assert!(matches!(
        r,
        Err(EncoderError::IoError(StoreError::BadTransaction))
    ));
    let r = Encoder::from_key_transacted(&store, 9, &tx);
    assert!(matches!(r, Err(EncoderError::IoError(StoreError::BadNode))));
}

#[test]
fn unrepresentable_kinds_are_refused() {
    let mut store = Store::new();
    let enc = Encoder::from_key(&mut store, 0).unwrap();
    let r = enc.not_implemented(s("bare top-level sequence"));
    match r {
        Err(EncoderError::EncodeNotImplemented(d)) => {
            assert_eq!(d, s("bare top-level sequence"));
        }
        _ => panic!("expected EncodeNotImplemented"),
    }
    assert_eq!(store.tx_value_count(0, 0), 0);
}

#[test]
fn errors_describe_themselves() {
    assert_eq!(EncoderError::NoFieldName.describe(), "no field name staged");
    assert_eq!(
        EncoderError::KeyMustBeAString.describe(),
        "key must be a string"
    );
    assert_eq!(
        EncoderError::IoError(StoreError::BadNode).describe(),
        "store operation failed"
    );
    assert_eq!(
        EncoderError::SerializerError(String::new()).describe(),
        "malformed event sequence"
    );
    assert_eq!(
        EncoderError::EncodeNotImplemented(String::new()).describe(),
        "value kind cannot be encoded"
    );
}

#[test]
fn every_scalar_shape_roundtrips() {
    let mut store = Store::new();
    let mut enc = Encoder::from_key(&mut store, 0).unwrap();
    let cases = [
        ("bool", ScalarValue::Bool(true)),
        ("u32", ScalarValue::U32(7)),
        ("u64", ScalarValue::U64(1 << 40)),
        ("i32", ScalarValue::I32(-7)),
        ("i64", ScalarValue::I64(-(1 << 40))),
        ("sz", ScalarValue::Sz(s("text"))),
        ("bytes", ScalarValue::Bytes(vec![0, 255, 3])),
    ];
    for (name, value) in cases.iter() {
        enc.stage_key(ScalarValue::Sz(s(name))).unwrap();
        enc.write_scalar(&mut store, value.clone()).unwrap();
    }
    enc.commit(&mut store).unwrap();
    for (name, value) in cases.iter() {
        assert_eq!(store.get_value(0, &s(name)), Some(value));
    }
}

#[test]
fn event_stream_drives_the_encoder() {
    // The same nested record, driven as one event sequence.
    let mut store = Store::new();
    let mut enc = Encoder::from_key(&mut store, 0).unwrap();
    let events = vec![
        Event::StageKey(ScalarValue::Sz(s("a"))),
        Event::Scalar(ScalarValue::U32(1)),
        Event::StageKey(ScalarValue::Sz(s("b"))),
        Event::BeginNested,
        Event::StageKey(ScalarValue::Sz(s("c"))),
        Event::Scalar(ScalarValue::Sz(s("x"))),
        Event::EndNested,
    ];
    enc.apply_all(&mut store, events).unwrap();
    enc.commit(&mut store).unwrap();
    assert_eq!(store.node_count(), 2);
    assert_eq!(store.get_value(0, &s("a")), Some(&ScalarValue::U32(1)));
    assert_eq!(store.get_value(1, &s("c")), Some(&ScalarValue::Sz(s("x"))));
}

#[test]
fn event_stream_stops_at_the_first_error() {
    let mut store = Store::new();
    let mut enc = Encoder::from_key(&mut store, 0).unwrap();
    let events = vec![
        Event::Scalar(ScalarValue::U32(42)),
        Event::StageKey(ScalarValue::Sz(s("a"))),
        Event::Scalar(ScalarValue::U32(1)),
    ];
    let r = enc.apply_all(&mut store, events);
    assert!(matches!(r, Err(EncoderError::NoFieldName)));
    // Nothing after the failing event ran, and nothing was committed.
    assert_eq!(store.tx_value_count(0, 0), 0);
    drop(enc);
    assert_eq!(store.value_count(0), 0);
}
