//! The ownership split: conversions between the two buffer forms are lossless
//! in both directions, and a hand-built borrowed buffer replays exactly like
//! its captured, fully owned counterpart.

use serde_buf::events::to_events;
use serde_buf::ser::Serializer;
use serde_buf::{Owned, Ref, Value};

fn sample() -> Value<'static> {
    Value::Struct {
        name: "MyData",
        fields: vec![
            ("id", Value::U64(42)),
            ("content", Value::Str("Some content".to_owned())),
        ],
    }
}

#[test]
fn owned_to_ref_to_owned_is_identity() {
    let original = Owned(sample());
    let as_ref: Ref<'static> = Ref::from(Owned(sample()));
    let back = Owned::from(as_ref);
    assert_eq!(back, original);
}

#[test]
fn ref_to_owned_to_ref_is_identity() {
    // A borrowed-form buffer whose borrows are unbounded converts to owned
    // and back without change, borrowed leaves included.
    let original = Ref::str("a static string");
    let owned = Owned::from(Ref::str("a static string"));
    assert_eq!(owned.0, Value::BorrowedStr("a static string"));
    let back: Ref<'static> = Ref::from(owned);
    assert_eq!(back, original);
}

#[test]
fn hand_built_ref_replays_like_its_capture() {
    // A borrowed hand-built buffer and the owned buffer captured from its
    // replay emit the identical run of events.
    let id: u64 = 42;
    let content = String::from("Some content");
    let by_hand = Ref::record_struct(
        "MyData",
        vec![("id", Ref::u64(id)), ("content", Ref::str(&content))],
    );
    let trace = to_events(&by_hand.0);
    let captured = Serializer::new().capture(&trace).unwrap();
    assert_eq!(captured.0, sample());
    assert_eq!(to_events(&captured.0), trace);
}
