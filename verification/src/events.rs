//! The push-interface protocol, reified.
//!
//! Driving a value through the push interface is a sequence of calls; an
//! [`Event`] records one such call. Replaying a buffer emits the event run
//! given by [`events_of`]; the capture adapter consumes an event run and
//! rebuilds the buffer. Stating both directions over the same run of events is
//! what lets the round-trip guarantee be proved.
//!
//! The run a buffer emits does not reveal whether a text or byte leaf was
//! owned or borrowed: the push interface has a single string call and a single
//! byte-string call, so both forms of a leaf emit the same event.

use vstd::prelude::*;

use crate::model::{fields_view, pairs_view, values_view, SpecValue};
use crate::Value;

verus! {

/// One call of the push interface.
///
/// Calls that open a collection carry the length hint handed to the call;
/// nested values follow as their own events, and an explicit end event closes
/// each collection.
#[derive(Debug, PartialEq)]
pub enum Event<'a> {
    /// A `()` value.
    Unit,
    /// A boolean value.
    Bool(bool),
    /// A signed integer value.
    I8(i8),
    /// A signed integer value.
    I16(i16),
    /// A signed integer value.
    I32(i32),
    /// A signed integer value.
    I64(i64),
    /// A signed integer value.
    I128(i128),
    /// An unsigned integer value.
    U8(u8),
    /// An unsigned integer value.
    U16(u16),
    /// An unsigned integer value.
    U32(u32),
    /// An unsigned integer value.
    U64(u64),
    /// An unsigned integer value.
    U128(u128),
    /// The bit pattern of a 32-bit binary floating point value.
    F32Bits(u32),
    /// The bit pattern of a 64-bit binary floating point value.
    F64Bits(u64),
    /// A single character value.
    Char(char),
    /// A string value; the push interface does not distinguish owned from
    /// borrowed text.
    Str(&'a str),
    /// A byte-string value.
    Bytes(&'a [u8]),
    /// An absent optional value.
    OptNone,
    /// A present optional value; the inner value's events follow.
    OptSome,
    /// A unit struct.
    UnitStruct {
        /// The struct's name.
        name: &'static str,
    },
    /// A newtype struct; the wrapped value's events follow.
    NewtypeStruct {
        /// The struct's name.
        name: &'static str,
    },
    /// A unit enum variant.
    UnitVariant {
        /// The enum's name.
        name: &'static str,
        /// The variant's 0-based index.
        variant_index: u32,
        /// The variant's name.
        variant: &'static str,
    },
    /// A newtype enum variant; the wrapped value's events follow.
    NewtypeVariant {
        /// The enum's name.
        name: &'static str,
        /// The variant's 0-based index.
        variant_index: u32,
        /// The variant's name.
        variant: &'static str,
    },
    /// Open a sequence.
    SeqBegin {
        /// The length hint handed to the call, if any.
        len: Option<usize>,
    },
    /// Close a sequence.
    SeqEnd,
    /// Open a tuple.
    TupleBegin {
        /// The declared number of elements.
        len: usize,
    },
    /// Close a tuple.
    TupleEnd,
    /// Open a struct with unnamed fields.
    TupleStructBegin {
        /// The struct's name.
        name: &'static str,
        /// The declared number of fields.
        len: usize,
    },
    /// Close a struct with unnamed fields.
    TupleStructEnd,
    /// Open an enum variant with unnamed fields.
    TupleVariantBegin {
        /// The enum's name.
        name: &'static str,
        /// The variant's 0-based index.
        variant_index: u32,
        /// The variant's name.
        variant: &'static str,
        /// The declared number of fields.
        len: usize,
    },
    /// Close an enum variant with unnamed fields.
    TupleVariantEnd,
    /// Open a struct with named fields.
    StructBegin {
        /// The struct's name.
        name: &'static str,
        /// The declared number of fields.
        len: usize,
    },
    /// Announce one named field; the field's value events follow.
    StructField {
        /// The field's name.
        name: &'static str,
    },
    /// Close a struct with named fields.
    StructEnd,
    /// Open an enum variant with named fields.
    StructVariantBegin {
        /// The enum's name.
        name: &'static str,
        /// The variant's 0-based index.
        variant_index: u32,
        /// The variant's name.
        variant: &'static str,
        /// The declared number of fields.
        len: usize,
    },
    /// Close an enum variant with named fields.
    StructVariantEnd,
    /// Open a map.
    MapBegin {
        /// The length hint handed to the call, if any.
        len: Option<usize>,
    },
    /// Stage the key of the next map entry; the key's value events follow.
    MapKey,
    /// Supply the value paired with the staged key; its events follow.
    MapValue,
    /// Close a map.
    MapEnd,
}

/// The model of one push-interface call.
pub enum SpecEvent {
    /// A `()` value.
    Unit,
    /// A boolean value.
    Bool(bool),
    /// A signed integer value.
    I8(i8),
    /// A signed integer value.
    I16(i16),
    /// A signed integer value.
    I32(i32),
    /// A signed integer value.
    I64(i64),
    /// A signed integer value.
    I128(i128),
    /// An unsigned integer value.
    U8(u8),
    /// An unsigned integer value.
    U16(u16),
    /// An unsigned integer value.
    U32(u32),
    /// An unsigned integer value.
    U64(u64),
    /// An unsigned integer value.
    U128(u128),
    /// The bit pattern of a 32-bit binary floating point value.
    F32Bits(u32),
    /// The bit pattern of a 64-bit binary floating point value.
    F64Bits(u64),
    /// A single character value.
    Char(char),
    /// A string value.
    Str(Seq<char>),
    /// A byte-string value.
    Bytes(Seq<u8>),
    /// An absent optional value.
    OptNone,
    /// A present optional value.
    OptSome,
    /// A unit struct.
    UnitStruct { name: Seq<char> },
    /// A newtype struct.
    NewtypeStruct { name: Seq<char> },
    /// A unit enum variant.
    UnitVariant { name: Seq<char>, variant_index: u32, variant: Seq<char> },
    /// A newtype enum variant.
    NewtypeVariant { name: Seq<char>, variant_index: u32, variant: Seq<char> },
    /// Open a sequence.
    SeqBegin { len: Option<usize> },
    /// Close a sequence.
    SeqEnd,
    /// Open a tuple.
    TupleBegin { len: usize },
    /// Close a tuple.
    TupleEnd,
    /// Open a struct with unnamed fields.
    TupleStructBegin { name: Seq<char>, len: usize },
    /// Close a struct with unnamed fields.
    TupleStructEnd,
    /// Open an enum variant with unnamed fields.
    TupleVariantBegin { name: Seq<char>, variant_index: u32, variant: Seq<char>, len: usize },
    /// Close an enum variant with unnamed fields.
    TupleVariantEnd,
    /// Open a struct with named fields.
    StructBegin { name: Seq<char>, len: usize },
    /// Announce one named field.
    StructField { name: Seq<char> },
    /// Close a struct with named fields.
    StructEnd,
    /// Open an enum variant with named fields.
    StructVariantBegin { name: Seq<char>, variant_index: u32, variant: Seq<char>, len: usize },
    /// Close an enum variant with named fields.
    StructVariantEnd,
    /// Open a map.
    MapBegin { len: Option<usize> },
    /// Stage the key of the next map entry.
    MapKey,
    /// Supply the value paired with the staged key.
    MapValue,
    /// Close a map.
    MapEnd,
}

impl<'a> View for Event<'a> {
    type V = SpecEvent;

    open spec fn view(&self) -> SpecEvent {
        match *self {
            Event::Unit => SpecEvent::Unit,
            Event::Bool(b) => SpecEvent::Bool(b),
            Event::I8(n) => SpecEvent::I8(n),
            Event::I16(n) => SpecEvent::I16(n),
            Event::I32(n) => SpecEvent::I32(n),
            Event::I64(n) => SpecEvent::I64(n),
            Event::I128(n) => SpecEvent::I128(n),
            Event::U8(n) => SpecEvent::U8(n),
            Event::U16(n) => SpecEvent::U16(n),
            Event::U32(n) => SpecEvent::U32(n),
            Event::U64(n) => SpecEvent::U64(n),
            Event::U128(n) => SpecEvent::U128(n),
            Event::F32Bits(n) => SpecEvent::F32Bits(n),
            Event::F64Bits(n) => SpecEvent::F64Bits(n),
            Event::Char(c) => SpecEvent::Char(c),
            Event::Str(s) => SpecEvent::Str(s@),
            Event::Bytes(b) => SpecEvent::Bytes(b@),
            Event::OptNone => SpecEvent::OptNone,
            Event::OptSome => SpecEvent::OptSome,
            Event::UnitStruct { name } => SpecEvent::UnitStruct { name: name@ },
            Event::NewtypeStruct { name } => SpecEvent::NewtypeStruct { name: name@ },
            Event::UnitVariant { name, variant_index, variant } => SpecEvent::UnitVariant {
                name: name@,
                variant_index,
                variant: variant@,
            },
            Event::NewtypeVariant { name, variant_index, variant } => SpecEvent::NewtypeVariant {
                name: name@,
                variant_index,
                variant: variant@,
            },
            Event::SeqBegin { len } => SpecEvent::SeqBegin { len },
            Event::SeqEnd => SpecEvent::SeqEnd,
            Event::TupleBegin { len } => SpecEvent::TupleBegin { len },
            Event::TupleEnd => SpecEvent::TupleEnd,
            Event::TupleStructBegin { name, len } => SpecEvent::TupleStructBegin {
                name: name@,
                len,
            },
            Event::TupleStructEnd => SpecEvent::TupleStructEnd,
            Event::TupleVariantBegin { name, variant_index, variant, len } => {
                SpecEvent::TupleVariantBegin { name: name@, variant_index, variant: variant@, len }
            },
            Event::TupleVariantEnd => SpecEvent::TupleVariantEnd,
            Event::StructBegin { name, len } => SpecEvent::StructBegin { name: name@, len },
            Event::StructField { name } => SpecEvent::StructField { name: name@ },
            Event::StructEnd => SpecEvent::StructEnd,
            Event::StructVariantBegin { name, variant_index, variant, len } => {
                SpecEvent::StructVariantBegin {
                    name: name@,
                    variant_index,
                    variant: variant@,
                    len,
                }
            },
            Event::StructVariantEnd => SpecEvent::StructVariantEnd,
            Event::MapBegin { len } => SpecEvent::MapBegin { len },
            Event::MapKey => SpecEvent::MapKey,
            Event::MapValue => SpecEvent::MapValue,
            Event::MapEnd => SpecEvent::MapEnd,
        }
    }
}

/// The models of a run of events, element by element.
pub open spec fn events_view<'a>(s: Seq<Event<'a>>) -> Seq<SpecEvent> {
    s.map_values(|e: Event<'a>| e@)
}

/// The run of push-interface calls that replaying a buffer emits.
///
/// Length hints for sequences and maps are the exact element counts, and owned
/// and borrowed text or byte leaves emit the same event.
pub open spec fn events_of(v: SpecValue) -> Seq<SpecEvent>
    decreases v,
{
    match v {
        SpecValue::Unit => seq![SpecEvent::Unit],
        SpecValue::Bool(b) => seq![SpecEvent::Bool(b)],
        SpecValue::I8(n) => seq![SpecEvent::I8(n)],
        SpecValue::I16(n) => seq![SpecEvent::I16(n)],
        SpecValue::I32(n) => seq![SpecEvent::I32(n)],
        SpecValue::I64(n) => seq![SpecEvent::I64(n)],
        SpecValue::I128(n) => seq![SpecEvent::I128(n)],
        SpecValue::U8(n) => seq![SpecEvent::U8(n)],
        SpecValue::U16(n) => seq![SpecEvent::U16(n)],
        SpecValue::U32(n) => seq![SpecEvent::U32(n)],
        SpecValue::U64(n) => seq![SpecEvent::U64(n)],
        SpecValue::U128(n) => seq![SpecEvent::U128(n)],
        SpecValue::F32Bits(n) => seq![SpecEvent::F32Bits(n)],
        SpecValue::F64Bits(n) => seq![SpecEvent::F64Bits(n)],
        SpecValue::Char(c) => seq![SpecEvent::Char(c)],
        SpecValue::Str(s) => seq![SpecEvent::Str(s)],
        SpecValue::BorrowedStr(s) => seq![SpecEvent::Str(s)],
        SpecValue::Bytes(b) => seq![SpecEvent::Bytes(b)],
        SpecValue::BorrowedBytes(b) => seq![SpecEvent::Bytes(b)],
        SpecValue::OptNone => seq![SpecEvent::OptNone],
        SpecValue::OptSome(inner) => seq![SpecEvent::OptSome] + events_of(*inner),
        SpecValue::UnitStruct { name } => seq![SpecEvent::UnitStruct { name }],
        SpecValue::NewtypeStruct { name, value } => seq![SpecEvent::NewtypeStruct { name }]
            + events_of(*value),
        SpecValue::Struct { name, fields } => seq![
            SpecEvent::StructBegin { name, len: fields.len() as usize },
        ] + events_of_fields(fields) + seq![SpecEvent::StructEnd],
        SpecValue::Tuple(fields) => seq![SpecEvent::TupleBegin { len: fields.len() as usize }]
            + events_of_values(fields) + seq![SpecEvent::TupleEnd],
        SpecValue::TupleStruct { name, fields } => seq![
            SpecEvent::TupleStructBegin { name, len: fields.len() as usize },
        ] + events_of_values(fields) + seq![SpecEvent::TupleStructEnd],
        SpecValue::UnitVariant { name, variant_index, variant } => seq![
            SpecEvent::UnitVariant { name, variant_index, variant },
        ],
        SpecValue::NewtypeVariant { name, variant_index, variant, value } => seq![
            SpecEvent::NewtypeVariant { name, variant_index, variant },
        ] + events_of(*value),
        SpecValue::TupleVariant { name, variant_index, variant, fields } => seq![
            SpecEvent::TupleVariantBegin {
                name,
                variant_index,
                variant,
                len: fields.len() as usize,
            },
        ] + events_of_values(fields) + seq![SpecEvent::TupleVariantEnd],
        SpecValue::StructVariant { name, variant_index, variant, fields } => seq![
            SpecEvent::StructVariantBegin {
                name,
                variant_index,
                variant,
                len: fields.len() as usize,
            },
        ] + events_of_fields(fields) + seq![SpecEvent::StructVariantEnd],
        SpecValue::Sequence(fields) => seq![
            SpecEvent::SeqBegin { len: Some(fields.len() as usize) },
        ] + events_of_values(fields) + seq![SpecEvent::SeqEnd],
        SpecValue::Mapping(fields) => seq![
            SpecEvent::MapBegin { len: Some(fields.len() as usize) },
        ] + events_of_pairs(fields) + seq![SpecEvent::MapEnd],
    }
}

/// The events of a run of values, one value's run after the other.
pub open spec fn events_of_values(vs: Seq<SpecValue>) -> Seq<SpecEvent>
    decreases vs,
{
    if vs.len() == 0 {
        Seq::empty()
    } else {
        events_of(vs[0]) + events_of_values(vs.subrange(1, vs.len() as int))
    }
}

/// The events of a run of named fields: each field announced by name, its
/// value's run following.
pub open spec fn events_of_fields(fs: Seq<(Seq<char>, SpecValue)>) -> Seq<SpecEvent>
    decreases fs,
{
    if fs.len() == 0 {
        Seq::empty()
    } else {
        seq![SpecEvent::StructField { name: fs[0].0 }] + events_of(fs[0].1) + events_of_fields(
            fs.subrange(1, fs.len() as int),
        )
    }
}

/// The events of a run of map entries: each key staged, then its value.
pub open spec fn events_of_pairs(ps: Seq<(SpecValue, SpecValue)>) -> Seq<SpecEvent>
    decreases ps,
{
    if ps.len() == 0 {
        Seq::empty()
    } else {
        seq![SpecEvent::MapKey] + events_of(ps[0].0) + seq![SpecEvent::MapValue] + events_of(
            ps[0].1,
        ) + events_of_pairs(ps.subrange(1, ps.len() as int))
    }
}

/// Appending one value to a run appends its events to the run's events.
pub proof fn lemma_events_of_values_push(vs: Seq<SpecValue>, v: SpecValue)
    ensures
        events_of_values(vs.push(v)) == events_of_values(vs) + events_of(v),
    decreases vs,
{
    reveal_with_fuel(events_of_values, 3);
    if vs.len() == 0 {
        assert(vs.push(v).subrange(1, vs.push(v).len() as int) =~= Seq::<SpecValue>::empty());
        assert(events_of_values(vs.push(v)) =~= events_of_values(vs) + events_of(v));
    } else {
        let tail = vs.subrange(1, vs.len() as int);
        assert(vs.push(v).subrange(1, vs.push(v).len() as int) =~= tail.push(v));
        lemma_events_of_values_push(tail, v);
        assert(vs.push(v)[0] == vs[0]);
        assert(events_of_values(vs.push(v)) == events_of(vs[0]) + (events_of_values(tail)
            + events_of(v)));
        assert(events_of(vs[0]) + (events_of_values(tail) + events_of(v)) =~= (events_of(vs[0])
            + events_of_values(tail)) + events_of(v));
    }
}

/// Appending one named field to a run appends its events to the run's events.
pub proof fn lemma_events_of_fields_push(fs: Seq<(Seq<char>, SpecValue)>, f: (Seq<char>, SpecValue))
    ensures
        events_of_fields(fs.push(f)) == events_of_fields(fs) + seq![
            SpecEvent::StructField { name: f.0 },
        ] + events_of(f.1),
    decreases fs,
{
    reveal_with_fuel(events_of_fields, 3);
    if fs.len() == 0 {
        assert(fs.push(f).subrange(1, fs.push(f).len() as int) =~= Seq::<
            (Seq<char>, SpecValue),
        >::empty());
        assert(events_of_fields(fs.push(f)) =~= events_of_fields(fs) + seq![
            SpecEvent::StructField { name: f.0 },
        ] + events_of(f.1));
    } else {
        let tail = fs.subrange(1, fs.len() as int);
        assert(fs.push(f).subrange(1, fs.push(f).len() as int) =~= tail.push(f));
        lemma_events_of_fields_push(tail, f);
        assert(fs.push(f)[0] == fs[0]);
        let head = seq![SpecEvent::StructField { name: fs[0].0 }] + events_of(fs[0].1);
        assert(events_of_fields(fs.push(f)) == seq![SpecEvent::StructField { name: fs[0].0 }]
            + events_of(fs[0].1) + (events_of_fields(tail) + seq![
            SpecEvent::StructField { name: f.0 },
        ] + events_of(f.1)));
        assert(seq![SpecEvent::StructField { name: fs[0].0 }] + events_of(fs[0].1) + (
        events_of_fields(tail) + seq![SpecEvent::StructField { name: f.0 }] + events_of(f.1)) =~= (
        seq![SpecEvent::StructField { name: fs[0].0 }] + events_of(fs[0].1) + events_of_fields(
            tail,
        )) + seq![SpecEvent::StructField { name: f.0 }] + events_of(f.1));
    }
}

/// Appending one map entry to a run appends its events to the run's events.
pub proof fn lemma_events_of_pairs_push(ps: Seq<(SpecValue, SpecValue)>, p: (SpecValue, SpecValue))
    ensures
        events_of_pairs(ps.push(p)) == events_of_pairs(ps) + seq![SpecEvent::MapKey] + events_of(
            p.0,
        ) + seq![SpecEvent::MapValue] + events_of(p.1),
    decreases ps,
{
    reveal_with_fuel(events_of_pairs, 3);
    if ps.len() == 0 {
        assert(ps.push(p).subrange(1, ps.push(p).len() as int) =~= Seq::<
            (SpecValue, SpecValue),
        >::empty());
        assert(events_of_pairs(ps.push(p)) =~= events_of_pairs(ps) + seq![SpecEvent::MapKey]
            + events_of(p.0) + seq![SpecEvent::MapValue] + events_of(p.1));
    } else {
        let tail = ps.subrange(1, ps.len() as int);
        assert(ps.push(p).subrange(1, ps.push(p).len() as int) =~= tail.push(p));
        lemma_events_of_pairs_push(tail, p);
        assert(ps.push(p)[0] == ps[0]);
        assert(events_of_pairs(ps.push(p)) == seq![SpecEvent::MapKey] + events_of(ps[0].0) + seq![
            SpecEvent::MapValue,
        ] + events_of(ps[0].1) + (events_of_pairs(tail) + seq![SpecEvent::MapKey] + events_of(p.0)
            + seq![SpecEvent::MapValue] + events_of(p.1)));
        assert(seq![SpecEvent::MapKey] + events_of(ps[0].0) + seq![SpecEvent::MapValue]
            + events_of(ps[0].1) + (events_of_pairs(tail) + seq![SpecEvent::MapKey] + events_of(
            p.0,
        ) + seq![SpecEvent::MapValue] + events_of(p.1)) =~= (seq![SpecEvent::MapKey] + events_of(
            ps[0].0,
        ) + seq![SpecEvent::MapValue] + events_of(ps[0].1) + events_of_pairs(tail)) + seq![
            SpecEvent::MapKey,
        ] + events_of(p.0) + seq![SpecEvent::MapValue] + events_of(p.1));
    }
}

/// Replay one stored value through the push interface: the exact run of calls
/// that serializing the buffer makes, in order.
pub fn to_events<'e>(v: &'e Value<'e>) -> (out: Vec<Event<'e>>)
    ensures
        events_view(out@) == events_of(v@),
    decreases *v,
{
    let mut out: Vec<Event<'e>> = Vec::new();
    match v {
        Value::Unit => {
            out.push(Event::Unit);
            proof {
                assert(events_view(out@) =~= events_of((*v)@));
            }
        },
        Value::Bool(b) => {
            out.push(Event::Bool(*b));
            proof {
                assert(events_view(out@) =~= events_of((*v)@));
            }
        },
        Value::I8(n) => {
            out.push(Event::I8(*n));
            proof {
                assert(events_view(out@) =~= events_of((*v)@));
            }
        },
        Value::I16(n) => {
            out.push(Event::I16(*n));
            proof {
                assert(events_view(out@) =~= events_of((*v)@));
            }
        },
        Value::I32(n) => {
            out.push(Event::I32(*n));
            proof {
                assert(events_view(out@) =~= events_of((*v)@));
            }
        },
        Value::I64(n) => {
            out.push(Event::I64(*n));
            proof {
                assert(events_view(out@) =~= events_of((*v)@));
            }
        },
        Value::I128(n) => {
            out.push(Event::I128(*n));
            proof {
                assert(events_view(out@) =~= events_of((*v)@));
            }
        },
        Value::U8(n) => {
            out.push(Event::U8(*n));
            proof {
                assert(events_view(out@) =~= events_of((*v)@));
            }
        },
        Value::U16(n) => {
            out.push(Event::U16(*n));
            proof {
                assert(events_view(out@) =~= events_of((*v)@));
            }
        },
        Value::U32(n) => {
            out.push(Event::U32(*n));
            proof {
                assert(events_view(out@) =~= events_of((*v)@));
            }
        },
        Value::U64(n) => {
            out.push(Event::U64(*n));
            proof {
                assert(events_view(out@) =~= events_of((*v)@));
            }
        },
        Value::U128(n) => {
            out.push(Event::U128(*n));
            proof {
                assert(events_view(out@) =~= events_of((*v)@));
            }
        },
        Value::F32Bits(n) => {
            out.push(Event::F32Bits(*n));
            proof {
                assert(events_view(out@) =~= events_of((*v)@));
            }
        },
        Value::F64Bits(n) => {
            out.push(Event::F64Bits(*n));
            proof {
                assert(events_view(out@) =~= events_of((*v)@));
            }
        },
        Value::Char(c) => {
            out.push(Event::Char(*c));
            proof {
                assert(events_view(out@) =~= events_of((*v)@));
            }
        },
        Value::Str(s) => {
            out.push(Event::Str(s.as_str()));
            proof {
                assert(events_view(out@) =~= events_of((*v)@));
            }
        },
        Value::BorrowedStr(s) => {
            out.push(Event::Str(*s));
            proof {
                assert(events_view(out@) =~= events_of((*v)@));
            }
        },
        Value::Bytes(b) => {
            out.push(Event::Bytes(b.as_slice()));
            proof {
                assert(events_view(out@) =~= events_of((*v)@));
            }
        },
        Value::BorrowedBytes(b) => {
            out.push(Event::Bytes(*b));
            proof {
                assert(events_view(out@) =~= events_of((*v)@));
            }
        },
        Value::OptNone => {
            out.push(Event::OptNone);
            proof {
                assert(events_view(out@) =~= events_of((*v)@));
            }
        },
        Value::OptSome(inner) => {
            out.push(Event::OptSome);
            let ghost out1 = out@;
            let mut child = to_events(inner);
            let ghost childv = child@;
            out.append(&mut child);
            proof {
                lemma_events_view_concat(out1, childv);
                assert(events_view(out@) =~= events_of((*v)@));
            }
        },
        Value::UnitStruct { name } => {
            out.push(Event::UnitStruct { name });
            proof {
                assert(events_view(out@) =~= events_of((*v)@));
            }
        },
        Value::NewtypeStruct { name, value } => {
            out.push(Event::NewtypeStruct { name });
            let ghost out1 = out@;
            let mut child = to_events(value);
            let ghost childv = child@;
            out.append(&mut child);
            proof {
                lemma_events_view_concat(out1, childv);
                assert(events_view(out@) =~= events_of((*v)@));
            }
        },
        Value::Struct { name, fields } => {
            out.push(Event::StructBegin { name, len: fields.len() });
            emit_fields(fields, &mut out);
            let ghost out2 = out@;
            out.push(Event::StructEnd);
            proof {
                crate::model::lemma_fields_view(fields@);
                lemma_events_view_push(out2, Event::StructEnd);
                assert(events_view(out@) =~= events_of((*v)@));
            }
        },
        Value::Tuple(fields) => {
            out.push(Event::TupleBegin { len: fields.len() });
            emit_values(fields, &mut out);
            let ghost out2 = out@;
            out.push(Event::TupleEnd);
            proof {
                crate::model::lemma_values_view(fields@);
                lemma_events_view_push(out2, Event::TupleEnd);
                assert(events_view(out@) =~= events_of((*v)@));
            }
        },
        Value::TupleStruct { name, fields } => {
            out.push(Event::TupleStructBegin { name, len: fields.len() });
            emit_values(fields, &mut out);
            let ghost out2 = out@;
            out.push(Event::TupleStructEnd);
            proof {
                crate::model::lemma_values_view(fields@);
                lemma_events_view_push(out2, Event::TupleStructEnd);
                assert(events_view(out@) =~= events_of((*v)@));
            }
        },
        Value::UnitVariant { name, variant_index, variant } => {
            out.push(
                Event::UnitVariant { name, variant_index: *variant_index, variant },
            );
            proof {
                assert(events_view(out@) =~= events_of((*v)@));
            }
        },
        Value::NewtypeVariant { name, variant_index, variant, value } => {
            out.push(
                Event::NewtypeVariant { name, variant_index: *variant_index, variant },
            );
            let ghost out1 = out@;
            let mut child = to_events(value);
            let ghost childv = child@;
            out.append(&mut child);
            proof {
                lemma_events_view_concat(out1, childv);
                assert(events_view(out@) =~= events_of((*v)@));
            }
        },
        Value::TupleVariant { name, variant_index, variant, fields } => {
            out.push(
                Event::TupleVariantBegin {
                    name,
                    variant_index: *variant_index,
                    variant,
                    len: fields.len(),
                },
            );
            emit_values(fields, &mut out);
            let ghost out2 = out@;
            out.push(Event::TupleVariantEnd);
            proof {
                crate::model::lemma_values_view(fields@);
                lemma_events_view_push(out2, Event::TupleVariantEnd);
                assert(events_view(out@) =~= events_of((*v)@));
            }
        },
        Value::StructVariant { name, variant_index, variant, fields } => {
            out.push(
                Event::StructVariantBegin {
                    name,
                    variant_index: *variant_index,
                    variant,
                    len: fields.len(),
                },
            );
            emit_fields(fields, &mut out);
            let ghost out2 = out@;
            out.push(Event::StructVariantEnd);
            proof {
                crate::model::lemma_fields_view(fields@);
                lemma_events_view_push(out2, Event::StructVariantEnd);
                assert(events_view(out@) =~= events_of((*v)@));
            }
        },
        Value::Sequence(fields) => {
            out.push(Event::SeqBegin { len: Some(fields.len()) });
            emit_values(fields, &mut out);
            let ghost out2 = out@;
            out.push(Event::SeqEnd);
            proof {
                crate::model::lemma_values_view(fields@);
                lemma_events_view_push(out2, Event::SeqEnd);
                assert(events_view(out@) =~= events_of((*v)@));
            }
        },
        Value::Mapping(fields) => {
            out.push(Event::MapBegin { len: Some(fields.len()) });
            emit_pairs(fields, &mut out);
            let ghost out2 = out@;
            out.push(Event::MapEnd);
            proof {
                crate::model::lemma_pairs_view(fields@);
                lemma_events_view_push(out2, Event::MapEnd);
                assert(events_view(out@) =~= events_of((*v)@));
            }
        },
    }
    out
}

/// Append the events of each value of a run, one value's run after the other.
fn emit_values<'e>(fields: &'e Vec<Value<'e>>, out: &mut Vec<Event<'e>>)
    ensures
        events_view(final(out)@) == events_view(old(out)@) + events_of_values(
            values_view(fields@),
        ),
    decreases *fields,
{
    let ghost base = out@;
    let ghost vs = values_view(fields@);
    proof {
        crate::model::lemma_values_view(fields@);
    }
    let mut i: usize = 0;
    while i < fields.len()
        invariant
            i <= fields@.len(),
            vs == values_view(fields@),
            vs.len() == fields@.len(),
            events_view(out@) == events_view(base) + events_of_values(vs.subrange(0, i as int)),
        decreases fields@.len() - i,
    {
        let mut child = to_events(&fields[i]);
        let ghost prev = out@;
        let ghost childv = child@;
        out.append(&mut child);
        proof {
            crate::model::lemma_values_view(fields@);
            lemma_events_view_concat(prev, childv);
            assert(vs.subrange(0, (i + 1) as int) =~= vs.subrange(0, i as int).push(
                vs[i as int],
            ));
            lemma_events_of_values_push(vs.subrange(0, i as int), vs[i as int]);
            assert(events_view(out@) =~= events_view(base) + events_of_values(
                vs.subrange(0, (i + 1) as int),
            ));
        }
        i = i + 1;
    }
    proof {
        assert(vs.subrange(0, i as int) =~= vs);
    }
}

/// Append the events of each named field of a run: the field announced by
/// name, its value's run following.
fn emit_fields<'e>(fields: &'e Vec<(&'static str, Value<'e>)>, out: &mut Vec<Event<'e>>)
    ensures
        events_view(final(out)@) == events_view(old(out)@) + events_of_fields(
            fields_view(fields@),
        ),
    decreases *fields,
{
    let ghost base = out@;
    let ghost fs = fields_view(fields@);
    proof {
        crate::model::lemma_fields_view(fields@);
    }
    let mut i: usize = 0;
    while i < fields.len()
        invariant
            i <= fields@.len(),
            fs == fields_view(fields@),
            fs.len() == fields@.len(),
            events_view(out@) == events_view(base) + events_of_fields(fs.subrange(0, i as int)),
        decreases fields@.len() - i,
    {
        let ghost prev0 = out@;
        out.push(Event::StructField { name: fields[i].0 });
        let ghost prev1 = out@;
        let mut child = to_events(&fields[i].1);
        let ghost childv = child@;
        out.append(&mut child);
        proof {
            crate::model::lemma_fields_view(fields@);
            lemma_events_view_push(prev0, Event::StructField { name: fields@[i as int].0 });
            lemma_events_view_concat(prev1, childv);
            assert(fs.subrange(0, (i + 1) as int) =~= fs.subrange(0, i as int).push(
                fs[i as int],
            ));
            lemma_events_of_fields_push(fs.subrange(0, i as int), fs[i as int]);
            assert(events_view(out@) =~= events_view(base) + events_of_fields(
                fs.subrange(0, (i + 1) as int),
            ));
        }
        i = i + 1;
    }
    proof {
        assert(fs.subrange(0, i as int) =~= fs);
    }
}

/// Append the events of each entry of a map run: the key staged, then its
/// value supplied.
fn emit_pairs<'e>(fields: &'e Vec<(Value<'e>, Value<'e>)>, out: &mut Vec<Event<'e>>)
    ensures
        events_view(final(out)@) == events_view(old(out)@) + events_of_pairs(pairs_view(fields@)),
    decreases *fields,
{
    let ghost base = out@;
    let ghost ps = pairs_view(fields@);
    proof {
        crate::model::lemma_pairs_view(fields@);
    }
    let mut i: usize = 0;
    while i < fields.len()
        invariant
            i <= fields@.len(),
            ps == pairs_view(fields@),
            ps.len() == fields@.len(),
            events_view(out@) == events_view(base) + events_of_pairs(ps.subrange(0, i as int)),
        decreases fields@.len() - i,
    {
        let ghost prev0 = out@;
        out.push(Event::MapKey);
        let ghost prev1 = out@;
        let mut kchild = to_events(&fields[i].0);
        let ghost kchildv = kchild@;
        out.append(&mut kchild);
        let ghost prev2 = out@;
        out.push(Event::MapValue);
        let ghost prev3 = out@;
        let mut vchild = to_events(&fields[i].1);
        let ghost vchildv = vchild@;
        out.append(&mut vchild);
        proof {
            crate::model::lemma_pairs_view(fields@);
            lemma_events_view_push(prev0, Event::MapKey);
            lemma_events_view_concat(prev1, kchildv);
            lemma_events_view_push(prev2, Event::MapValue);
            lemma_events_view_concat(prev3, vchildv);
            assert(ps.subrange(0, (i + 1) as int) =~= ps.subrange(0, i as int).push(
                ps[i as int],
            ));
            lemma_events_of_pairs_push(ps.subrange(0, i as int), ps[i as int]);
            assert(events_view(out@) =~= events_view(base) + events_of_pairs(
                ps.subrange(0, (i + 1) as int),
            ));
        }
        i = i + 1;
    }
    proof {
        assert(ps.subrange(0, i as int) =~= ps);
    }
}

/// Whether two events make the same push-interface call once length hints
/// are set aside.
///
/// The calls that open a collection carry a hint or a declared length that a
/// driver may understate, overstate or omit; everything else about the two
/// calls must agree exactly.
pub open spec fn same_call(a: SpecEvent, b: SpecEvent) -> bool {
    match (a, b) {
        (SpecEvent::SeqBegin { len: l1 }, SpecEvent::SeqBegin { len: l2 }) => true,
        (SpecEvent::TupleBegin { len: l1 }, SpecEvent::TupleBegin { len: l2 }) => true,
        (
            SpecEvent::TupleStructBegin { name: n1, len: l1 },
            SpecEvent::TupleStructBegin { name: n2, len: l2 },
        ) => n1 == n2,
        (
            SpecEvent::TupleVariantBegin { name: n1, variant_index: i1, variant: v1, len: l1 },
            SpecEvent::TupleVariantBegin { name: n2, variant_index: i2, variant: v2, len: l2 },
        ) => n1 == n2 && i1 == i2 && v1 == v2,
        (
            SpecEvent::StructBegin { name: n1, len: l1 },
            SpecEvent::StructBegin { name: n2, len: l2 },
        ) => n1 == n2,
        (
            SpecEvent::StructVariantBegin { name: n1, variant_index: i1, variant: v1, len: l1 },
            SpecEvent::StructVariantBegin { name: n2, variant_index: i2, variant: v2, len: l2 },
        ) => n1 == n2 && i1 == i2 && v1 == v2,
        (SpecEvent::MapBegin { len: l1 }, SpecEvent::MapBegin { len: l2 }) => true,
        _ => a == b,
    }
}

/// Whether two runs make the same push-interface calls once length hints are
/// set aside, call for call.
pub open spec fn same_calls(a: Seq<SpecEvent>, b: Seq<SpecEvent>) -> bool {
    a.len() == b.len() && forall|i: int| 0 <= i < a.len() ==> same_call(a[i], b[i])
}

/// Whether an event can open the run of a value: every event but the closing
/// events, the named-field announcement and the map entry markers does.
pub open spec fn starts_value(e: SpecEvent) -> bool {
    match e {
        SpecEvent::SeqEnd => false,
        SpecEvent::TupleEnd => false,
        SpecEvent::TupleStructEnd => false,
        SpecEvent::TupleVariantEnd => false,
        SpecEvent::StructField { name } => false,
        SpecEvent::StructEnd => false,
        SpecEvent::StructVariantEnd => false,
        SpecEvent::MapKey => false,
        SpecEvent::MapValue => false,
        SpecEvent::MapEnd => false,
        _ => true,
    }
}

/// A value's run is never empty, and its first event opens a value.
pub proof fn lemma_events_of_starts(v: SpecValue)
    ensures
        events_of(v).len() > 0,
        starts_value(events_of(v)[0]),
{
}

/// Replacing borrowed leaves by their owned forms leaves a value's run of
/// events unchanged: the push interface does not see leaf ownership.
pub proof fn lemma_events_of_owned(v: SpecValue)
    ensures
        events_of(crate::model::owned_of(v)) == events_of(v),
    decreases v,
{
    match v {
        SpecValue::OptSome(inner) => {
            lemma_events_of_owned(*inner);
        },
        SpecValue::NewtypeStruct { name, value } => {
            lemma_events_of_owned(*value);
        },
        SpecValue::Struct { name, fields } => {
            lemma_events_of_owned_fields(fields);
        },
        SpecValue::Tuple(fields) => {
            lemma_events_of_owned_values(fields);
        },
        SpecValue::TupleStruct { name, fields } => {
            lemma_events_of_owned_values(fields);
        },
        SpecValue::NewtypeVariant { name, variant_index, variant, value } => {
            lemma_events_of_owned(*value);
        },
        SpecValue::TupleVariant { name, variant_index, variant, fields } => {
            lemma_events_of_owned_values(fields);
        },
        SpecValue::StructVariant { name, variant_index, variant, fields } => {
            lemma_events_of_owned_fields(fields);
        },
        SpecValue::Sequence(fields) => {
            lemma_events_of_owned_values(fields);
        },
        SpecValue::Mapping(fields) => {
            lemma_events_of_owned_pairs(fields);
        },
        _ => {},
    }
}

/// Replacing borrowed leaves by their owned forms leaves a run of values the
/// same length and the same events.
pub proof fn lemma_events_of_owned_values(vs: Seq<SpecValue>)
    ensures
        crate::model::owned_of_values(vs).len() == vs.len(),
        events_of_values(crate::model::owned_of_values(vs)) == events_of_values(vs),
    decreases vs,
{
    if vs.len() > 0 {
        let tail = vs.subrange(1, vs.len() as int);
        let owned = crate::model::owned_of_values(vs);
        lemma_events_of_owned(vs[0]);
        lemma_events_of_owned_values(tail);
        assert(owned[0] == crate::model::owned_of(vs[0]));
        assert(owned.subrange(1, owned.len() as int) =~= crate::model::owned_of_values(tail));
    }
}

/// Replacing borrowed leaves by their owned forms leaves a run of named
/// fields the same length and the same events.
pub proof fn lemma_events_of_owned_fields(fs: Seq<(Seq<char>, SpecValue)>)
    ensures
        crate::model::owned_of_fields(fs).len() == fs.len(),
        events_of_fields(crate::model::owned_of_fields(fs)) == events_of_fields(fs),
    decreases fs,
{
    if fs.len() > 0 {
        let tail = fs.subrange(1, fs.len() as int);
        let owned = crate::model::owned_of_fields(fs);
        lemma_events_of_owned(fs[0].1);
        lemma_events_of_owned_fields(tail);
        assert(owned[0] == (fs[0].0, crate::model::owned_of(fs[0].1)));
        assert(owned.subrange(1, owned.len() as int) =~= crate::model::owned_of_fields(tail));
    }
}

/// Replacing borrowed leaves by their owned forms leaves a run of map entries
/// the same length and the same events.
pub proof fn lemma_events_of_owned_pairs(ps: Seq<(SpecValue, SpecValue)>)
    ensures
        crate::model::owned_of_pairs(ps).len() == ps.len(),
        events_of_pairs(crate::model::owned_of_pairs(ps)) == events_of_pairs(ps),
    decreases ps,
{
    if ps.len() > 0 {
        let tail = ps.subrange(1, ps.len() as int);
        let owned = crate::model::owned_of_pairs(ps);
        lemma_events_of_owned(ps[0].0);
        lemma_events_of_owned(ps[0].1);
        lemma_events_of_owned_pairs(tail);
        assert(owned[0] == (crate::model::owned_of(ps[0].0), crate::model::owned_of(ps[0].1)));
        assert(owned.subrange(1, owned.len() as int) =~= crate::model::owned_of_pairs(tail));
    }
}

/// The model of a pushed event run distributes over appending.
pub proof fn lemma_events_view_concat<'a>(a: Seq<Event<'a>>, b: Seq<Event<'a>>)
    ensures
        events_view(a + b) == events_view(a) + events_view(b),
{
    assert(events_view(a + b) =~= events_view(a) + events_view(b));
}

/// The model of a pushed event run distributes over pushing one event.
pub proof fn lemma_events_view_push<'a>(s: Seq<Event<'a>>, e: Event<'a>)
    ensures
        events_view(s.push(e)) == events_view(s).push(e@),
{
    assert(events_view(s.push(e)) =~= events_view(s).push(e@));
}

} // verus!
