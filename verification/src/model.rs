//! The mathematical model of a buffer.
//!
//! [`SpecValue`] is the pure tree that a [`crate::Value`] stands for; every
//! contract in the crate speaks of buffers through this model. The view keeps
//! the owned/borrowed distinction of string and byte leaves, since conversions
//! between the two ownership variants are part of what the contracts state.

use vstd::prelude::*;

use crate::Value;

verus! {

/// The model of a buffered value: the same tree as [`crate::Value`], with
/// sequences for collections and sequences of characters for text.
pub enum SpecValue {
    /// A `()` value.
    Unit,
    /// A boolean value.
    Bool(bool),
    /// A signed integer value.
    I8(i8),
    /// A signed integer value.
    I16(i16),
    /// A signed integer value.
    I32(i32),
    /// A signed integer value.
    I64(i64),
    /// A signed integer value.
    I128(i128),
    /// An unsigned integer value.
    U8(u8),
    /// An unsigned integer value.
    U16(u16),
    /// An unsigned integer value.
    U32(u32),
    /// An unsigned integer value.
    U64(u64),
    /// An unsigned integer value.
    U128(u128),
    /// The bit pattern of a 32-bit binary floating point value.
    F32Bits(u32),
    /// The bit pattern of a 64-bit binary floating point value.
    F64Bits(u64),
    /// A single character value.
    Char(char),
    /// An owned string value.
    Str(Seq<char>),
    /// A borrowed string value.
    BorrowedStr(Seq<char>),
    /// An owned byte-string value.
    Bytes(Seq<u8>),
    /// A borrowed byte-string value.
    BorrowedBytes(Seq<u8>),
    /// An absent optional value.
    OptNone,
    /// A present optional value.
    OptSome(Box<SpecValue>),
    /// A unit struct.
    UnitStruct { name: Seq<char> },
    /// A newtype struct.
    NewtypeStruct { name: Seq<char>, value: Box<SpecValue> },
    /// A struct with named fields, in declaration order, duplicates kept.
    Struct { name: Seq<char>, fields: Seq<(Seq<char>, SpecValue)> },
    /// A tuple.
    Tuple(Seq<SpecValue>),
    /// A struct with unnamed fields.
    TupleStruct { name: Seq<char>, fields: Seq<SpecValue> },
    /// A unit enum variant.
    UnitVariant { name: Seq<char>, variant_index: u32, variant: Seq<char> },
    /// A newtype enum variant.
    NewtypeVariant { name: Seq<char>, variant_index: u32, variant: Seq<char>, value: Box<SpecValue> },
    /// An enum variant with unnamed fields.
    TupleVariant { name: Seq<char>, variant_index: u32, variant: Seq<char>, fields: Seq<SpecValue> },
    /// An enum variant with named fields.
    StructVariant {
        name: Seq<char>,
        variant_index: u32,
        variant: Seq<char>,
        fields: Seq<(Seq<char>, SpecValue)>,
    },
    /// A sequence of values in order.
    Sequence(Seq<SpecValue>),
    /// A map as ordered key-value pairs.
    Mapping(Seq<(SpecValue, SpecValue)>),
}

/// The model that a stored [`Value`] tree stands for.
pub open spec fn value_view(v: Value) -> SpecValue
    decreases v,
{
    match v {
        Value::Unit => SpecValue::Unit,
        Value::Bool(b) => SpecValue::Bool(b),
        Value::I8(n) => SpecValue::I8(n),
        Value::I16(n) => SpecValue::I16(n),
        Value::I32(n) => SpecValue::I32(n),
        Value::I64(n) => SpecValue::I64(n),
        Value::I128(n) => SpecValue::I128(n),
        Value::U8(n) => SpecValue::U8(n),
        Value::U16(n) => SpecValue::U16(n),
        Value::U32(n) => SpecValue::U32(n),
        Value::U64(n) => SpecValue::U64(n),
        Value::U128(n) => SpecValue::U128(n),
        Value::F32Bits(n) => SpecValue::F32Bits(n),
        Value::F64Bits(n) => SpecValue::F64Bits(n),
        Value::Char(c) => SpecValue::Char(c),
        Value::Str(s) => SpecValue::Str(s@),
        Value::BorrowedStr(s) => SpecValue::BorrowedStr(s@),
        Value::Bytes(b) => SpecValue::Bytes(b@),
        Value::BorrowedBytes(b) => SpecValue::BorrowedBytes(b@),
        Value::OptNone => SpecValue::OptNone,
        Value::OptSome(inner) => SpecValue::OptSome(Box::new(value_view(*inner))),
        Value::UnitStruct { name } => SpecValue::UnitStruct { name: name@ },
        Value::NewtypeStruct { name, value } => SpecValue::NewtypeStruct {
            name: name@,
            value: Box::new(value_view(*value)),
        },
        Value::Struct { name, fields } => SpecValue::Struct {
            name: name@,
            fields: fields_view(fields@),
        },
        Value::Tuple(fields) => SpecValue::Tuple(values_view(fields@)),
        Value::TupleStruct { name, fields } => SpecValue::TupleStruct {
            name: name@,
            fields: values_view(fields@),
        },
        Value::UnitVariant { name, variant_index, variant } => SpecValue::UnitVariant {
            name: name@,
            variant_index,
            variant: variant@,
        },
        Value::NewtypeVariant { name, variant_index, variant, value } => SpecValue::NewtypeVariant {
            name: name@,
            variant_index,
            variant: variant@,
            value: Box::new(value_view(*value)),
        },
        Value::TupleVariant { name, variant_index, variant, fields } => SpecValue::TupleVariant {
            name: name@,
            variant_index,
            variant: variant@,
            fields: values_view(fields@),
        },
        Value::StructVariant { name, variant_index, variant, fields } => SpecValue::StructVariant {
            name: name@,
            variant_index,
            variant: variant@,
            fields: fields_view(fields@),
        },
        Value::Sequence(fields) => SpecValue::Sequence(values_view(fields@)),
        Value::Mapping(fields) => SpecValue::Mapping(pairs_view(fields@)),
    }
}

/// The models of a stored run of values, element by element.
pub open spec fn values_view(s: Seq<Value>) -> Seq<SpecValue>
    decreases s,
{
    if s.len() == 0 {
        Seq::empty()
    } else {
        seq![value_view(s[0])] + values_view(s.subrange(1, s.len() as int))
    }
}

/// The models of a stored run of named fields, element by element.
pub open spec fn fields_view(s: Seq<(&str, Value)>) -> Seq<(Seq<char>, SpecValue)>
    decreases s,
{
    if s.len() == 0 {
        Seq::empty()
    } else {
        seq![(s[0].0@, value_view(s[0].1))] + fields_view(s.subrange(1, s.len() as int))
    }
}

/// The models of a stored run of key-value pairs, element by element.
pub open spec fn pairs_view(s: Seq<(Value, Value)>) -> Seq<(SpecValue, SpecValue)>
    decreases s,
{
    if s.len() == 0 {
        Seq::empty()
    } else {
        seq![(value_view(s[0].0), value_view(s[0].1))] + pairs_view(s.subrange(1, s.len() as int))
    }
}

/// The fully owned form of a model: every borrowed text or byte leaf replaced
/// by its owned form, with nothing else changed.
///
/// Capturing a buffer's replay produces exactly this form, since the push
/// interface hands text and bytes over without their ownership.
pub open spec fn owned_of(v: SpecValue) -> SpecValue
    decreases v,
{
    match v {
        SpecValue::BorrowedStr(s) => SpecValue::Str(s),
        SpecValue::BorrowedBytes(b) => SpecValue::Bytes(b),
        SpecValue::OptSome(inner) => SpecValue::OptSome(Box::new(owned_of(*inner))),
        SpecValue::NewtypeStruct { name, value } => SpecValue::NewtypeStruct {
            name,
            value: Box::new(owned_of(*value)),
        },
        SpecValue::Struct { name, fields } => SpecValue::Struct {
            name,
            fields: owned_of_fields(fields),
        },
        SpecValue::Tuple(fields) => SpecValue::Tuple(owned_of_values(fields)),
        SpecValue::TupleStruct { name, fields } => SpecValue::TupleStruct {
            name,
            fields: owned_of_values(fields),
        },
        SpecValue::NewtypeVariant { name, variant_index, variant, value } => {
            SpecValue::NewtypeVariant {
                name,
                variant_index,
                variant,
                value: Box::new(owned_of(*value)),
            }
        },
        SpecValue::TupleVariant { name, variant_index, variant, fields } => {
            SpecValue::TupleVariant {
                name,
                variant_index,
                variant,
                fields: owned_of_values(fields),
            }
        },
        SpecValue::StructVariant { name, variant_index, variant, fields } => {
            SpecValue::StructVariant {
                name,
                variant_index,
                variant,
                fields: owned_of_fields(fields),
            }
        },
        SpecValue::Sequence(fields) => SpecValue::Sequence(owned_of_values(fields)),
        SpecValue::Mapping(fields) => SpecValue::Mapping(owned_of_pairs(fields)),
        _ => v,
    }
}

/// The fully owned forms of a run of models, element by element.
pub open spec fn owned_of_values(vs: Seq<SpecValue>) -> Seq<SpecValue>
    decreases vs,
{
    if vs.len() == 0 {
        Seq::empty()
    } else {
        seq![owned_of(vs[0])] + owned_of_values(vs.subrange(1, vs.len() as int))
    }
}

/// The fully owned forms of a run of named fields, element by element.
pub open spec fn owned_of_fields(fs: Seq<(Seq<char>, SpecValue)>) -> Seq<(Seq<char>, SpecValue)>
    decreases fs,
{
    if fs.len() == 0 {
        Seq::empty()
    } else {
        seq![(fs[0].0, owned_of(fs[0].1))] + owned_of_fields(fs.subrange(1, fs.len() as int))
    }
}

/// The fully owned forms of a run of key-value pairs, element by element.
pub open spec fn owned_of_pairs(ps: Seq<(SpecValue, SpecValue)>) -> Seq<(SpecValue, SpecValue)>
    decreases ps,
{
    if ps.len() == 0 {
        Seq::empty()
    } else {
        seq![(owned_of(ps[0].0), owned_of(ps[0].1))] + owned_of_pairs(
            ps.subrange(1, ps.len() as int),
        )
    }
}

/// `values_view` is the element-by-element image of the run it models.
pub broadcast proof fn lemma_values_view(s: Seq<Value>)
    ensures
        (#[trigger] values_view(s)).len() == s.len(),
        forall|i: int| 0 <= i < s.len() ==> values_view(s)[i] == value_view(s[i]),
    decreases s,
{
    if s.len() > 0 {
        lemma_values_view(s.subrange(1, s.len() as int));
    }
}

/// `fields_view` is the element-by-element image of the run it models.
pub broadcast proof fn lemma_fields_view(s: Seq<(&str, Value)>)
    ensures
        (#[trigger] fields_view(s)).len() == s.len(),
        forall|i: int| 0 <= i < s.len() ==> fields_view(s)[i] == (s[i].0@, value_view(s[i].1)),
    decreases s,
{
    if s.len() > 0 {
        lemma_fields_view(s.subrange(1, s.len() as int));
    }
}

/// `pairs_view` is the element-by-element image of the run it models.
pub broadcast proof fn lemma_pairs_view(s: Seq<(Value, Value)>)
    ensures
        (#[trigger] pairs_view(s)).len() == s.len(),
        forall|i: int| 0 <= i < s.len() ==> pairs_view(s)[i] == (
            value_view(s[i].0),
            value_view(s[i].1),
        ),
    decreases s,
{
    if s.len() > 0 {
        lemma_pairs_view(s.subrange(1, s.len() as int));
    }
}

} // verus!
