//! The replay adapter: the decode half of the protocol.
//!
//! Given one buffer, replay exposes exactly one visit matching the buffer's
//! top-level shape, through [`Deserializer::into_visit`]. Structural children
//! are walked through the cursors here: a single-pass sequence cursor, a
//! key-then-value map cursor, and an index-addressed enum dispatch. Ownership
//! follows the stored leaf: borrowed leaves come out borrowed, owned leaves
//! are handed over by move.
//!
//! Typed decode requests do not reinterpret a stored shape: every request is
//! answered with the stored shape itself, and a mismatch is the consumer's own
//! shape error, not a buffer error. The enum payload entry points are the one
//! place the buffer raises shape errors itself, naming the expected against
//! the stored payload kind.

use vstd::prelude::*;

use crate::model::{
    fields_view, lemma_fields_view, lemma_pairs_view, lemma_values_view, pairs_view, value_view,
    values_view, SpecValue,
};
use crate::{Error, Value};

verus! {

/// The model of the one visit a buffer's top-level shape selects.
pub enum SpecVisit {
    /// Visit a `()` value; a unit struct also replays as plain unit.
    Unit,
    /// Visit a boolean value.
    Bool(bool),
    /// Visit a signed integer value.
    I8(i8),
    /// Visit a signed integer value.
    I16(i16),
    /// Visit a signed integer value.
    I32(i32),
    /// Visit a signed integer value.
    I64(i64),
    /// Visit a signed integer value.
    I128(i128),
    /// Visit an unsigned integer value.
    U8(u8),
    /// Visit an unsigned integer value.
    U16(u16),
    /// Visit an unsigned integer value.
    U32(u32),
    /// Visit an unsigned integer value.
    U64(u64),
    /// Visit an unsigned integer value.
    U128(u128),
    /// Visit a 32-bit binary floating point value by its bit pattern.
    F32Bits(u32),
    /// Visit a 64-bit binary floating point value by its bit pattern.
    F64Bits(u64),
    /// Visit a single character value.
    Char(char),
    /// Visit an owned string, handed over by move.
    Str(Seq<char>),
    /// Visit a borrowed string.
    BorrowedStr(Seq<char>),
    /// Visit an owned byte-string, handed over by move.
    Bytes(Seq<u8>),
    /// Visit a borrowed byte-string.
    BorrowedBytes(Seq<u8>),
    /// Visit an absent optional value.
    OptNone,
    /// Visit a present optional value, its content replayed as a nested
    /// buffer.
    OptSome(SpecValue),
    /// Visit a newtype struct, its content replayed as a nested buffer.
    NewtypeStruct(SpecValue),
    /// Visit a sequence of values through the sequence cursor.
    SeqAccess(Seq<SpecValue>),
    /// Visit a struct's named fields through the field cursor.
    FieldAccess(Seq<(Seq<char>, SpecValue)>),
    /// Visit a map's entries through the map cursor.
    MapAccess(Seq<(SpecValue, SpecValue)>),
    /// Visit an enum variant through the enum dispatch.
    EnumAccess { variant_index: u32, variant: Seq<char>, payload: SpecPayload },
}

/// The model of a stored enum variant's payload.
pub enum SpecPayload {
    /// No payload, stored as unit, or a single wrapped value.
    Value(SpecValue),
    /// Unnamed fields in order.
    Tuple(Seq<SpecValue>),
    /// Named fields in order.
    Struct(Seq<(Seq<char>, SpecValue)>),
}

/// The one visit that replaying a buffer makes, by the buffer's top-level
/// shape.
///
/// The stored shape alone selects the visit: a unit struct replays as unit,
/// struct fields replay as a string-keyed map, tuples and tuple structs
/// replay as sequences, and each enum variant kind carries its payload into
/// the enum dispatch. Names of structs are not replayed; the variant index is
/// authoritative for enum dispatch and the variant name rides along.
pub open spec fn visit_of(v: SpecValue) -> SpecVisit {
    match v {
        SpecValue::Unit => SpecVisit::Unit,
        SpecValue::Bool(b) => SpecVisit::Bool(b),
        SpecValue::I8(n) => SpecVisit::I8(n),
        SpecValue::I16(n) => SpecVisit::I16(n),
        SpecValue::I32(n) => SpecVisit::I32(n),
        SpecValue::I64(n) => SpecVisit::I64(n),
        SpecValue::I128(n) => SpecVisit::I128(n),
        SpecValue::U8(n) => SpecVisit::U8(n),
        SpecValue::U16(n) => SpecVisit::U16(n),
        SpecValue::U32(n) => SpecVisit::U32(n),
        SpecValue::U64(n) => SpecVisit::U64(n),
        SpecValue::U128(n) => SpecVisit::U128(n),
        SpecValue::F32Bits(n) => SpecVisit::F32Bits(n),
        SpecValue::F64Bits(n) => SpecVisit::F64Bits(n),
        SpecValue::Char(c) => SpecVisit::Char(c),
        SpecValue::Str(s) => SpecVisit::Str(s),
        SpecValue::BorrowedStr(s) => SpecVisit::BorrowedStr(s),
        SpecValue::Bytes(b) => SpecVisit::Bytes(b),
        SpecValue::BorrowedBytes(b) => SpecVisit::BorrowedBytes(b),
        SpecValue::OptNone => SpecVisit::OptNone,
        SpecValue::OptSome(inner) => SpecVisit::OptSome(*inner),
        SpecValue::UnitStruct { name } => SpecVisit::Unit,
        SpecValue::NewtypeStruct { name, value } => SpecVisit::NewtypeStruct(*value),
        SpecValue::Struct { name, fields } => SpecVisit::FieldAccess(fields),
        SpecValue::Tuple(fields) => SpecVisit::SeqAccess(fields),
        SpecValue::TupleStruct { name, fields } => SpecVisit::SeqAccess(fields),
        SpecValue::UnitVariant { name, variant_index, variant } => SpecVisit::EnumAccess {
            variant_index,
            variant,
            payload: SpecPayload::Value(SpecValue::Unit),
        },
        SpecValue::NewtypeVariant { name, variant_index, variant, value } => {
            SpecVisit::EnumAccess { variant_index, variant, payload: SpecPayload::Value(*value) }
        },
        SpecValue::TupleVariant { name, variant_index, variant, fields } => {
            SpecVisit::EnumAccess { variant_index, variant, payload: SpecPayload::Tuple(fields) }
        },
        SpecValue::StructVariant { name, variant_index, variant, fields } => {
            SpecVisit::EnumAccess { variant_index, variant, payload: SpecPayload::Struct(fields) }
        },
        SpecValue::Sequence(fields) => SpecVisit::SeqAccess(fields),
        SpecValue::Mapping(fields) => SpecVisit::MapAccess(fields),
    }
}

/// A single-pass, finite, non-restartable cursor over a stored run of values.
#[derive(Debug)]
pub struct SeqCursor<'de> {
    fields: Vec<Value<'de>>,
}

impl<'de> View for SeqCursor<'de> {
    type V = Seq<SpecValue>;

    closed spec fn view(&self) -> Seq<SpecValue> {
        values_view(self.fields@)
    }
}

impl<'de> SeqCursor<'de> {
    /// Open a cursor over a run of values.
    pub fn new(fields: Vec<Value<'de>>) -> (c: Self)
        ensures
            c@ == values_view(fields@),
    {
        SeqCursor { fields }
    }

    /// Hand out the next element, or nothing once the run is exhausted.
    pub fn next_element(&mut self) -> (r: Option<Value<'de>>)
        ensures
            old(self)@.len() == 0 ==> (r is None && final(self)@ == old(self)@),
            old(self)@.len() > 0 ==> (r matches Some(v) && v@ == old(self)@[0] && final(self)@
                == old(self)@.subrange(1, old(self)@.len() as int)),
    {
        proof {
            lemma_values_view(self.fields@);
        }
        if self.fields.len() == 0 {
            None
        } else {
            let ghost prev = self.fields@;
            let v = self.fields.remove(0);
            proof {
                lemma_values_view(prev);
                lemma_values_view(self.fields@);
                assert(self.fields@ =~= prev.subrange(1, prev.len() as int));
                assert(values_view(self.fields@) =~= values_view(prev).subrange(
                    1,
                    values_view(prev).len() as int,
                ));
            }
            Some(v)
        }
    }
}

/// A cursor over a struct's named fields, driven strictly key-then-value.
#[derive(Debug)]
pub struct FieldCursor<'de> {
    remaining: Vec<(&'static str, Value<'de>)>,
    value: Option<Value<'de>>,
}

impl<'de> View for FieldCursor<'de> {
    type V = Seq<(Seq<char>, SpecValue)>;

    closed spec fn view(&self) -> Seq<(Seq<char>, SpecValue)> {
        fields_view(self.remaining@)
    }
}

impl<'de> FieldCursor<'de> {
    /// The value staged by the last key, still waiting to be asked for.
    pub closed spec fn staged(&self) -> Option<SpecValue> {
        match self.value {
            Some(v) => Some(value_view(v)),
            None => None,
        }
    }

    /// Open a cursor over a run of named fields.
    pub fn new(fields: Vec<(&'static str, Value<'de>)>) -> (c: Self)
        ensures
            c@ == fields_view(fields@),
            c.staged() is None,
    {
        FieldCursor { remaining: fields, value: None }
    }

    /// Hand out the next field's name and stage its value, or nothing once
    /// the run is exhausted.
    pub fn next_key(&mut self) -> (r: Option<&'static str>)
        ensures
            old(self)@.len() == 0 ==> (r is None && final(self)@ == old(self)@ && final(self).staged() == old(self).staged()),
            old(self)@.len() > 0 ==> (r matches Some(k) && k@ == old(self)@[0].0 && final(self).staged() == Some(old(self)@[0].1) && final(self)@ == old(self)@.subrange(
                1,
                old(self)@.len() as int,
            )),
    {
        proof {
            lemma_fields_view(self.remaining@);
        }
        if self.remaining.len() == 0 {
            None
        } else {
            let ghost prev = self.remaining@;
            let (k, v) = self.remaining.remove(0);
            self.value = Some(v);
            proof {
                lemma_fields_view(prev);
                lemma_fields_view(self.remaining@);
                assert(self.remaining@ =~= prev.subrange(1, prev.len() as int));
                assert(fields_view(self.remaining@) =~= fields_view(prev).subrange(
                    1,
                    fields_view(prev).len() as int,
                ));
            }
            Some(k)
        }
    }

    /// Hand out the value staged by the last key.
    ///
    /// Asking for a value with no staged key fails: the map value is missing.
    pub fn next_value(&mut self) -> (r: Result<Value<'de>, Error>)
        ensures
            old(self).staged() matches Some(v) ==> (r matches Ok(rv) && rv@ == v && final(self).staged() is None && final(self)@ == old(self)@),
            old(self).staged() is None ==> (r matches Err(e) && e@ == "missing map value"@
                && final(self).staged() is None && final(self)@ == old(self)@),
    {
        match self.value.take() {
            Some(v) => Ok(v),
            None => Err(Error::custom(("missing map value").to_owned())),
        }
    }
}

/// A cursor over a map's entries, driven strictly key-then-value per entry.
#[derive(Debug)]
pub struct MapCursor<'de> {
    remaining: Vec<(Value<'de>, Value<'de>)>,
    value: Option<Value<'de>>,
}

impl<'de> View for MapCursor<'de> {
    type V = Seq<(SpecValue, SpecValue)>;

    closed spec fn view(&self) -> Seq<(SpecValue, SpecValue)> {
        pairs_view(self.remaining@)
    }
}

impl<'de> MapCursor<'de> {
    /// The value staged by the last key, still waiting to be asked for.
    pub closed spec fn staged(&self) -> Option<SpecValue> {
        match self.value {
            Some(v) => Some(value_view(v)),
            None => None,
        }
    }

    /// Open a cursor over a run of map entries.
    pub fn new(fields: Vec<(Value<'de>, Value<'de>)>) -> (c: Self)
        ensures
            c@ == pairs_view(fields@),
            c.staged() is None,
    {
        MapCursor { remaining: fields, value: None }
    }

    /// Hand out the next entry's key and stage its value, or nothing once the
    /// run is exhausted.
    pub fn next_key(&mut self) -> (r: Option<Value<'de>>)
        ensures
            old(self)@.len() == 0 ==> (r is None && final(self)@ == old(self)@ && final(self).staged() == old(self).staged()),
            old(self)@.len() > 0 ==> (r matches Some(k) && k@ == old(self)@[0].0 && final(self).staged() == Some(old(self)@[0].1) && final(self)@ == old(self)@.subrange(
                1,
                old(self)@.len() as int,
            )),
    {
        proof {
            lemma_pairs_view(self.remaining@);
        }
        if self.remaining.len() == 0 {
            None
        } else {
            let ghost prev = self.remaining@;
            let (k, v) = self.remaining.remove(0);
            self.value = Some(v);
            proof {
                lemma_pairs_view(prev);
                lemma_pairs_view(self.remaining@);
                assert(self.remaining@ =~= prev.subrange(1, prev.len() as int));
                assert(pairs_view(self.remaining@) =~= pairs_view(prev).subrange(
                    1,
                    pairs_view(prev).len() as int,
                ));
            }
            Some(k)
        }
    }

    /// Hand out the value staged by the last key.
    ///
    /// Asking for a value with no staged key fails: the map value is missing.
    pub fn next_value(&mut self) -> (r: Result<Value<'de>, Error>)
        ensures
            old(self).staged() matches Some(v) ==> (r matches Ok(rv) && rv@ == v && final(self).staged() is None && final(self)@ == old(self)@),
            old(self).staged() is None ==> (r matches Err(e) && e@ == "missing map value"@
                && final(self).staged() is None && final(self)@ == old(self)@),
    {
        match self.value.take() {
            Some(v) => Ok(v),
            None => Err(Error::custom(("missing map value").to_owned())),
        }
    }
}

/// A stored enum variant's payload, as handed to the enum dispatch.
#[derive(Debug)]
pub enum VariantPayload<'de> {
    /// No payload, stored as unit, or a single wrapped value.
    Value(Value<'de>),
    /// Unnamed fields in order.
    Tuple(Vec<Value<'de>>),
    /// Named fields in order.
    Struct(Vec<(&'static str, Value<'de>)>),
}

/// The enum dispatch: first the stored variant index, then exactly one of the
/// payload entry points.
#[derive(Debug)]
pub struct EnumCursor<'de> {
    variant_index: u32,
    variant: &'static str,
    payload: VariantPayload<'de>,
}

impl<'de> EnumCursor<'de> {
    /// The stored 0-based variant index; decode dispatches on it.
    pub closed spec fn spec_variant_index(&self) -> u32 {
        self.variant_index
    }

    /// The stored variant name, diagnostic only.
    pub closed spec fn spec_variant(&self) -> Seq<char> {
        self.variant@
    }

    /// The stored payload.
    pub closed spec fn spec_payload(&self) -> SpecPayload {
        match self.payload {
            VariantPayload::Value(v) => SpecPayload::Value(value_view(v)),
            VariantPayload::Tuple(fs) => SpecPayload::Tuple(values_view(fs@)),
            VariantPayload::Struct(fs) => SpecPayload::Struct(fields_view(fs@)),
        }
    }

    /// Open the dispatch for one stored variant.
    pub fn new(variant_index: u32, variant: &'static str, payload: VariantPayload<'de>) -> (c:
        Self)
        ensures
            c.spec_variant_index() == variant_index,
            c.spec_variant() == variant@,
            (match payload {
                VariantPayload::Value(v) => c.spec_payload() == SpecPayload::Value(v@),
                VariantPayload::Tuple(fs) => c.spec_payload() == SpecPayload::Tuple(
                    values_view(fs@),
                ),
                VariantPayload::Struct(fs) => c.spec_payload() == SpecPayload::Struct(
                    fields_view(fs@),
                ),
            }),
    {
        EnumCursor { variant_index, variant, payload }
    }

    /// The variant index as a buffered value, for the consumer's own index
    /// decode.
    pub fn index_value(&self) -> (r: Value<'de>)
        ensures
            r@ == SpecValue::U32(self.spec_variant_index()),
    {
        Value::U32(self.variant_index)
    }

    /// Confirm a unit payload.
    ///
    /// Any other stored payload fails with the shape error naming the stored
    /// payload kind.
    pub fn unit_variant(self) -> (r: Result<(), Error>)
        ensures
            self.spec_payload() == SpecPayload::Value(SpecValue::Unit) ==> r matches Ok(()),
            (self.spec_payload() matches SpecPayload::Value(v) && v != SpecValue::Unit) ==> (
            r matches Err(e) && e@ == "invalid type: unit variant, expected newtype variant"@),
            self.spec_payload() matches SpecPayload::Tuple(fs) ==> (r matches Err(e) && e@
                == "invalid type: unit variant, expected tuple variant"@),
            self.spec_payload() matches SpecPayload::Struct(fs) ==> (r matches Err(e) && e@
                == "invalid type: unit variant, expected struct variant"@),
    {
        match self.payload {
            VariantPayload::Value(Value::Unit) => Ok(()),
            VariantPayload::Value(_) => Err(
                Error::custom(("invalid type: unit variant, expected newtype variant").to_owned()),
            ),
            VariantPayload::Tuple(_) => Err(
                Error::custom(("invalid type: unit variant, expected tuple variant").to_owned()),
            ),
            VariantPayload::Struct(_) => Err(
                Error::custom(("invalid type: unit variant, expected struct variant").to_owned()),
            ),
        }
    }

    /// Unwrap a newtype payload as a nested buffer.
    ///
    /// This entry point always succeeds: a tuple payload is reinterpreted on
    /// the fly as a tuple buffer and a named-field payload as a struct buffer
    /// named after the variant, so newtype decode can ride on tuple and
    /// struct decode.
    pub fn newtype_variant(self) -> (r: Value<'de>)
        ensures
            self.spec_payload() matches SpecPayload::Value(v) ==> r@ == v,
            self.spec_payload() matches SpecPayload::Tuple(fs) ==> r@ == SpecValue::Tuple(fs),
            self.spec_payload() matches SpecPayload::Struct(fs) ==> r@ == (SpecValue::Struct {
                name: self.spec_variant(),
                fields: fs,
            }),
    {
        match self.payload {
            VariantPayload::Value(v) => v,
            VariantPayload::Tuple(fs) => Value::Tuple(fs),
            VariantPayload::Struct(fs) => Value::Struct { name: self.variant, fields: fs },
        }
    }

    /// Open the sequence cursor over a tuple payload.
    ///
    /// Any other stored payload fails with the shape error naming the stored
    /// payload kind.
    pub fn tuple_variant(self) -> (r: Result<SeqCursor<'de>, Error>)
        ensures
            self.spec_payload() matches SpecPayload::Tuple(fs) ==> (r matches Ok(c) && c@ == fs),
            self.spec_payload() == SpecPayload::Value(SpecValue::Unit) ==> (r matches Err(e) && e@
                == "invalid type: unit variant, expected tuple variant"@),
            (self.spec_payload() matches SpecPayload::Value(v) && v != SpecValue::Unit) ==> (
            r matches Err(e) && e@ == "invalid type: newtype variant, expected tuple variant"@),
            self.spec_payload() matches SpecPayload::Struct(fs) ==> (r matches Err(e) && e@
                == "invalid type: struct variant, expected tuple variant"@),
    {
        match self.payload {
            VariantPayload::Tuple(fs) => Ok(SeqCursor::new(fs)),
            VariantPayload::Value(Value::Unit) => Err(
                Error::custom(("invalid type: unit variant, expected tuple variant").to_owned()),
            ),
            VariantPayload::Value(_) => Err(
                Error::custom(("invalid type: newtype variant, expected tuple variant").to_owned()),
            ),
            VariantPayload::Struct(_) => Err(
                Error::custom(("invalid type: struct variant, expected tuple variant").to_owned()),
            ),
        }
    }

    /// Open the field cursor over a named-field payload.
    ///
    /// Any other stored payload fails with the shape error naming the stored
    /// payload kind.
    pub fn struct_variant(self) -> (r: Result<FieldCursor<'de>, Error>)
        ensures
            self.spec_payload() matches SpecPayload::Struct(fs) ==> (r matches Ok(c) && c@ == fs
                && c.staged() is None),
            self.spec_payload() == SpecPayload::Value(SpecValue::Unit) ==> (r matches Err(e) && e@
                == "invalid type: unit variant, expected struct variant"@),
            (self.spec_payload() matches SpecPayload::Value(v) && v != SpecValue::Unit) ==> (
            r matches Err(e) && e@ == "invalid type: newtype variant, expected struct variant"@),
            self.spec_payload() matches SpecPayload::Tuple(fs) ==> (r matches Err(e) && e@
                == "invalid type: tuple variant, expected struct variant"@),
    {
        match self.payload {
            VariantPayload::Struct(fs) => Ok(FieldCursor::new(fs)),
            VariantPayload::Value(Value::Unit) => Err(
                Error::custom(("invalid type: unit variant, expected struct variant").to_owned()),
            ),
            VariantPayload::Value(_) => Err(
                Error::custom(
                    ("invalid type: newtype variant, expected struct variant").to_owned(),
                ),
            ),
            VariantPayload::Tuple(_) => Err(
                Error::custom(("invalid type: tuple variant, expected struct variant").to_owned()),
            ),
        }
    }
}

/// The one visit that replaying a buffer makes, carrying each payload in its
/// stored ownership form.
pub enum Visit<'de> {
    /// Visit a `()` value.
    Unit,
    /// Visit a boolean value.
    Bool(bool),
    /// Visit a signed integer value.
    I8(i8),
    /// Visit a signed integer value.
    I16(i16),
    /// Visit a signed integer value.
    I32(i32),
    /// Visit a signed integer value.
    I64(i64),
    /// Visit a signed integer value.
    I128(i128),
    /// Visit an unsigned integer value.
    U8(u8),
    /// Visit an unsigned integer value.
    U16(u16),
    /// Visit an unsigned integer value.
    U32(u32),
    /// Visit an unsigned integer value.
    U64(u64),
    /// Visit an unsigned integer value.
    U128(u128),
    /// Visit a 32-bit binary floating point value by its bit pattern.
    F32Bits(u32),
    /// Visit a 64-bit binary floating point value by its bit pattern.
    F64Bits(u64),
    /// Visit a single character value.
    Char(char),
    /// Visit an owned string, handed over by move.
    Str(String),
    /// Visit a borrowed string, zero-copy.
    BorrowedStr(&'de str),
    /// Visit an owned byte-string, handed over by move.
    Bytes(Vec<u8>),
    /// Visit a borrowed byte-string, zero-copy.
    BorrowedBytes(&'de [u8]),
    /// Visit an absent optional value.
    OptNone,
    /// Visit a present optional value, its content a nested buffer.
    OptSome(Box<Value<'de>>),
    /// Visit a newtype struct, its content a nested buffer.
    NewtypeStruct(Box<Value<'de>>),
    /// Visit a sequence through its cursor.
    SeqAccess(SeqCursor<'de>),
    /// Visit a struct's named fields through the field cursor.
    FieldAccess(FieldCursor<'de>),
    /// Visit a map's entries through the map cursor.
    MapAccess(MapCursor<'de>),
    /// Visit an enum variant through the enum dispatch.
    EnumAccess(EnumCursor<'de>),
}

impl<'de> View for Visit<'de> {
    type V = SpecVisit;

    open spec fn view(&self) -> SpecVisit {
        match self {
            Visit::Unit => SpecVisit::Unit,
            Visit::Bool(b) => SpecVisit::Bool(*b),
            Visit::I8(n) => SpecVisit::I8(*n),
            Visit::I16(n) => SpecVisit::I16(*n),
            Visit::I32(n) => SpecVisit::I32(*n),
            Visit::I64(n) => SpecVisit::I64(*n),
            Visit::I128(n) => SpecVisit::I128(*n),
            Visit::U8(n) => SpecVisit::U8(*n),
            Visit::U16(n) => SpecVisit::U16(*n),
            Visit::U32(n) => SpecVisit::U32(*n),
            Visit::U64(n) => SpecVisit::U64(*n),
            Visit::U128(n) => SpecVisit::U128(*n),
            Visit::F32Bits(n) => SpecVisit::F32Bits(*n),
            Visit::F64Bits(n) => SpecVisit::F64Bits(*n),
            Visit::Char(c) => SpecVisit::Char(*c),
            Visit::Str(s) => SpecVisit::Str(s@),
            Visit::BorrowedStr(s) => SpecVisit::BorrowedStr(s@),
            Visit::Bytes(b) => SpecVisit::Bytes(b@),
            Visit::BorrowedBytes(b) => SpecVisit::BorrowedBytes(b@),
            Visit::OptNone => SpecVisit::OptNone,
            Visit::OptSome(v) => SpecVisit::OptSome(value_view(**v)),
            Visit::NewtypeStruct(v) => SpecVisit::NewtypeStruct(value_view(**v)),
            Visit::SeqAccess(c) => SpecVisit::SeqAccess(c@),
            Visit::FieldAccess(c) => SpecVisit::FieldAccess(c@),
            Visit::MapAccess(c) => SpecVisit::MapAccess(c@),
            Visit::EnumAccess(c) => SpecVisit::EnumAccess {
                variant_index: c.spec_variant_index(),
                variant: c.spec_variant(),
                payload: c.spec_payload(),
            },
        }
    }
}

/// The replay adapter over one buffer.
///
/// Consuming it through [`Deserializer::into_visit`] yields the single visit
/// the stored shape selects.
pub struct Deserializer<'de>(pub Value<'de>);

impl<'de> View for Deserializer<'de> {
    type V = SpecValue;

    open spec fn view(&self) -> SpecValue {
        self.0@
    }
}

impl<'de> Deserializer<'de> {
    /// Open a replay over one stored value.
    pub fn new(v: Value<'de>) -> (d: Self)
        ensures
            d@ == v@,
    {
        Deserializer(v)
    }

    /// The one visit matching the buffer's top-level shape, with its stored
    /// payload.
    pub fn into_visit(self) -> (c: Visit<'de>)
        ensures
            c@ == visit_of(self@),
            c matches Visit::FieldAccess(fc) ==> fc.staged() is None,
            c matches Visit::MapAccess(mc) ==> mc.staged() is None,
    {
        match self.0 {
            Value::Unit => Visit::Unit,
            Value::Bool(b) => Visit::Bool(b),
            Value::I8(n) => Visit::I8(n),
            Value::I16(n) => Visit::I16(n),
            Value::I32(n) => Visit::I32(n),
            Value::I64(n) => Visit::I64(n),
            Value::I128(n) => Visit::I128(n),
            Value::U8(n) => Visit::U8(n),
            Value::U16(n) => Visit::U16(n),
            Value::U32(n) => Visit::U32(n),
            Value::U64(n) => Visit::U64(n),
            Value::U128(n) => Visit::U128(n),
            Value::F32Bits(n) => Visit::F32Bits(n),
            Value::F64Bits(n) => Visit::F64Bits(n),
            Value::Char(c) => Visit::Char(c),
            Value::Str(s) => Visit::Str(s),
            Value::BorrowedStr(s) => Visit::BorrowedStr(s),
            Value::Bytes(b) => Visit::Bytes(b),
            Value::BorrowedBytes(b) => Visit::BorrowedBytes(b),
            Value::OptNone => Visit::OptNone,
            Value::OptSome(v) => Visit::OptSome(v),
            Value::UnitStruct { name } => Visit::Unit,
            Value::NewtypeStruct { name, value } => Visit::NewtypeStruct(value),
            Value::Struct { name, fields } => Visit::FieldAccess(FieldCursor::new(fields)),
            Value::Tuple(fields) => Visit::SeqAccess(SeqCursor::new(fields)),
            Value::TupleStruct { name, fields } => Visit::SeqAccess(SeqCursor::new(fields)),
            Value::UnitVariant { name, variant_index, variant } => Visit::EnumAccess(
                EnumCursor::new(variant_index, variant, VariantPayload::Value(Value::Unit)),
            ),
            Value::NewtypeVariant { name, variant_index, variant, value } => Visit::EnumAccess(
                EnumCursor::new(variant_index, variant, VariantPayload::Value(*value)),
            ),
            Value::TupleVariant { name, variant_index, variant, fields } => Visit::EnumAccess(
                EnumCursor::new(variant_index, variant, VariantPayload::Tuple(fields)),
            ),
            Value::StructVariant { name, variant_index, variant, fields } => Visit::EnumAccess(
                EnumCursor::new(variant_index, variant, VariantPayload::Struct(fields)),
            ),
            Value::Sequence(fields) => Visit::SeqAccess(SeqCursor::new(fields)),
            Value::Mapping(fields) => Visit::MapAccess(MapCursor::new(fields)),
        }
    }
}

} // verus!
