//! Round trips through real protocol drivers: a value's own encoding, the
//! captured buffer's encoding, and typed decoding out of the buffer agree
//! call for call.
//!
//! The adapters here connect the library's capture builders, replay events
//! and cursors to the generic encoding and decoding protocol, so the traces
//! can be compared by an independent recording encoder.

use std::borrow::Cow;
use std::fmt;

use serde::de::{
    DeserializeSeed, EnumAccess, IntoDeserializer, MapAccess, SeqAccess, VariantAccess, Visitor,
};
use serde::ser::{
    SerializeMap, SerializeSeq, SerializeStruct, SerializeStructVariant, SerializeTuple,
    SerializeTupleStruct, SerializeTupleVariant,
};
use serde::{Deserialize, Serialize};
use serde_test::{assert_ser_tokens, Token};

use serde_buf::de as bde;
use serde_buf::de::Visit;
use serde_buf::ser as bser;
use serde_buf::{Error as BufError, Owned, Ref, Value};

#[derive(Debug)]
struct TestError(String);

impl fmt::Display for TestError {
    fn fmt(&self, f: &mut fmt::Formatter<'_>) -> fmt::Result {
        f.write_str(&self.0)
    }
}

impl std::error::Error for TestError {}

impl serde::ser::Error for TestError {
    fn custom<T: fmt::Display>(msg: T) -> Self {
        TestError(msg.to_string())
    }
}

impl serde::de::Error for TestError {
    fn custom<T: fmt::Display>(msg: T) -> Self {
        TestError(msg.to_string())
    }
}

fn lift(e: BufError) -> TestError {
    TestError(e.message().clone())
}

// ---------------------------------------------------------------------------
// Capture: a protocol encoder that answers every call through the library's
// constructors and builders, producing an owned buffer.
// ---------------------------------------------------------------------------

struct Capturer;

struct SeqB(bser::SerializeSeq);
struct TupleB(bser::SerializeTuple);
struct TupleStructB(bser::SerializeTupleStruct);
struct TupleVariantB(bser::SerializeTupleVariant);
struct MapB(bser::SerializeMap);
struct StructB(bser::SerializeStruct);
struct StructVariantB(bser::SerializeStructVariant);

impl serde::Serializer for Capturer {
    type Ok = Owned;
    type Error = TestError;
    type SerializeSeq = SeqB;
    type SerializeTuple = TupleB;
    type SerializeTupleStruct = TupleStructB;
    type SerializeTupleVariant = TupleVariantB;
    type SerializeMap = MapB;
    type SerializeStruct = StructB;
    type SerializeStructVariant = StructVariantB;

    fn serialize_bool(self, v: bool) -> Result<Owned, TestError> {
        Ok(Ref::bool(v).into())
    }

    fn serialize_i8(self, v: i8) -> Result<Owned, TestError> {
        Ok(Ref::i8(v).into())
    }

    fn serialize_i16(self, v: i16) -> Result<Owned, TestError> {
        Ok(Ref::i16(v).into())
    }

    fn serialize_i32(self, v: i32) -> Result<Owned, TestError> {
        Ok(Ref::i32(v).into())
    }

    fn serialize_i64(self, v: i64) -> Result<Owned, TestError> {
        Ok(Ref::i64(v).into())
    }

    fn serialize_i128(self, v: i128) -> Result<Owned, TestError> {
        Ok(Ref::i128(v).into())
    }

    fn serialize_u8(self, v: u8) -> Result<Owned, TestError> {
        Ok(Ref::u8(v).into())
    }

    fn serialize_u16(self, v: u16) -> Result<Owned, TestError> {
        Ok(Ref::u16(v).into())
    }

    fn serialize_u32(self, v: u32) -> Result<Owned, TestError> {
        Ok(Ref::u32(v).into())
    }

    fn serialize_u64(self, v: u64) -> Result<Owned, TestError> {
        Ok(Ref::u64(v).into())
    }

    fn serialize_u128(self, v: u128) -> Result<Owned, TestError> {
        Ok(Ref::u128(v).into())
    }

    fn serialize_f32(self, v: f32) -> Result<Owned, TestError> {
        Ok(Ref::f32_bits(v.to_bits()).into())
    }

    fn serialize_f64(self, v: f64) -> Result<Owned, TestError> {
        Ok(Ref::f64_bits(v.to_bits()).into())
    }

    fn serialize_char(self, v: char) -> Result<Owned, TestError> {
        Ok(Ref::char(v).into())
    }

    fn serialize_str(self, v: &str) -> Result<Owned, TestError> {
        Ok(Ref::owned_str(v.to_owned()).into())
    }

    fn serialize_bytes(self, v: &[u8]) -> Result<Owned, TestError> {
        Ok(Ref::owned_bytes(v.to_vec()).into())
    }

    fn serialize_none(self) -> Result<Owned, TestError> {
        Ok(Ref::none().into())
    }

    fn serialize_some<T: ?Sized + Serialize>(self, value: &T) -> Result<Owned, TestError> {
        let inner = value.serialize(Capturer)?;
        Ok(Owned(Value::OptSome(Box::new(inner.0))))
    }

    fn serialize_unit(self) -> Result<Owned, TestError> {
        Ok(Ref::unit().into())
    }

    fn serialize_unit_struct(self, name: &'static str) -> Result<Owned, TestError> {
        Ok(Ref::unit_struct(name).into())
    }

    fn serialize_unit_variant(
        self,
        name: &'static str,
        variant_index: u32,
        variant: &'static str,
    ) -> Result<Owned, TestError> {
        Ok(Ref::unit_variant(name, variant_index, variant).into())
    }

    fn serialize_newtype_struct<T: ?Sized + Serialize>(
        self,
        name: &'static str,
        value: &T,
    ) -> Result<Owned, TestError> {
        let inner = value.serialize(Capturer)?;
        Ok(Owned(Value::NewtypeStruct { name, value: Box::new(inner.0) }))
    }

    fn serialize_newtype_variant<T: ?Sized + Serialize>(
        self,
        name: &'static str,
        variant_index: u32,
        variant: &'static str,
        value: &T,
    ) -> Result<Owned, TestError> {
        let inner = value.serialize(Capturer)?;
        Ok(Owned(Value::NewtypeVariant {
            name,
            variant_index,
            variant,
            value: Box::new(inner.0),
        }))
    }

    fn serialize_seq(self, len: Option<usize>) -> Result<SeqB, TestError> {
        Ok(SeqB(bser::SerializeSeq::new(len)))
    }

    fn serialize_tuple(self, len: usize) -> Result<TupleB, TestError> {
        Ok(TupleB(bser::SerializeTuple::new(len)))
    }

    fn serialize_tuple_struct(
        self,
        name: &'static str,
        len: usize,
    ) -> Result<TupleStructB, TestError> {
        Ok(TupleStructB(bser::SerializeTupleStruct::new(name, len)))
    }

    fn serialize_tuple_variant(
        self,
        name: &'static str,
        variant_index: u32,
        variant: &'static str,
        len: usize,
    ) -> Result<TupleVariantB, TestError> {
        Ok(TupleVariantB(bser::SerializeTupleVariant::new(name, variant_index, variant, len)))
    }

    fn serialize_map(self, len: Option<usize>) -> Result<MapB, TestError> {
        Ok(MapB(bser::SerializeMap::new(len)))
    }

    fn serialize_struct(self, name: &'static str, len: usize) -> Result<StructB, TestError> {
        Ok(StructB(bser::SerializeStruct::new(name, len)))
    }

    fn serialize_struct_variant(
        self,
        name: &'static str,
        variant_index: u32,
        variant: &'static str,
        len: usize,
    ) -> Result<StructVariantB, TestError> {
        Ok(StructVariantB(bser::SerializeStructVariant::new(name, variant_index, variant, len)))
    }
}

impl SerializeSeq for SeqB {
    type Ok = Owned;
    type Error = TestError;

    fn serialize_element<T: ?Sized + Serialize>(&mut self, value: &T) -> Result<(), TestError> {
        self.0.serialize_element(value.serialize(Capturer)?);
        Ok(())
    }

    fn end(self) -> Result<Owned, TestError> {
        Ok(self.0.end())
    }
}

impl SerializeTuple for TupleB {
    type Ok = Owned;
    type Error = TestError;

    fn serialize_element<T: ?Sized + Serialize>(&mut self, value: &T) -> Result<(), TestError> {
        self.0.serialize_element(value.serialize(Capturer)?);
        Ok(())
    }

    fn end(self) -> Result<Owned, TestError> {
        Ok(self.0.end())
    }
}

impl SerializeTupleStruct for TupleStructB {
    type Ok = Owned;
    type Error = TestError;

    fn serialize_field<T: ?Sized + Serialize>(&mut self, value: &T) -> Result<(), TestError> {
        self.0.serialize_field(value.serialize(Capturer)?);
        Ok(())
    }

    fn end(self) -> Result<Owned, TestError> {
        Ok(self.0.end())
    }
}

impl SerializeTupleVariant for TupleVariantB {
    type Ok = Owned;
    type Error = TestError;

    fn serialize_field<T: ?Sized + Serialize>(&mut self, value: &T) -> Result<(), TestError> {
        self.0.serialize_field(value.serialize(Capturer)?);
        Ok(())
    }

    fn end(self) -> Result<Owned, TestError> {
        Ok(self.0.end())
    }
}

impl SerializeMap for MapB {
    type Ok = Owned;
    type Error = TestError;

    fn serialize_key<T: ?Sized + Serialize>(&mut self, key: &T) -> Result<(), TestError> {
        self.0.serialize_key(key.serialize(Capturer)?).map_err(lift)
    }

    fn serialize_value<T: ?Sized + Serialize>(&mut self, value: &T) -> Result<(), TestError> {
        self.0.serialize_value(value.serialize(Capturer)?).map_err(lift)
    }

    fn serialize_entry<K: ?Sized + Serialize, V: ?Sized + Serialize>(
        &mut self,
        key: &K,
        value: &V,
    ) -> Result<(), TestError> {
        self.0
            .serialize_entry(key.serialize(Capturer)?, value.serialize(Capturer)?)
            .map_err(lift)
    }

    fn end(self) -> Result<Owned, TestError> {
        self.0.end().map_err(lift)
    }
}

impl SerializeStruct for StructB {
    type Ok = Owned;
    type Error = TestError;

    fn serialize_field<T: ?Sized + Serialize>(
        &mut self,
        key: &'static str,
        value: &T,
    ) -> Result<(), TestError> {
        self.0.serialize_field(key, value.serialize(Capturer)?);
        Ok(())
    }

    fn end(self) -> Result<Owned, TestError> {
        Ok(self.0.end())
    }
}

impl SerializeStructVariant for StructVariantB {
    type Ok = Owned;
    type Error = TestError;

    fn serialize_field<T: ?Sized + Serialize>(
        &mut self,
        key: &'static str,
        value: &T,
    ) -> Result<(), TestError> {
        self.0.serialize_field(key, value.serialize(Capturer)?);
        Ok(())
    }

    fn end(self) -> Result<Owned, TestError> {
        Ok(self.0.end())
    }
}

fn capture<T: Serialize>(value: &T) -> Owned {
    value.serialize(Capturer).unwrap()
}

// ---------------------------------------------------------------------------
// Replay: a buffer driven through any protocol encoder.
// ---------------------------------------------------------------------------

struct Replay<'a, 'v>(&'a Value<'v>);

impl Serialize for Replay<'_, '_> {
    fn serialize<S: serde::Serializer>(&self, serializer: S) -> Result<S::Ok, S::Error> {
        match self.0 {
            Value::Unit => serializer.serialize_unit(),
            Value::Bool(v) => serializer.serialize_bool(*v),
            Value::I8(v) => serializer.serialize_i8(*v),
            Value::I16(v) => serializer.serialize_i16(*v),
            Value::I32(v) => serializer.serialize_i32(*v),
            Value::I64(v) => serializer.serialize_i64(*v),
            Value::I128(v) => serializer.serialize_i128(*v),
            Value::U8(v) => serializer.serialize_u8(*v),
            Value::U16(v) => serializer.serialize_u16(*v),
            Value::U32(v) => serializer.serialize_u32(*v),
            Value::U64(v) => serializer.serialize_u64(*v),
            Value::U128(v) => serializer.serialize_u128(*v),
            Value::F32Bits(v) => serializer.serialize_f32(f32::from_bits(*v)),
            Value::F64Bits(v) => serializer.serialize_f64(f64::from_bits(*v)),
            Value::Char(v) => serializer.serialize_char(*v),
            Value::Str(v) => serializer.serialize_str(v),
            Value::BorrowedStr(v) => serializer.serialize_str(v),
            Value::Bytes(v) => serializer.serialize_bytes(v),
            Value::BorrowedBytes(v) => serializer.serialize_bytes(v),
            Value::OptNone => serializer.serialize_none(),
            Value::OptSome(v) => serializer.serialize_some(&Replay(v)),
            Value::UnitStruct { name } => serializer.serialize_unit_struct(name),
            Value::NewtypeStruct { name, value } => {
                serializer.serialize_newtype_struct(name, &Replay(value))
            }
            Value::Struct { name, fields } => {
                let mut s = serializer.serialize_struct(name, fields.len())?;
                for (key, field) in fields {
                    s.serialize_field(key, &Replay(field))?;
                }
                s.end()
            }
            Value::Tuple(fields) => {
                let mut s = serializer.serialize_tuple(fields.len())?;
                for field in fields {
                    s.serialize_element(&Replay(field))?;
                }
                s.end()
            }
            Value::TupleStruct { name, fields } => {
                let mut s = serializer.serialize_tuple_struct(name, fields.len())?;
                for field in fields {
                    s.serialize_field(&Replay(field))?;
                }
                s.end()
            }
            Value::UnitVariant { name, variant_index, variant } => {
                serializer.serialize_unit_variant(name, *variant_index, variant)
            }
            Value::NewtypeVariant { name, variant_index, variant, value } => {
                serializer.serialize_newtype_variant(name, *variant_index, variant, &Replay(value))
            }
            Value::TupleVariant { name, variant_index, variant, fields } => {
                let mut s = serializer.serialize_tuple_variant(
                    name,
                    *variant_index,
                    variant,
                    fields.len(),
                )?;
                for field in fields {
                    s.serialize_field(&Replay(field))?;
                }
                s.end()
            }
            Value::StructVariant { name, variant_index, variant, fields } => {
                let mut s = serializer.serialize_struct_variant(
                    name,
                    *variant_index,
                    variant,
                    fields.len(),
                )?;
                for (key, field) in fields {
                    s.serialize_field(key, &Replay(field))?;
                }
                s.end()
            }
            Value::Sequence(fields) => {
                let mut s = serializer.serialize_seq(Some(fields.len()))?;
                for field in fields {
                    s.serialize_element(&Replay(field))?;
                }
                s.end()
            }
            Value::Mapping(fields) => {
                let mut s = serializer.serialize_map(Some(fields.len()))?;
                for (key, value) in fields {
                    s.serialize_entry(&Replay(key), &Replay(value))?;
                }
                s.end()
            }
        }
    }
}

// ---------------------------------------------------------------------------
// Decode: a buffer driven through any visitor, shape by stored shape.
// ---------------------------------------------------------------------------

struct De<'de>(Value<'de>);

impl<'de> serde::Deserializer<'de> for De<'de> {
    type Error = TestError;

    fn deserialize_any<V: Visitor<'de>>(self, visitor: V) -> Result<V::Value, TestError> {
        match bde::Deserializer::new(self.0).into_visit() {
            Visit::Unit => visitor.visit_unit(),
            Visit::Bool(v) => visitor.visit_bool(v),
            Visit::I8(v) => visitor.visit_i8(v),
            Visit::I16(v) => visitor.visit_i16(v),
            Visit::I32(v) => visitor.visit_i32(v),
            Visit::I64(v) => visitor.visit_i64(v),
            Visit::I128(v) => visitor.visit_i128(v),
            Visit::U8(v) => visitor.visit_u8(v),
            Visit::U16(v) => visitor.visit_u16(v),
            Visit::U32(v) => visitor.visit_u32(v),
            Visit::U64(v) => visitor.visit_u64(v),
            Visit::U128(v) => visitor.visit_u128(v),
            Visit::F32Bits(v) => visitor.visit_f32(f32::from_bits(v)),
            Visit::F64Bits(v) => visitor.visit_f64(f64::from_bits(v)),
            Visit::Char(v) => visitor.visit_char(v),
            Visit::Str(v) => visitor.visit_string(v),
            Visit::BorrowedStr(v) => visitor.visit_borrowed_str(v),
            Visit::Bytes(v) => visitor.visit_byte_buf(v),
            Visit::BorrowedBytes(v) => visitor.visit_borrowed_bytes(v),
            Visit::OptNone => visitor.visit_none(),
            Visit::OptSome(v) => visitor.visit_some(De(*v)),
            Visit::NewtypeStruct(v) => visitor.visit_newtype_struct(De(*v)),
            Visit::SeqAccess(c) => visitor.visit_seq(SeqAcc(c)),
            Visit::FieldAccess(c) => visitor.visit_map(FieldAcc(c)),
            Visit::MapAccess(c) => visitor.visit_map(MapAcc(c)),
            Visit::EnumAccess(c) => visitor.visit_enum(EnumAcc(c)),
        }
    }

    fn deserialize_bool<V: Visitor<'de>>(self, visitor: V) -> Result<V::Value, TestError> {
        self.deserialize_any(visitor)
    }

    fn deserialize_i8<V: Visitor<'de>>(self, visitor: V) -> Result<V::Value, TestError> {
        self.deserialize_any(visitor)
    }

    fn deserialize_i16<V: Visitor<'de>>(self, visitor: V) -> Result<V::Value, TestError> {
        self.deserialize_any(visitor)
    }

    fn deserialize_i32<V: Visitor<'de>>(self, visitor: V) -> Result<V::Value, TestError> {
        self.deserialize_any(visitor)
    }

    fn deserialize_i64<V: Visitor<'de>>(self, visitor: V) -> Result<V::Value, TestError> {
        self.deserialize_any(visitor)
    }

    fn deserialize_i128<V: Visitor<'de>>(self, visitor: V) -> Result<V::Value, TestError> {
        self.deserialize_any(visitor)
    }

    fn deserialize_u8<V: Visitor<'de>>(self, visitor: V) -> Result<V::Value, TestError> {
        self.deserialize_any(visitor)
    }

    fn deserialize_u16<V: Visitor<'de>>(self, visitor: V) -> Result<V::Value, TestError> {
        self.deserialize_any(visitor)
    }

    fn deserialize_u32<V: Visitor<'de>>(self, visitor: V) -> Result<V::Value, TestError> {
        self.deserialize_any(visitor)
    }

    fn deserialize_u64<V: Visitor<'de>>(self, visitor: V) -> Result<V::Value, TestError> {
        self.deserialize_any(visitor)
    }

    fn deserialize_u128<V: Visitor<'de>>(self, visitor: V) -> Result<V::Value, TestError> {
        self.deserialize_any(visitor)
    }

    fn deserialize_f32<V: Visitor<'de>>(self, visitor: V) -> Result<V::Value, TestError> {
        self.deserialize_any(visitor)
    }

    fn deserialize_f64<V: Visitor<'de>>(self, visitor: V) -> Result<V::Value, TestError> {
        self.deserialize_any(visitor)
    }

    fn deserialize_char<V: Visitor<'de>>(self, visitor: V) -> Result<V::Value, TestError> {
        self.deserialize_any(visitor)
    }

    fn deserialize_str<V: Visitor<'de>>(self, visitor: V) -> Result<V::Value, TestError> {
        self.deserialize_any(visitor)
    }

    fn deserialize_string<V: Visitor<'de>>(self, visitor: V) -> Result<V::Value, TestError> {
        self.deserialize_any(visitor)
    }

    fn deserialize_bytes<V: Visitor<'de>>(self, visitor: V) -> Result<V::Value, TestError> {
        self.deserialize_any(visitor)
    }

    fn deserialize_byte_buf<V: Visitor<'de>>(self, visitor: V) -> Result<V::Value, TestError> {
        self.deserialize_any(visitor)
    }

    fn deserialize_option<V: Visitor<'de>>(self, visitor: V) -> Result<V::Value, TestError> {
        self.deserialize_any(visitor)
    }

    fn deserialize_unit<V: Visitor<'de>>(self, visitor: V) -> Result<V::Value, TestError> {
        self.deserialize_any(visitor)
    }

    fn deserialize_unit_struct<V: Visitor<'de>>(
        self,
        _name: &'static str,
        visitor: V,
    ) -> Result<V::Value, TestError> {
        self.deserialize_any(visitor)
    }

    fn deserialize_newtype_struct<V: Visitor<'de>>(
        self,
        _name: &'static str,
        visitor: V,
    ) -> Result<V::Value, TestError> {
        self.deserialize_any(visitor)
    }

    fn deserialize_seq<V: Visitor<'de>>(self, visitor: V) -> Result<V::Value, TestError> {
        self.deserialize_any(visitor)
    }

    fn deserialize_tuple<V: Visitor<'de>>(
        self,
        _len: usize,
        visitor: V,
    ) -> Result<V::Value, TestError> {
        self.deserialize_any(visitor)
    }

    fn deserialize_tuple_struct<V: Visitor<'de>>(
        self,
        _name: &'static str,
        _len: usize,
        visitor: V,
    ) -> Result<V::Value, TestError> {
        self.deserialize_any(visitor)
    }

    fn deserialize_map<V: Visitor<'de>>(self, visitor: V) -> Result<V::Value, TestError> {
        self.deserialize_any(visitor)
    }

    fn deserialize_struct<V: Visitor<'de>>(
        self,
        _name: &'static str,
        _fields: &'static [&'static str],
        visitor: V,
    ) -> Result<V::Value, TestError> {
        self.deserialize_any(visitor)
    }

    fn deserialize_enum<V: Visitor<'de>>(
        self,
        _name: &'static str,
        _variants: &'static [&'static str],
        visitor: V,
    ) -> Result<V::Value, TestError> {
        self.deserialize_any(visitor)
    }

    fn deserialize_identifier<V: Visitor<'de>>(self, visitor: V) -> Result<V::Value, TestError> {
        self.deserialize_any(visitor)
    }

    fn deserialize_ignored_any<V: Visitor<'de>>(self, visitor: V) -> Result<V::Value, TestError> {
        self.deserialize_any(visitor)
    }
}

struct SeqAcc<'de>(bde::SeqCursor<'de>);

impl<'de> SeqAccess<'de> for SeqAcc<'de> {
    type Error = TestError;

    fn next_element_seed<T: DeserializeSeed<'de>>(
        &mut self,
        seed: T,
    ) -> Result<Option<T::Value>, TestError> {
        match self.0.next_element() {
            Some(v) => seed.deserialize(De(v)).map(Some),
            None => Ok(None),
        }
    }
}

struct FieldAcc<'de>(bde::FieldCursor<'de>);

impl<'de> MapAccess<'de> for FieldAcc<'de> {
    type Error = TestError;

    fn next_key_seed<K: DeserializeSeed<'de>>(
        &mut self,
        seed: K,
    ) -> Result<Option<K::Value>, TestError> {
        match self.0.next_key() {
            Some(k) => seed
                .deserialize(serde::de::value::BorrowedStrDeserializer::new(k))
                .map(Some),
            None => Ok(None),
        }
    }

    fn next_value_seed<V: DeserializeSeed<'de>>(&mut self, seed: V) -> Result<V::Value, TestError> {
        seed.deserialize(De(self.0.next_value().map_err(lift)?))
    }
}

struct MapAcc<'de>(bde::MapCursor<'de>);

impl<'de> MapAccess<'de> for MapAcc<'de> {
    type Error = TestError;

    fn next_key_seed<K: DeserializeSeed<'de>>(
        &mut self,
        seed: K,
    ) -> Result<Option<K::Value>, TestError> {
        match self.0.next_key() {
            Some(k) => seed.deserialize(De(k)).map(Some),
            None => Ok(None),
        }
    }

    fn next_value_seed<V: DeserializeSeed<'de>>(&mut self, seed: V) -> Result<V::Value, TestError> {
        seed.deserialize(De(self.0.next_value().map_err(lift)?))
    }
}

struct EnumAcc<'de>(bde::EnumCursor<'de>);

impl<'de> EnumAccess<'de> for EnumAcc<'de> {
    type Error = TestError;
    type Variant = VarAcc<'de>;

    fn variant_seed<V: DeserializeSeed<'de>>(
        self,
        seed: V,
    ) -> Result<(V::Value, VarAcc<'de>), TestError> {
        let index = self.0.index_value();
        Ok((seed.deserialize(De(index))?, VarAcc(self.0)))
    }
}

struct VarAcc<'de>(bde::EnumCursor<'de>);

impl<'de> VariantAccess<'de> for VarAcc<'de> {
    type Error = TestError;

    fn unit_variant(self) -> Result<(), TestError> {
        self.0.unit_variant().map_err(lift)
    }

    fn newtype_variant_seed<T: DeserializeSeed<'de>>(self, seed: T) -> Result<T::Value, TestError> {
        seed.deserialize(De(self.0.newtype_variant()))
    }

    fn tuple_variant<V: Visitor<'de>>(self, _len: usize, visitor: V) -> Result<V::Value, TestError> {
        visitor.visit_seq(SeqAcc(self.0.tuple_variant().map_err(lift)?))
    }

    fn struct_variant<V: Visitor<'de>>(
        self,
        _fields: &'static [&'static str],
        visitor: V,
    ) -> Result<V::Value, TestError> {
        visitor.visit_map(FieldAcc(self.0.struct_variant().map_err(lift)?))
    }
}

fn decode<'de, T: Deserialize<'de>>(v: Value<'de>) -> T {
    T::deserialize(De(v)).unwrap()
}

// ---------------------------------------------------------------------------
// Test types, with their protocol impls written out.
// ---------------------------------------------------------------------------

#[derive(Debug, PartialEq, Clone)]
struct TwoFields {
    a: u8,
    b: bool,
}

impl Serialize for TwoFields {
    fn serialize<S: serde::Serializer>(&self, serializer: S) -> Result<S::Ok, S::Error> {
        let mut s = serializer.serialize_struct("TwoFields", 2)?;
        s.serialize_field("a", &self.a)?;
        s.serialize_field("b", &self.b)?;
        s.end()
    }
}

struct TwoFieldsVisitor;

impl<'de> Visitor<'de> for TwoFieldsVisitor {
    type Value = TwoFields;

    fn expecting(&self, formatter: &mut fmt::Formatter<'_>) -> fmt::Result {
        formatter.write_str("a struct with fields a and b")
    }

    fn visit_map<A: MapAccess<'de>>(self, mut map: A) -> Result<TwoFields, A::Error> {
        let mut a: Option<u8> = None;
        let mut b: Option<bool> = None;
        while let Some(key) = map.next_key::<&str>()? {
            match key {
                "a" => a = Some(map.next_value()?),
                "b" => b = Some(map.next_value()?),
                _ => return Err(serde::de::Error::custom("unknown field")),
            }
        }
        match (a, b) {
            (Some(a), Some(b)) => Ok(TwoFields { a, b }),
            _ => Err(serde::de::Error::custom("missing field")),
        }
    }
}

impl<'de> Deserialize<'de> for TwoFields {
    fn deserialize<D: serde::Deserializer<'de>>(deserializer: D) -> Result<Self, D::Error> {
        deserializer.deserialize_struct("TwoFields", &["a", "b"], TwoFieldsVisitor)
    }
}

#[derive(Debug, PartialEq, Clone)]
enum Shape {
    Unit,
    Newtype(u8),
    Pair(u8, u8),
    Named { a: u8 },
}

impl Serialize for Shape {
    fn serialize<S: serde::Serializer>(&self, serializer: S) -> Result<S::Ok, S::Error> {
        match self {
            Shape::Unit => serializer.serialize_unit_variant("Shape", 0, "Unit"),
            Shape::Newtype(v) => serializer.serialize_newtype_variant("Shape", 1, "Newtype", v),
            Shape::Pair(x, y) => {
                let mut s = serializer.serialize_tuple_variant("Shape", 2, "Pair", 2)?;
                s.serialize_field(x)?;
                s.serialize_field(y)?;
                s.end()
            }
            Shape::Named { a } => {
                let mut s = serializer.serialize_struct_variant("Shape", 3, "Named", 1)?;
                s.serialize_field("a", a)?;
                s.end()
            }
        }
    }
}

struct PairVisitor;

impl<'de> Visitor<'de> for PairVisitor {
    type Value = (u8, u8);

    fn expecting(&self, formatter: &mut fmt::Formatter<'_>) -> fmt::Result {
        formatter.write_str("two unsigned bytes")
    }

    fn visit_seq<A: SeqAccess<'de>>(self, mut seq: A) -> Result<(u8, u8), A::Error> {
        let x = seq
            .next_element()?
            .ok_or_else(|| serde::de::Error::custom("missing element"))?;
        let y = seq
            .next_element()?
            .ok_or_else(|| serde::de::Error::custom("missing element"))?;
        Ok((x, y))
    }
}

struct NamedVisitor;

impl<'de> Visitor<'de> for NamedVisitor {
    type Value = u8;

    fn expecting(&self, formatter: &mut fmt::Formatter<'_>) -> fmt::Result {
        formatter.write_str("a struct with field a")
    }

    fn visit_map<A: MapAccess<'de>>(self, mut map: A) -> Result<u8, A::Error> {
        let mut a: Option<u8> = None;
        while let Some(key) = map.next_key::<&str>()? {
            match key {
                "a" => a = Some(map.next_value()?),
                _ => return Err(serde::de::Error::custom("unknown field")),
            }
        }
        a.ok_or_else(|| serde::de::Error::custom("missing field"))
    }
}

struct ShapeVisitor;

impl<'de> Visitor<'de> for ShapeVisitor {
    type Value = Shape;

    fn expecting(&self, formatter: &mut fmt::Formatter<'_>) -> fmt::Result {
        formatter.write_str("a Shape variant")
    }

    fn visit_enum<A: EnumAccess<'de>>(self, data: A) -> Result<Shape, A::Error> {
        let (index, variant) = data.variant::<u32>()?;
        match index {
            0 => {
                variant.unit_variant()?;
                Ok(Shape::Unit)
            }
            1 => Ok(Shape::Newtype(variant.newtype_variant()?)),
            2 => {
                let (x, y) = variant.tuple_variant(2, PairVisitor)?;
                Ok(Shape::Pair(x, y))
            }
            3 => Ok(Shape::Named { a: variant.struct_variant(&["a"], NamedVisitor)? }),
            _ => Err(serde::de::Error::custom("unknown variant index")),
        }
    }
}

impl<'de> Deserialize<'de> for Shape {
    fn deserialize<D: serde::Deserializer<'de>>(deserializer: D) -> Result<Self, D::Error> {
        deserializer.deserialize_enum("Shape", &["Unit", "Newtype", "Pair", "Named"], ShapeVisitor)
    }
}

#[derive(Debug, PartialEq, Clone)]
struct Text<'a>(Cow<'a, str>);

impl Serialize for Text<'_> {
    fn serialize<S: serde::Serializer>(&self, serializer: S) -> Result<S::Ok, S::Error> {
        serializer.serialize_str(&self.0)
    }
}

struct TextVisitor;

impl<'de> Visitor<'de> for TextVisitor {
    type Value = Cow<'de, str>;

    fn expecting(&self, formatter: &mut fmt::Formatter<'_>) -> fmt::Result {
        formatter.write_str("a string")
    }

    fn visit_str<E: serde::de::Error>(self, v: &str) -> Result<Cow<'de, str>, E> {
        Ok(Cow::Owned(v.to_owned()))
    }

    fn visit_string<E: serde::de::Error>(self, v: String) -> Result<Cow<'de, str>, E> {
        Ok(Cow::Owned(v))
    }

    fn visit_borrowed_str<E: serde::de::Error>(self, v: &'de str) -> Result<Cow<'de, str>, E> {
        Ok(Cow::Borrowed(v))
    }
}

impl<'de> Deserialize<'de> for Text<'de> {
    fn deserialize<D: serde::Deserializer<'de>>(deserializer: D) -> Result<Self, D::Error> {
        Ok(Text(deserializer.deserialize_str(TextVisitor)?))
    }
}

// ---------------------------------------------------------------------------
// The round trips.
// ---------------------------------------------------------------------------

fn round_trip<'de, T>(value: T, tokens: &'static [Token])
where
    T: Serialize + Deserialize<'de> + PartialEq + fmt::Debug + Clone,
{
    // The original value and its captured buffer encode to the same trace.
    assert_ser_tokens(&value, tokens);
    let captured = capture(&value);
    assert_ser_tokens(&Replay(&captured.0), tokens);

    // Decoding the capture reproduces the value.
    let decoded: T = decode(captured.0);
    assert_eq!(decoded, value);
}

#[test]
fn scalars_round_trip() {
    round_trip((), &[Token::Unit]);
    round_trip(true, &[Token::Bool(true)]);
    round_trip('a', &[Token::Char('a')]);
    round_trip(1u8, &[Token::U8(1)]);
    round_trip(1u16, &[Token::U16(1)]);
    round_trip(1u32, &[Token::U32(1)]);
    round_trip(1u64, &[Token::U64(1)]);
    round_trip(-1i8, &[Token::I8(-1)]);
    round_trip(-1i16, &[Token::I16(-1)]);
    round_trip(-1i32, &[Token::I32(-1)]);
    round_trip(-1i64, &[Token::I64(-1)]);
    round_trip(1f32, &[Token::F32(1.0)]);
    round_trip(1f64, &[Token::F64(1.0)]);
}

#[test]
fn wide_integers_round_trip() {
    let captured = capture(&1u128);
    assert_eq!(captured.0, Value::U128(1));
    assert_eq!(decode::<u128>(captured.0), 1u128);

    let captured = capture(&-1i128);
    assert_eq!(captured.0, Value::I128(-1));
    assert_eq!(decode::<i128>(captured.0), -1i128);
}

#[test]
fn option_round_trip() {
    // Capturing `Some(42u8)` yields `Some` around the stored byte, and an
    // optional-byte target decodes it back to `Some(42)`.
    let captured = capture(&Some(42u8));
    assert_eq!(captured.0, Value::OptSome(Box::new(Value::U8(42))));
    assert_eq!(decode::<Option<u8>>(captured.0), Some(42));

    round_trip(None::<u8>, &[Token::None]);
    round_trip(Some(42u8), &[Token::Some, Token::U8(42)]);
}

#[test]
fn strings_round_trip() {
    round_trip("a string".to_owned(), &[Token::Str("a string")]);
    round_trip(Text(Cow::Owned("a string".to_owned())), &[Token::Str("a string")]);
}

#[test]
fn borrowed_string_decodes_without_copy() {
    // A borrowed string built through the explicit constructor decodes into a
    // borrowing target: the visitor's borrowed-string path is taken and the
    // decoded text aliases the original storage.
    let text = String::from("zero copy");
    let buffer = Ref::str(&text);
    let decoded: Text<'_> = decode(buffer.0);
    match &decoded.0 {
        Cow::Borrowed(s) => assert!(std::ptr::eq(s.as_ptr(), text.as_ptr())),
        Cow::Owned(_) => panic!("expected the borrowed-string path, not the owned one"),
    }
}

#[test]
fn sequences_round_trip() {
    round_trip(
        vec![1u8, 2, 3],
        &[
            Token::Seq { len: Some(3) },
            Token::U8(1),
            Token::U8(2),
            Token::U8(3),
            Token::SeqEnd,
        ],
    );
}

#[test]
fn structs_round_trip() {
    round_trip(
        TwoFields { a: 7, b: true },
        &[
            Token::Struct { name: "TwoFields", len: 2 },
            Token::Str("a"),
            Token::U8(7),
            Token::Str("b"),
            Token::Bool(true),
            Token::StructEnd,
        ],
    );
}

#[test]
fn enums_round_trip() {
    round_trip(Shape::Unit, &[Token::UnitVariant { name: "Shape", variant: "Unit" }]);
    round_trip(
        Shape::Newtype(9),
        &[Token::NewtypeVariant { name: "Shape", variant: "Newtype" }, Token::U8(9)],
    );
    round_trip(
        Shape::Pair(1, 2),
        &[
            Token::TupleVariant { name: "Shape", variant: "Pair", len: 2 },
            Token::U8(1),
            Token::U8(2),
            Token::TupleVariantEnd,
        ],
    );
    round_trip(
        Shape::Named { a: 5 },
        &[
            Token::StructVariant { name: "Shape", variant: "Named", len: 1 },
            Token::Str("a"),
            Token::U8(5),
            Token::StructVariantEnd,
        ],
    );
}
