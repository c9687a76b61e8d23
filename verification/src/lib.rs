use vstd::prelude::*;

pub mod de;
pub mod events;
pub mod model;
pub mod ser;

use crate::model::SpecValue;

pub use crate::de::Deserializer;
pub use crate::ser::Serializer;

verus! {

/// The buffered shape of a value: a tree covering every shape the encoding
/// protocol can describe.
///
/// String and byte payloads come in an owned and a borrowed form; the borrowed
/// forms alias memory outside the tree and are bounded by the lifetime `'a`.
/// Floating-point payloads are stored as their raw bit patterns, so replay
/// reproduces the exact bits that were captured.
#[derive(Debug, PartialEq)]
pub enum Value<'a> {
    /// A `()` value.
    Unit,
    /// A boolean value.
    Bool(bool),
    /// A signed integer value.
    I8(i8),
    /// A signed integer value.
    I16(i16),
    /// A signed integer value.
    I32(i32),
    /// A signed integer value.
    I64(i64),
    /// A signed integer value.
    I128(i128),
    /// An unsigned integer value.
    U8(u8),
    /// An unsigned integer value.
    U16(u16),
    /// An unsigned integer value.
    U32(u32),
    /// An unsigned integer value.
    U64(u64),
    /// An unsigned integer value.
    U128(u128),
    /// The bit pattern of a 32-bit binary floating point value.
    F32Bits(u32),
    /// The bit pattern of a 64-bit binary floating point value.
    F64Bits(u64),
    /// A single character value.
    Char(char),
    /// An owned string value.
    Str(String),
    /// A borrowed string value.
    BorrowedStr(&'a str),
    /// An owned byte-string value.
    Bytes(Vec<u8>),
    /// A borrowed byte-string value.
    BorrowedBytes(&'a [u8]),
    /// An absent optional value.
    OptNone,
    /// A present optional value.
    OptSome(Box<Value<'a>>),
    /// A unit struct, like `struct A`.
    UnitStruct {
        /// The struct's name.
        name: &'static str,
    },
    /// A newtype struct, like `struct A(T)`.
    NewtypeStruct {
        /// The struct's name.
        name: &'static str,
        /// The wrapped value.
        value: Box<Value<'a>>,
    },
    /// A struct with named fields, like `struct A { a: T }`, in declaration
    /// order, duplicates kept.
    Struct {
        /// The struct's name.
        name: &'static str,
        /// The fields, each a name paired with its value.
        fields: Vec<(&'static str, Value<'a>)>,
    },
    /// A tuple, like `(T, U)`.
    Tuple(Vec<Value<'a>>),
    /// A struct with unnamed fields, like `struct A(T, U)`.
    TupleStruct {
        /// The struct's name.
        name: &'static str,
        /// The fields in order.
        fields: Vec<Value<'a>>,
    },
    /// A unit enum variant, like `A::B`.
    UnitVariant {
        /// The enum's name.
        name: &'static str,
        /// The 0-based index the author assigned to the variant; decode
        /// dispatches on it.
        variant_index: u32,
        /// The variant's name, kept for diagnostics.
        variant: &'static str,
    },
    /// A newtype enum variant, like `A::B(T)`.
    NewtypeVariant {
        /// The enum's name.
        name: &'static str,
        /// The 0-based index the author assigned to the variant.
        variant_index: u32,
        /// The variant's name.
        variant: &'static str,
        /// The wrapped value.
        value: Box<Value<'a>>,
    },
    /// An enum variant with unnamed fields, like `A::B(T, U)`.
    TupleVariant {
        /// The enum's name.
        name: &'static str,
        /// The 0-based index the author assigned to the variant.
        variant_index: u32,
        /// The variant's name.
        variant: &'static str,
        /// The fields in order.
        fields: Vec<Value<'a>>,
    },
    /// An enum variant with named fields, like `A::B { a: T }`.
    StructVariant {
        /// The enum's name.
        name: &'static str,
        /// The 0-based index the author assigned to the variant.
        variant_index: u32,
        /// The variant's name.
        variant: &'static str,
        /// The fields, each a name paired with its value.
        fields: Vec<(&'static str, Value<'a>)>,
    },
    /// A sequence of values in order.
    Sequence(Vec<Value<'a>>),
    /// A map as ordered key-value pairs, insertion order preserved, no
    /// deduplication, keys of any shape.
    Mapping(Vec<(Value<'a>, Value<'a>)>),
}

impl<'a> View for Value<'a> {
    type V = SpecValue;

    open spec fn view(&self) -> SpecValue {
        crate::model::value_view(*self)
    }
}

/// A fully owned buffer.
///
/// Its tree never borrows text or bytes from outside memory, so it can be
/// stored for as long as needed.
#[derive(Debug, PartialEq)]
pub struct Owned(pub Value<'static>);

impl View for Owned {
    type V = SpecValue;

    open spec fn view(&self) -> SpecValue {
        self.0@
    }
}

/// A partly owned buffer.
///
/// This buffer allows string and byte payloads to be borrowed internally,
/// bounded by the lifetime `'a`.
#[derive(Debug, PartialEq)]
pub struct Ref<'a>(pub Value<'a>);

impl<'a> View for Ref<'a> {
    type V = SpecValue;

    open spec fn view(&self) -> SpecValue {
        self.0@
    }
}

impl From<Ref<'static>> for Owned {
    /// A borrowed-form buffer whose borrows are unbounded is already fully
    /// owned: the conversion reinterprets it without copying.
    fn from(value: Ref<'static>) -> (r: Self) {
        Owned(value.0)
    }
}

impl vstd::std_specs::convert::FromSpecImpl<Ref<'static>> for Owned {
    open spec fn obeys_from_spec() -> bool {
        true
    }

    open spec fn from_spec(v: Ref<'static>) -> Owned {
        Owned(v.0)
    }
}

impl From<Owned> for Ref<'static> {
    /// Owned data satisfies any borrow: the conversion reinterprets the
    /// buffer without copying.
    fn from(value: Owned) -> (r: Self) {
        Ref(value.0)
    }
}

impl vstd::std_specs::convert::FromSpecImpl<Owned> for Ref<'static> {
    open spec fn obeys_from_spec() -> bool {
        true
    }

    open spec fn from_spec(v: Owned) -> Ref<'static> {
        Ref(v.0)
    }
}

/// Converting a fully owned buffer to the borrowed form and back returns the
/// original buffer unchanged.
pub proof fn lemma_owned_to_ref_to_owned(v: Owned)
    ensures
        <Owned as vstd::std_specs::convert::FromSpec<Ref<'static>>>::from_spec(
            <Ref<'static> as vstd::std_specs::convert::FromSpec<Owned>>::from_spec(v),
        ) == v,
{
}

/// Converting a borrowed-form buffer whose borrows are unbounded to the owned
/// form and back returns the original buffer unchanged.
pub proof fn lemma_ref_to_owned_to_ref(v: Ref<'static>)
    ensures
        <Ref<'static> as vstd::std_specs::convert::FromSpec<Owned>>::from_spec(
            <Owned as vstd::std_specs::convert::FromSpec<Ref<'static>>>::from_spec(v),
        ) == v,
{
}

/// The models of a run of buffers, element by element.
pub open spec fn ref_views<'a>(s: Seq<Ref<'a>>) -> Seq<SpecValue> {
    s.map_values(|r: Ref<'a>| r@)
}

/// The models of a run of named fields over buffers, element by element.
pub open spec fn ref_fields_views<'a>(s: Seq<(&str, Ref<'a>)>) -> Seq<(Seq<char>, SpecValue)> {
    s.map_values(|p: (&str, Ref<'a>)| (p.0@, p.1@))
}

/// The models of a run of key-value pairs over buffers, element by element.
pub open spec fn ref_pairs_views<'a>(s: Seq<(Ref<'a>, Ref<'a>)>) -> Seq<(SpecValue, SpecValue)> {
    s.map_values(|p: (Ref<'a>, Ref<'a>)| (p.0@, p.1@))
}

fn refs_into_values<'a>(refs: Vec<Ref<'a>>) -> (out: Vec<Value<'a>>)
    ensures
        crate::model::values_view(out@) == ref_views(refs@),
{

    let ghost orig = refs@;
    let mut refs = refs;
    let mut out: Vec<Value<'a>> = Vec::new();
    while refs.len() > 0
        invariant
            orig.len() == out@.len() + refs@.len(),
            refs@ == orig.subrange(out@.len() as int, orig.len() as int),
            crate::model::values_view(out@) == ref_views(orig.subrange(0, out@.len() as int)),
        decreases refs@.len(),
    {
        let ghost prev_out = out@;
        let ghost prev_refs = refs@;
        let f = refs.remove(0);
        out.push(f.0);
        proof {
            let k = prev_out.len() as int;
            crate::model::lemma_values_view(out@);
            assert(prev_refs[0] == orig[k]);
            assert forall|i: int| 0 <= i < out@.len() implies crate::model::values_view(out@)[i]
                == ref_views(orig.subrange(0, out@.len() as int))[i] by {
                crate::model::lemma_values_view(prev_out);
                assert(crate::model::values_view(out@)[i] == crate::model::value_view(out@[i]));
                assert(ref_views(orig.subrange(0, out@.len() as int))[i] == orig.subrange(
                    0,
                    out@.len() as int,
                )[i]@);
                if i < k {
                    assert(crate::model::values_view(prev_out)[i] == ref_views(
                        orig.subrange(0, k),
                    )[i]);
                    assert(ref_views(orig.subrange(0, k))[i] == orig.subrange(0, k)[i]@);
                }
            }
            assert(crate::model::values_view(out@) =~= ref_views(
                orig.subrange(0, out@.len() as int),
            ));
            assert(refs@ =~= orig.subrange(out@.len() as int, orig.len() as int));
        }
    }
    proof {
        assert(orig.subrange(0, out@.len() as int) =~= orig);
    }
    out
}

fn ref_fields_into_values<'a>(refs: Vec<(&'static str, Ref<'a>)>) -> (out: Vec<
    (&'static str, Value<'a>),
>)
    ensures
        crate::model::fields_view(out@) == ref_fields_views(refs@),
{

    let ghost orig = refs@;
    let mut refs = refs;
    let mut out: Vec<(&'static str, Value<'a>)> = Vec::new();
    while refs.len() > 0
        invariant
            orig.len() == out@.len() + refs@.len(),
            refs@ == orig.subrange(out@.len() as int, orig.len() as int),
            crate::model::fields_view(out@) == ref_fields_views(
                orig.subrange(0, out@.len() as int),
            ),
        decreases refs@.len(),
    {
        let ghost prev_out = out@;
        let ghost prev_refs = refs@;
        let f = refs.remove(0);
        out.push((f.0, f.1.0));
        proof {
            let k = prev_out.len() as int;
            crate::model::lemma_fields_view(out@);
            assert(prev_refs[0] == orig[k]);
            assert forall|i: int| 0 <= i < out@.len() implies crate::model::fields_view(out@)[i]
                == ref_fields_views(orig.subrange(0, out@.len() as int))[i] by {
                crate::model::lemma_fields_view(prev_out);
                assert(ref_fields_views(orig.subrange(0, out@.len() as int))[i] == (
                    orig.subrange(0, out@.len() as int)[i].0@,
                    orig.subrange(0, out@.len() as int)[i].1@,
                ));
                if i < k {
                    assert(crate::model::fields_view(prev_out)[i] == ref_fields_views(
                        orig.subrange(0, k),
                    )[i]);
                    assert(ref_fields_views(orig.subrange(0, k))[i] == (
                        orig.subrange(0, k)[i].0@,
                        orig.subrange(0, k)[i].1@,
                    ));
                }
            }
            assert(crate::model::fields_view(out@) =~= ref_fields_views(
                orig.subrange(0, out@.len() as int),
            ));
            assert(refs@ =~= orig.subrange(out@.len() as int, orig.len() as int));
        }
    }
    proof {
        assert(orig.subrange(0, out@.len() as int) =~= orig);
    }
    out
}

fn ref_pairs_into_values<'a>(refs: Vec<(Ref<'a>, Ref<'a>)>) -> (out: Vec<(Value<'a>, Value<'a>)>)
    ensures
        crate::model::pairs_view(out@) == ref_pairs_views(refs@),
{

    let ghost orig = refs@;
    let mut refs = refs;
    let mut out: Vec<(Value<'a>, Value<'a>)> = Vec::new();
    while refs.len() > 0
        invariant
            orig.len() == out@.len() + refs@.len(),
            refs@ == orig.subrange(out@.len() as int, orig.len() as int),
            crate::model::pairs_view(out@) == ref_pairs_views(orig.subrange(0, out@.len() as int)),
        decreases refs@.len(),
    {
        let ghost prev_out = out@;
        let ghost prev_refs = refs@;
        let f = refs.remove(0);
        out.push((f.0.0, f.1.0));
        proof {
            let k = prev_out.len() as int;
            crate::model::lemma_pairs_view(out@);
            assert(prev_refs[0] == orig[k]);
            assert forall|i: int| 0 <= i < out@.len() implies crate::model::pairs_view(out@)[i]
                == ref_pairs_views(orig.subrange(0, out@.len() as int))[i] by {
                crate::model::lemma_pairs_view(prev_out);
                assert(ref_pairs_views(orig.subrange(0, out@.len() as int))[i] == (
                    orig.subrange(0, out@.len() as int)[i].0@,
                    orig.subrange(0, out@.len() as int)[i].1@,
                ));
                if i < k {
                    assert(crate::model::pairs_view(prev_out)[i] == ref_pairs_views(
                        orig.subrange(0, k),
                    )[i]);
                    assert(ref_pairs_views(orig.subrange(0, k))[i] == (
                        orig.subrange(0, k)[i].0@,
                        orig.subrange(0, k)[i].1@,
                    ));
                }
            }
            assert(crate::model::pairs_view(out@) =~= ref_pairs_views(
                orig.subrange(0, out@.len() as int),
            ));
            assert(refs@ =~= orig.subrange(out@.len() as int, orig.len() as int));
        }
    }
    proof {
        assert(orig.subrange(0, out@.len() as int) =~= orig);
    }
    out
}

impl<'a> Ref<'a> {
    /// Create a buffer for a `()` value.
    pub fn unit() -> (r: Self)
        ensures
            r@ == SpecValue::Unit,
    {
        Ref(Value::Unit)
    }

    /// Create a buffer for a boolean value.
    pub fn bool(v: bool) -> (r: Self)
        ensures
            r@ == SpecValue::Bool(v),
    {
        Ref(Value::Bool(v))
    }

    /// Create a buffer for an unsigned integer value.
    pub fn u8(v: u8) -> (r: Self)
        ensures
            r@ == SpecValue::U8(v),
    {
        Ref(Value::U8(v))
    }

    /// Create a buffer for an unsigned integer value.
    pub fn u16(v: u16) -> (r: Self)
        ensures
            r@ == SpecValue::U16(v),
    {
        Ref(Value::U16(v))
    }

    /// Create a buffer for an unsigned integer value.
    pub fn u32(v: u32) -> (r: Self)
        ensures
            r@ == SpecValue::U32(v),
    {
        Ref(Value::U32(v))
    }

    /// Create a buffer for an unsigned integer value.
    pub fn u64(v: u64) -> (r: Self)
        ensures
            r@ == SpecValue::U64(v),
    {
        Ref(Value::U64(v))
    }

    /// Create a buffer for an unsigned integer value.
    pub fn u128(v: u128) -> (r: Self)
        ensures
            r@ == SpecValue::U128(v),
    {
        Ref(Value::U128(v))
    }

    /// Create a buffer for a signed integer value.
    pub fn i8(v: i8) -> (r: Self)
        ensures
            r@ == SpecValue::I8(v),
    {
        Ref(Value::I8(v))
    }

    /// Create a buffer for a signed integer value.
    pub fn i16(v: i16) -> (r: Self)
        ensures
            r@ == SpecValue::I16(v),
    {
        Ref(Value::I16(v))
    }

    /// Create a buffer for a signed integer value.
    pub fn i32(v: i32) -> (r: Self)
        ensures
            r@ == SpecValue::I32(v),
    {
        Ref(Value::I32(v))
    }

    /// Create a buffer for a signed integer value.
    pub fn i64(v: i64) -> (r: Self)
        ensures
            r@ == SpecValue::I64(v),
    {
        Ref(Value::I64(v))
    }

    /// Create a buffer for a signed integer value.
    pub fn i128(v: i128) -> (r: Self)
        ensures
            r@ == SpecValue::I128(v),
    {
        Ref(Value::I128(v))
    }

    /// Create a buffer for a 32-bit binary floating point value, given as its
    /// raw bit pattern.
    pub fn f32_bits(v: u32) -> (r: Self)
        ensures
            r@ == SpecValue::F32Bits(v),
    {
        Ref(Value::F32Bits(v))
    }

    /// Create a buffer for a 64-bit binary floating point value, given as its
    /// raw bit pattern.
    pub fn f64_bits(v: u64) -> (r: Self)
        ensures
            r@ == SpecValue::F64Bits(v),
    {
        Ref(Value::F64Bits(v))
    }

    /// Create a buffer for a single character value.
    pub fn char(v: char) -> (r: Self)
        ensures
            r@ == SpecValue::Char(v),
    {
        Ref(Value::Char(v))
    }

    /// Create a buffer for an owned string value.
    pub fn owned_str(v: String) -> (r: Self)
        ensures
            r@ == SpecValue::Str(v@),
    {
        Ref(Value::Str(v))
    }

    /// Create a buffer for a borrowed string value.
    pub fn str(v: &'a str) -> (r: Self)
        ensures
            r@ == SpecValue::BorrowedStr(v@),
    {
        Ref(Value::BorrowedStr(v))
    }

    /// Create a buffer for an owned byte-string value.
    pub fn owned_bytes(v: Vec<u8>) -> (r: Self)
        ensures
            r@ == SpecValue::Bytes(v@),
    {
        Ref(Value::Bytes(v))
    }

    /// Create a buffer for a borrowed byte-string value.
    pub fn bytes(v: &'a [u8]) -> (r: Self)
        ensures
            r@ == SpecValue::BorrowedBytes(v@),
    {
        Ref(Value::BorrowedBytes(v))
    }

    /// Create a buffer for an absent optional value.
    pub fn none() -> (r: Self)
        ensures
            r@ == SpecValue::OptNone,
    {
        Ref(Value::OptNone)
    }

    /// Create a buffer for a present optional value.
    pub fn some(v: Ref<'a>) -> (r: Self)
        ensures
            r@ == SpecValue::OptSome(Box::new(v@)),
    {
        Ref(Value::OptSome(Box::new(v.0)))
    }

    /// Create a buffer for a unit struct, like `struct A`.
    pub fn unit_struct(name: &'static str) -> (r: Self)
        ensures
            r@ == (SpecValue::UnitStruct { name: name@ }),
    {
        Ref(Value::UnitStruct { name })
    }

    /// Create a buffer for a newtype struct, like `struct A(T)`.
    pub fn newtype_struct(name: &'static str, value: Ref<'a>) -> (r: Self)
        ensures
            r@ == (SpecValue::NewtypeStruct { name: name@, value: Box::new(value@) }),
    {
        Ref(Value::NewtypeStruct { name, value: Box::new(value.0) })
    }

    /// Create a buffer for a struct with named fields, like
    /// `struct A { a: T, b: U }`.
    pub fn record_struct(name: &'static str, fields: Vec<(&'static str, Ref<'a>)>) -> (r: Self)
        ensures
            r@ == (SpecValue::Struct { name: name@, fields: ref_fields_views(fields@) }),
    {
        Ref(Value::Struct { name, fields: ref_fields_into_values(fields) })
    }

    /// Create a buffer for a struct with unnamed fields, like `struct A(T, U)`.
    pub fn tuple_struct(name: &'static str, fields: Vec<Ref<'a>>) -> (r: Self)
        ensures
            r@ == (SpecValue::TupleStruct { name: name@, fields: ref_views(fields@) }),
    {
        Ref(Value::TupleStruct { name, fields: refs_into_values(fields) })
    }

    /// Create a buffer for a tuple, like `(T, U)`.
    pub fn tuple(fields: Vec<Ref<'a>>) -> (r: Self)
        ensures
            r@ == SpecValue::Tuple(ref_views(fields@)),
    {
        Ref(Value::Tuple(refs_into_values(fields)))
    }

    /// Create a buffer for a unit enum variant, like `A::B`.
    pub fn unit_variant(name: &'static str, variant_index: u32, variant: &'static str) -> (r: Self)
        ensures
            r@ == (SpecValue::UnitVariant { name: name@, variant_index, variant: variant@ }),
    {
        Ref(Value::UnitVariant { name, variant_index, variant })
    }

    /// Create a buffer for a newtype enum variant, like `A::B(T)`.
    pub fn newtype_variant(
        name: &'static str,
        variant_index: u32,
        variant: &'static str,
        value: Ref<'a>,
    ) -> (r: Self)
        ensures
            r@ == (SpecValue::NewtypeVariant {
                name: name@,
                variant_index,
                variant: variant@,
                value: Box::new(value@),
            }),
    {
        Ref(Value::NewtypeVariant { name, variant_index, variant, value: Box::new(value.0) })
    }

    /// Create a buffer for an enum variant with unnamed fields, like
    /// `A::B(T, U)`.
    pub fn tuple_variant(
        name: &'static str,
        variant_index: u32,
        variant: &'static str,
        fields: Vec<Ref<'a>>,
    ) -> (r: Self)
        ensures
            r@ == (SpecValue::TupleVariant {
                name: name@,
                variant_index,
                variant: variant@,
                fields: ref_views(fields@),
            }),
    {
        Ref(Value::TupleVariant { name, variant_index, variant, fields: refs_into_values(fields) })
    }

    /// Create a buffer for an enum variant with named fields, like
    /// `A::B { a: T, b: U }`.
    pub fn record_struct_variant(
        name: &'static str,
        variant_index: u32,
        variant: &'static str,
        fields: Vec<(&'static str, Ref<'a>)>,
    ) -> (r: Self)
        ensures
            r@ == (SpecValue::StructVariant {
                name: name@,
                variant_index,
                variant: variant@,
                fields: ref_fields_views(fields@),
            }),
    {
        Ref(
            Value::StructVariant {
                name,
                variant_index,
                variant,
                fields: ref_fields_into_values(fields),
            },
        )
    }

    /// Create a buffer for a sequence.
    pub fn seq(fields: Vec<Ref<'a>>) -> (r: Self)
        ensures
            r@ == SpecValue::Sequence(ref_views(fields@)),
    {
        Ref(Value::Sequence(refs_into_values(fields)))
    }

    /// Create a buffer for a map.
    pub fn map(fields: Vec<(Ref<'a>, Ref<'a>)>) -> (r: Self)
        ensures
            r@ == SpecValue::Mapping(ref_pairs_views(fields@)),
    {
        Ref(Value::Mapping(ref_pairs_into_values(fields)))
    }
}

/// An error encountered while buffering a value.
///
/// The message records why buffering or replay stopped; every failure is
/// terminal for the call that raised it.
#[derive(Debug)]
pub struct Error(String);

impl View for Error {
    type V = Seq<char>;

    closed spec fn view(&self) -> Seq<char> {
        self.0@
    }
}

impl Error {
    /// Wrap a message into an error.
    pub fn custom(msg: String) -> (e: Error)
        ensures
            e@ == msg@,
    {
        Error(msg)
    }

    /// The message the error was raised with.
    pub fn message(&self) -> (m: &String)
        ensures
            m@ == self@,
    {
        &self.0
    }
}

} // verus!

