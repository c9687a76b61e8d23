//! The capture adapter: the encode half of the protocol.
//!
//! A producer describes a value's shape call by call; capture answers every
//! call by building the matching [`Value`] node. Scalar calls finish at once
//! through the [`Ref`] constructors; compound calls open one of the builders
//! here, take the already-captured children one by one, and close into the
//! finished node. A whole recorded drive, as a run of [`Event`]s, is captured
//! in one step by [`Serializer::capture`].
//!
//! Map capture is two-phase: a key is staged, and the following value call
//! pairs with it. The staging violations are the only errors capture itself
//! raises; everything else is forwarded from the driven value's own logic.

use vstd::prelude::*;

use crate::events::{
    events_of, events_of_fields, events_of_pairs, events_of_values, events_view, Event, SpecEvent,
};
use crate::model::{
    fields_view, lemma_fields_view, lemma_pairs_view, lemma_values_view, pairs_view, value_view,
    values_view, SpecValue,
};
use crate::{Error, Owned, Value};

verus! {

/// Length hints are clamped before they reach an allocation, so an untrusted
/// hint cannot demand unbounded space.
pub const LEN_HINT_CAP: usize = 32;

fn clamped_capacity(len: usize) -> (c: usize)
    ensures
        c <= LEN_HINT_CAP,
{
    if len < LEN_HINT_CAP {
        len
    } else {
        LEN_HINT_CAP
    }
}

/// The capture adapter: drives of the push interface are answered by building
/// an [`Owned`] buffer.
pub struct Serializer;

impl Serializer {
    /// Create a new capture adapter for an [`Owned`] buffer.
    pub fn new() -> (s: Serializer) {
        Serializer
    }

    /// Capture a recorded drive of the push interface into an owned buffer.
    ///
    /// The run must describe exactly one value; map staging violations fail
    /// with the staging errors, and a run no drive of the push interface could
    /// produce fails with a message naming the run invalid.
    pub fn capture<'a>(self, events: &Vec<Event<'a>>) -> (r: Result<Owned, Error>)
        ensures
            (match (r, spec_capture(events_view(events@))) {
                (Ok(o), Ok(sv)) => o@ == sv,
                (Err(e), Err(m)) => e@ == m,
                _ => false,
            }),
    {
        match capture_value(events, 0) {
            Ok((v, j)) => {
                if j == events.len() {
                    Ok(Owned(v))
                } else {
                    Err(Error::custom(("invalid event run").to_owned()))
                }
            },
            Err(e) => Err(e),
        }
    }
}

/// A builder that accumulates the elements of a sequence.
pub struct SerializeSeq {
    fields: Vec<Value<'static>>,
}

impl View for SerializeSeq {
    type V = Seq<SpecValue>;

    closed spec fn view(&self) -> Seq<SpecValue> {
        values_view(self.fields@)
    }
}

impl SerializeSeq {
    /// Open a sequence; the length hint only sizes the first allocation.
    pub fn new(len: Option<usize>) -> (s: Self)
        ensures
            s@ == Seq::<SpecValue>::empty(),
    {
        SerializeSeq { fields: Vec::with_capacity(clamped_capacity(len.unwrap_or(0))) }
    }

    /// Append one already-captured element.
    pub fn serialize_element(&mut self, value: Owned)
        ensures
            final(self)@ == old(self)@.push(value@),
    {
        let ghost prev = self.fields@;
        self.fields.push(value.0);
        proof {
            lemma_values_view(prev);
            lemma_values_view(self.fields@);
            assert(values_view(self.fields@) =~= values_view(prev).push(value@));
        }
    }

    /// Close the sequence into its buffer.
    pub fn end(self) -> (r: Owned)
        ensures
            r@ == SpecValue::Sequence(self@),
    {
        Owned(Value::Sequence(self.fields))
    }
}

/// A builder that accumulates the elements of a tuple.
pub struct SerializeTuple {
    fields: Vec<Value<'static>>,
}

impl View for SerializeTuple {
    type V = Seq<SpecValue>;

    closed spec fn view(&self) -> Seq<SpecValue> {
        values_view(self.fields@)
    }
}

impl SerializeTuple {
    /// Open a tuple; the declared length only sizes the first allocation.
    pub fn new(len: usize) -> (s: Self)
        ensures
            s@ == Seq::<SpecValue>::empty(),
    {
        SerializeTuple { fields: Vec::with_capacity(clamped_capacity(len)) }
    }

    /// Append one already-captured element.
    pub fn serialize_element(&mut self, value: Owned)
        ensures
            final(self)@ == old(self)@.push(value@),
    {
        let ghost prev = self.fields@;
        self.fields.push(value.0);
        proof {
            lemma_values_view(prev);
            lemma_values_view(self.fields@);
            assert(values_view(self.fields@) =~= values_view(prev).push(value@));
        }
    }

    /// Close the tuple into its buffer.
    pub fn end(self) -> (r: Owned)
        ensures
            r@ == SpecValue::Tuple(self@),
    {
        Owned(Value::Tuple(self.fields))
    }
}

/// A builder that accumulates the unnamed fields of a tuple struct.
pub struct SerializeTupleStruct {
    name: &'static str,
    fields: Vec<Value<'static>>,
}

impl View for SerializeTupleStruct {
    type V = Seq<SpecValue>;

    closed spec fn view(&self) -> Seq<SpecValue> {
        values_view(self.fields@)
    }
}

impl SerializeTupleStruct {
    /// The name the builder was opened with.
    pub closed spec fn spec_name(&self) -> Seq<char> {
        self.name@
    }

    /// Open a tuple struct; the declared length only sizes the first
    /// allocation.
    pub fn new(name: &'static str, len: usize) -> (s: Self)
        ensures
            s@ == Seq::<SpecValue>::empty(),
            s.spec_name() == name@,
    {
        SerializeTupleStruct { name, fields: Vec::with_capacity(clamped_capacity(len)) }
    }

    /// Append one already-captured field.
    pub fn serialize_field(&mut self, value: Owned)
        ensures
            final(self)@ == old(self)@.push(value@),
            final(self).spec_name() == old(self).spec_name(),
    {
        let ghost prev = self.fields@;
        self.fields.push(value.0);
        proof {
            lemma_values_view(prev);
            lemma_values_view(self.fields@);
            assert(values_view(self.fields@) =~= values_view(prev).push(value@));
        }
    }

    /// Close the tuple struct into its buffer.
    pub fn end(self) -> (r: Owned)
        ensures
            r@ == (SpecValue::TupleStruct { name: self.spec_name(), fields: self@ }),
    {
        Owned(Value::TupleStruct { name: self.name, fields: self.fields })
    }
}

/// A builder that accumulates the unnamed fields of a tuple enum variant.
pub struct SerializeTupleVariant {
    name: &'static str,
    variant_index: u32,
    variant: &'static str,
    fields: Vec<Value<'static>>,
}

impl View for SerializeTupleVariant {
    type V = Seq<SpecValue>;

    closed spec fn view(&self) -> Seq<SpecValue> {
        values_view(self.fields@)
    }
}

impl SerializeTupleVariant {
    /// The enum name the builder was opened with.
    pub closed spec fn spec_name(&self) -> Seq<char> {
        self.name@
    }

    /// The variant index the builder was opened with.
    pub closed spec fn spec_variant_index(&self) -> u32 {
        self.variant_index
    }

    /// The variant name the builder was opened with.
    pub closed spec fn spec_variant(&self) -> Seq<char> {
        self.variant@
    }

    /// Open a tuple variant; the declared length only sizes the first
    /// allocation.
    pub fn new(name: &'static str, variant_index: u32, variant: &'static str, len: usize) -> (s:
        Self)
        ensures
            s@ == Seq::<SpecValue>::empty(),
            s.spec_name() == name@,
            s.spec_variant_index() == variant_index,
            s.spec_variant() == variant@,
    {
        SerializeTupleVariant {
            name,
            variant_index,
            variant,
            fields: Vec::with_capacity(clamped_capacity(len)),
        }
    }

    /// Append one already-captured field.
    pub fn serialize_field(&mut self, value: Owned)
        ensures
            final(self)@ == old(self)@.push(value@),
            final(self).spec_name() == old(self).spec_name(),
            final(self).spec_variant_index() == old(self).spec_variant_index(),
            final(self).spec_variant() == old(self).spec_variant(),
    {
        let ghost prev = self.fields@;
        self.fields.push(value.0);
        proof {
            lemma_values_view(prev);
            lemma_values_view(self.fields@);
            assert(values_view(self.fields@) =~= values_view(prev).push(value@));
        }
    }

    /// Close the tuple variant into its buffer.
    pub fn end(self) -> (r: Owned)
        ensures
            r@ == (SpecValue::TupleVariant {
                name: self.spec_name(),
                variant_index: self.spec_variant_index(),
                variant: self.spec_variant(),
                fields: self@,
            }),
    {
        Owned(
            Value::TupleVariant {
                name: self.name,
                variant_index: self.variant_index,
                variant: self.variant,
                fields: self.fields,
            },
        )
    }
}

/// A builder that accumulates the named fields of a struct.
pub struct SerializeStruct {
    name: &'static str,
    fields: Vec<(&'static str, Value<'static>)>,
}

impl View for SerializeStruct {
    type V = Seq<(Seq<char>, SpecValue)>;

    closed spec fn view(&self) -> Seq<(Seq<char>, SpecValue)> {
        fields_view(self.fields@)
    }
}

impl SerializeStruct {
    /// The name the builder was opened with.
    pub closed spec fn spec_name(&self) -> Seq<char> {
        self.name@
    }

    /// Open a struct; the declared length only sizes the first allocation.
    pub fn new(name: &'static str, len: usize) -> (s: Self)
        ensures
            s@ == Seq::<(Seq<char>, SpecValue)>::empty(),
            s.spec_name() == name@,
    {
        SerializeStruct { name, fields: Vec::with_capacity(clamped_capacity(len)) }
    }

    /// Append one already-captured field under its name.
    pub fn serialize_field(&mut self, key: &'static str, value: Owned)
        ensures
            final(self)@ == old(self)@.push((key@, value@)),
            final(self).spec_name() == old(self).spec_name(),
    {
        let ghost prev = self.fields@;
        self.fields.push((key, value.0));
        proof {
            lemma_fields_view(prev);
            lemma_fields_view(self.fields@);
            assert(fields_view(self.fields@) =~= fields_view(prev).push((key@, value@)));
        }
    }

    /// Close the struct into its buffer.
    pub fn end(self) -> (r: Owned)
        ensures
            r@ == (SpecValue::Struct { name: self.spec_name(), fields: self@ }),
    {
        Owned(Value::Struct { name: self.name, fields: self.fields })
    }
}

/// A builder that accumulates the named fields of a struct enum variant.
pub struct SerializeStructVariant {
    name: &'static str,
    variant_index: u32,
    variant: &'static str,
    fields: Vec<(&'static str, Value<'static>)>,
}

impl View for SerializeStructVariant {
    type V = Seq<(Seq<char>, SpecValue)>;

    closed spec fn view(&self) -> Seq<(Seq<char>, SpecValue)> {
        fields_view(self.fields@)
    }
}

impl SerializeStructVariant {
    /// The enum name the builder was opened with.
    pub closed spec fn spec_name(&self) -> Seq<char> {
        self.name@
    }

    /// The variant index the builder was opened with.
    pub closed spec fn spec_variant_index(&self) -> u32 {
        self.variant_index
    }

    /// The variant name the builder was opened with.
    pub closed spec fn spec_variant(&self) -> Seq<char> {
        self.variant@
    }

    /// Open a struct variant; the declared length only sizes the first
    /// allocation.
    pub fn new(name: &'static str, variant_index: u32, variant: &'static str, len: usize) -> (s:
        Self)
        ensures
            s@ == Seq::<(Seq<char>, SpecValue)>::empty(),
            s.spec_name() == name@,
            s.spec_variant_index() == variant_index,
            s.spec_variant() == variant@,
    {
        SerializeStructVariant {
            name,
            variant_index,
            variant,
            fields: Vec::with_capacity(clamped_capacity(len)),
        }
    }

    /// Append one already-captured field under its name.
    pub fn serialize_field(&mut self, key: &'static str, value: Owned)
        ensures
            final(self)@ == old(self)@.push((key@, value@)),
            final(self).spec_name() == old(self).spec_name(),
            final(self).spec_variant_index() == old(self).spec_variant_index(),
            final(self).spec_variant() == old(self).spec_variant(),
    {
        let ghost prev = self.fields@;
        self.fields.push((key, value.0));
        proof {
            lemma_fields_view(prev);
            lemma_fields_view(self.fields@);
            assert(fields_view(self.fields@) =~= fields_view(prev).push((key@, value@)));
        }
    }

    /// Close the struct variant into its buffer.
    pub fn end(self) -> (r: Owned)
        ensures
            r@ == (SpecValue::StructVariant {
                name: self.spec_name(),
                variant_index: self.spec_variant_index(),
                variant: self.spec_variant(),
                fields: self@,
            }),
    {
        Owned(
            Value::StructVariant {
                name: self.name,
                variant_index: self.variant_index,
                variant: self.variant,
                fields: self.fields,
            },
        )
    }
}

/// A builder that accumulates the entries of a map, two-phase: a staged key
/// waits for the value that pairs with it.
pub struct SerializeMap {
    key: Option<Value<'static>>,
    fields: Vec<(Value<'static>, Value<'static>)>,
}

impl View for SerializeMap {
    type V = Seq<(SpecValue, SpecValue)>;

    closed spec fn view(&self) -> Seq<(SpecValue, SpecValue)> {
        pairs_view(self.fields@)
    }
}

impl SerializeMap {
    /// The staged key still waiting for its value, if any.
    pub closed spec fn staged(&self) -> Option<SpecValue> {
        match self.key {
            Some(k) => Some(value_view(k)),
            None => None,
        }
    }

    /// Open a map; the length hint only sizes the first allocation.
    pub fn new(len: Option<usize>) -> (s: Self)
        ensures
            s@ == Seq::<(SpecValue, SpecValue)>::empty(),
            s.staged() is None,
    {
        SerializeMap { key: None, fields: Vec::with_capacity(clamped_capacity(len.unwrap_or(0))) }
    }

    /// Stage an already-captured key.
    ///
    /// A second key while one is staged fails: the staged key is missing its
    /// value.
    pub fn serialize_key(&mut self, key: Owned) -> (r: Result<(), Error>)
        ensures
            old(self).staged() is None ==> (r matches Ok(()) && final(self).staged() == Some(
                key@,
            ) && final(self)@ == old(self)@),
            old(self).staged() is Some ==> (r matches Err(e) && e@ == "missing map value"@
                && final(self).staged() == old(self).staged() && final(self)@ == old(self)@),
    {
        if self.key.is_some() {
            return Err(Error::custom(("missing map value").to_owned()));
        }
        self.key = Some(key.0);
        Ok(())
    }

    /// Pair an already-captured value with the staged key.
    ///
    /// A value with no staged key fails: the map key is missing.
    pub fn serialize_value(&mut self, value: Owned) -> (r: Result<(), Error>)
        ensures
            old(self).staged() matches Some(k) ==> (r matches Ok(()) && final(self).staged()
                is None && final(self)@ == old(self)@.push((k, value@))),
            old(self).staged() is None ==> (r matches Err(e) && e@ == "missing map key"@ && final(self).staged() is None && final(self)@ == old(self)@),
    {
        let staged = self.key.take();
        match staged {
            Some(k) => {
                let ghost prev = self.fields@;
                self.fields.push((k, value.0));
                proof {
                    lemma_pairs_view(prev);
                    lemma_pairs_view(self.fields@);
                    assert(pairs_view(self.fields@) =~= pairs_view(prev).push(
                        (value_view(k), value@),
                    ));
                }
                Ok(())
            },
            None => Err(Error::custom(("missing map key").to_owned())),
        }
    }

    /// Append an already-captured key and value as one entry, bypassing
    /// staging.
    ///
    /// An entry while a key is staged fails: the staged key is missing its
    /// value.
    pub fn serialize_entry(&mut self, key: Owned, value: Owned) -> (r: Result<(), Error>)
        ensures
            old(self).staged() is None ==> (r matches Ok(()) && final(self).staged() is None
                && final(self)@ == old(self)@.push((key@, value@))),
            old(self).staged() is Some ==> (r matches Err(e) && e@ == "missing map value"@
                && final(self).staged() == old(self).staged() && final(self)@ == old(self)@),
    {
        if self.key.is_some() {
            return Err(Error::custom(("missing map value").to_owned()));
        }
        let ghost prev = self.fields@;
        self.fields.push((key.0, value.0));
        proof {
            lemma_pairs_view(prev);
            lemma_pairs_view(self.fields@);
            assert(pairs_view(self.fields@) =~= pairs_view(prev).push((key@, value@)));
        }
        Ok(())
    }

    /// Close the map into its buffer.
    ///
    /// Closing while a key is staged fails: the staged key is missing its
    /// value.
    pub fn end(self) -> (r: Result<Owned, Error>)
        ensures
            self.staged() is None ==> (r matches Ok(o) && o@ == SpecValue::Mapping(self@)),
            self.staged() is Some ==> (r matches Err(e) && e@ == "missing map value"@),
    {
        if self.key.is_some() {
            return Err(Error::custom(("missing map value").to_owned()));
        }
        Ok(Owned(Value::Mapping(self.fields)))
    }
}

/// The message capture fails with on a run that no drive of the push
/// interface could produce.
pub open spec fn invalid_run_msg() -> Seq<char> {
    "invalid event run"@
}

/// The message for a staged map key still waiting for its value.
pub open spec fn missing_value_msg() -> Seq<char> {
    "missing map value"@
}

/// The message for a map value that arrives with no staged key.
pub open spec fn missing_key_msg() -> Seq<char> {
    "missing map key"@
}

/// What capturing a whole recorded drive yields: one value covering the whole
/// run, or the error the drive runs into.
pub open spec fn spec_capture(events: Seq<SpecEvent>) -> Result<SpecValue, Seq<char>> {
    match spec_capture_value(events, 0) {
        Ok((v, j)) => if j == events.len() {
            Ok(v)
        } else {
            Err(invalid_run_msg())
        },
        Err(m) => Err(m),
    }
}

/// Capture one value from position `i` of a recorded drive: the value built
/// and the position just past its events, or the error the drive runs into.
pub open spec fn spec_capture_value(events: Seq<SpecEvent>, i: int) -> Result<
    (SpecValue, int),
    Seq<char>,
>
    decreases events.len() - i, 0int,
{
    if !(0 <= i < events.len()) {
        Err(invalid_run_msg())
    } else {
        match events[i] {
            SpecEvent::Unit => Ok((SpecValue::Unit, i + 1)),
            SpecEvent::Bool(b) => Ok((SpecValue::Bool(b), i + 1)),
            SpecEvent::I8(n) => Ok((SpecValue::I8(n), i + 1)),
            SpecEvent::I16(n) => Ok((SpecValue::I16(n), i + 1)),
            SpecEvent::I32(n) => Ok((SpecValue::I32(n), i + 1)),
            SpecEvent::I64(n) => Ok((SpecValue::I64(n), i + 1)),
            SpecEvent::I128(n) => Ok((SpecValue::I128(n), i + 1)),
            SpecEvent::U8(n) => Ok((SpecValue::U8(n), i + 1)),
            SpecEvent::U16(n) => Ok((SpecValue::U16(n), i + 1)),
            SpecEvent::U32(n) => Ok((SpecValue::U32(n), i + 1)),
            SpecEvent::U64(n) => Ok((SpecValue::U64(n), i + 1)),
            SpecEvent::U128(n) => Ok((SpecValue::U128(n), i + 1)),
            SpecEvent::F32Bits(n) => Ok((SpecValue::F32Bits(n), i + 1)),
            SpecEvent::F64Bits(n) => Ok((SpecValue::F64Bits(n), i + 1)),
            SpecEvent::Char(c) => Ok((SpecValue::Char(c), i + 1)),
            SpecEvent::Str(s) => Ok((SpecValue::Str(s), i + 1)),
            SpecEvent::Bytes(b) => Ok((SpecValue::Bytes(b), i + 1)),
            SpecEvent::OptNone => Ok((SpecValue::OptNone, i + 1)),
            SpecEvent::OptSome => match spec_capture_value(events, i + 1) {
                Ok((v, j)) => Ok((SpecValue::OptSome(Box::new(v)), j)),
                Err(m) => Err(m),
            },
            SpecEvent::UnitStruct { name } => Ok((SpecValue::UnitStruct { name }, i + 1)),
            SpecEvent::NewtypeStruct { name } => match spec_capture_value(events, i + 1) {
                Ok((v, j)) => Ok((SpecValue::NewtypeStruct { name, value: Box::new(v) }, j)),
                Err(m) => Err(m),
            },
            SpecEvent::UnitVariant { name, variant_index, variant } => Ok(
                (SpecValue::UnitVariant { name, variant_index, variant }, i + 1),
            ),
            SpecEvent::NewtypeVariant { name, variant_index, variant } => match spec_capture_value(
                events,
                i + 1,
            ) {
                Ok((v, j)) => Ok(
                    (
                        SpecValue::NewtypeVariant {
                            name,
                            variant_index,
                            variant,
                            value: Box::new(v),
                        },
                        j,
                    ),
                ),
                Err(m) => Err(m),
            },
            SpecEvent::SeqBegin { len } => match spec_capture_values_until(
                events,
                i + 1,
                SpecEvent::SeqEnd,
            ) {
                Ok((vs, j)) => Ok((SpecValue::Sequence(vs), j)),
                Err(m) => Err(m),
            },
            SpecEvent::TupleBegin { len } => match spec_capture_values_until(
                events,
                i + 1,
                SpecEvent::TupleEnd,
            ) {
                Ok((vs, j)) => Ok((SpecValue::Tuple(vs), j)),
                Err(m) => Err(m),
            },
            SpecEvent::TupleStructBegin { name, len } => match spec_capture_values_until(
                events,
                i + 1,
                SpecEvent::TupleStructEnd,
            ) {
                Ok((vs, j)) => Ok((SpecValue::TupleStruct { name, fields: vs }, j)),
                Err(m) => Err(m),
            },
            SpecEvent::TupleVariantBegin { name, variant_index, variant, len } => match spec_capture_values_until(
                events,
                i + 1,
                SpecEvent::TupleVariantEnd,
            ) {
                Ok((vs, j)) => Ok(
                    (SpecValue::TupleVariant { name, variant_index, variant, fields: vs }, j),
                ),
                Err(m) => Err(m),
            },
            SpecEvent::StructBegin { name, len } => match spec_capture_fields_until(
                events,
                i + 1,
                SpecEvent::StructEnd,
            ) {
                Ok((fs, j)) => Ok((SpecValue::Struct { name, fields: fs }, j)),
                Err(m) => Err(m),
            },
            SpecEvent::StructVariantBegin { name, variant_index, variant, len } => match spec_capture_fields_until(
                events,
                i + 1,
                SpecEvent::StructVariantEnd,
            ) {
                Ok((fs, j)) => Ok(
                    (SpecValue::StructVariant { name, variant_index, variant, fields: fs }, j),
                ),
                Err(m) => Err(m),
            },
            SpecEvent::MapBegin { len } => match spec_capture_entries(
                events,
                i + 1,
                Option::<SpecValue>::None,
            ) {
                Ok((ps, j)) => Ok((SpecValue::Mapping(ps), j)),
                Err(m) => Err(m),
            },
            _ => Err(invalid_run_msg()),
        }
    }
}

/// Capture values from position `i` until the closing event `end`.
pub open spec fn spec_capture_values_until(
    events: Seq<SpecEvent>,
    i: int,
    end: SpecEvent,
) -> Result<(Seq<SpecValue>, int), Seq<char>>
    decreases events.len() - i, 1int,
{
    if !(0 <= i < events.len()) {
        Err(invalid_run_msg())
    } else if events[i] == end {
        Ok((Seq::empty(), i + 1))
    } else {
        match spec_capture_value(events, i) {
            Ok((v, j)) => if i < j <= events.len() {
                match spec_capture_values_until(events, j, end) {
                    Ok((vs, j2)) => Ok((seq![v] + vs, j2)),
                    Err(m) => Err(m),
                }
            } else {
                Err(invalid_run_msg())
            },
            Err(m) => Err(m),
        }
    }
}

/// Capture named fields from position `i` until the closing event `end`.
pub open spec fn spec_capture_fields_until(
    events: Seq<SpecEvent>,
    i: int,
    end: SpecEvent,
) -> Result<(Seq<(Seq<char>, SpecValue)>, int), Seq<char>>
    decreases events.len() - i, 1int,
{
    if !(0 <= i < events.len()) {
        Err(invalid_run_msg())
    } else if events[i] == end {
        Ok((Seq::empty(), i + 1))
    } else {
        match events[i] {
            SpecEvent::StructField { name } => match spec_capture_value(events, i + 1) {
                Ok((v, j)) => if i < j <= events.len() {
                    match spec_capture_fields_until(events, j, end) {
                        Ok((fs, j2)) => Ok((seq![(name, v)] + fs, j2)),
                        Err(m) => Err(m),
                    }
                } else {
                    Err(invalid_run_msg())
                },
                Err(m) => Err(m),
            },
            _ => Err(invalid_run_msg()),
        }
    }
}

/// Capture map entries from position `i` until the map closes, key-then-value:
/// a staged key waits for the value that pairs with it, and the staging
/// violations fail exactly as map capture does.
pub open spec fn spec_capture_entries(
    events: Seq<SpecEvent>,
    i: int,
    staged: Option<SpecValue>,
) -> Result<(Seq<(SpecValue, SpecValue)>, int), Seq<char>>
    decreases events.len() - i, 1int,
{
    if !(0 <= i < events.len()) {
        Err(invalid_run_msg())
    } else {
        match events[i] {
            SpecEvent::MapEnd => match staged {
                Some(k) => Err(missing_value_msg()),
                None => Ok((Seq::empty(), i + 1)),
            },
            SpecEvent::MapKey => match staged {
                Some(k) => Err(missing_value_msg()),
                None => match spec_capture_value(events, i + 1) {
                    Ok((k, j)) => if i < j <= events.len() {
                        spec_capture_entries(events, j, Some(k))
                    } else {
                        Err(invalid_run_msg())
                    },
                    Err(m) => Err(m),
                },
            },
            SpecEvent::MapValue => match staged {
                None => Err(missing_key_msg()),
                Some(k) => match spec_capture_value(events, i + 1) {
                    Ok((v, j)) => if i < j <= events.len() {
                        match spec_capture_entries(events, j, Option::<SpecValue>::None) {
                            Ok((ps, j2)) => Ok((seq![(k, v)] + ps, j2)),
                            Err(m) => Err(m),
                        }
                    } else {
                        Err(invalid_run_msg())
                    },
                    Err(m) => Err(m),
                },
            },
            _ => Err(invalid_run_msg()),
        }
    }
}

proof fn lemma_segment_split(events: Seq<SpecEvent>, i: int, a: Seq<SpecEvent>, b: Seq<SpecEvent>)
    requires
        0 <= i,
        i + a.len() + b.len() <= events.len(),
        events.subrange(i, i + a.len() + b.len()) == a + b,
    ensures
        events.subrange(i, i + a.len() as int) == a,
        events.subrange(i + a.len() as int, i + a.len() + b.len()) == b,
{
    let whole = events.subrange(i, i + a.len() + b.len());
    assert forall|k: int| 0 <= k < a.len() implies events.subrange(i, i + a.len() as int)[k]
        == a[k] by {
        assert(whole[k] == (a + b)[k]);
        assert(whole[k] == events[i + k]);
        assert(events.subrange(i, i + a.len() as int)[k] == events[i + k]);
    }
    assert(events.subrange(i, i + a.len() as int) =~= a);
    assert forall|k: int| 0 <= k < b.len() implies events.subrange(
        i + a.len() as int,
        i + a.len() + b.len(),
    )[k] == b[k] by {
        assert(whole[a.len() + k] == (a + b)[a.len() + k]);
        assert(whole[a.len() + k] == events[i + a.len() + k]);
        assert(events.subrange(i + a.len() as int, i + a.len() + b.len())[k] == events[i + a.len()
            + k]);
    }
    assert(events.subrange(i + a.len() as int, i + a.len() + b.len()) =~= b);
}

/// Capturing the events that one value replays rebuilds that value in its
/// fully owned form and stops just past its run.
pub proof fn lemma_capture_of_trace(v: SpecValue, events: Seq<SpecEvent>, i: int)
    requires
        0 <= i,
        i + events_of(v).len() <= events.len(),
        events.subrange(i, i + events_of(v).len() as int) == events_of(v),
    ensures
        spec_capture_value(events, i) == Ok::<(SpecValue, int), Seq<char>>(
            (crate::model::owned_of(v), i + events_of(v).len()),
        ),
    decreases v,
{
    let t = events_of(v);
    crate::events::lemma_events_of_starts(v);
    assert(events[i] == t[0]) by {
        assert(events.subrange(i, i + t.len() as int)[0] == events[i]);
    }
    match v {
        SpecValue::OptSome(inner) => {
            lemma_segment_split(events, i, seq![SpecEvent::OptSome], events_of(*inner));
            assert(events.subrange(i + 1, i + 1 + events_of(*inner).len() as int) == events_of(
                *inner,
            ));
            lemma_capture_of_trace(*inner, events, i + 1);
        },
        SpecValue::NewtypeStruct { name, value } => {
            lemma_segment_split(
                events,
                i,
                seq![SpecEvent::NewtypeStruct { name }],
                events_of(*value),
            );
            lemma_capture_of_trace(*value, events, i + 1);
        },
        SpecValue::NewtypeVariant { name, variant_index, variant, value } => {
            lemma_segment_split(
                events,
                i,
                seq![SpecEvent::NewtypeVariant { name, variant_index, variant }],
                events_of(*value),
            );
            lemma_capture_of_trace(*value, events, i + 1);
        },
        SpecValue::Sequence(fields) => {
            let begin = SpecEvent::SeqBegin { len: Some(fields.len() as usize) };
            let mid = events_of_values(fields);
            lemma_segment_split(events, i, seq![begin] + mid, seq![SpecEvent::SeqEnd]);
            lemma_segment_split(events, i, seq![begin], mid);
            assert(events[i + 1 + mid.len()] == SpecEvent::SeqEnd) by {
                assert(events.subrange(i + 1 + mid.len(), i + 2 + mid.len())[0] == events[i + 1
                    + mid.len()]);
            }
            lemma_capture_list_of_trace(fields, events, i + 1, SpecEvent::SeqEnd);
        },
        SpecValue::Tuple(fields) => {
            let begin = SpecEvent::TupleBegin { len: fields.len() as usize };
            let mid = events_of_values(fields);
            lemma_segment_split(events, i, seq![begin] + mid, seq![SpecEvent::TupleEnd]);
            lemma_segment_split(events, i, seq![begin], mid);
            assert(events[i + 1 + mid.len()] == SpecEvent::TupleEnd) by {
                assert(events.subrange(i + 1 + mid.len(), i + 2 + mid.len())[0] == events[i + 1
                    + mid.len()]);
            }
            lemma_capture_list_of_trace(fields, events, i + 1, SpecEvent::TupleEnd);
        },
        SpecValue::TupleStruct { name, fields } => {
            let begin = SpecEvent::TupleStructBegin { name, len: fields.len() as usize };
            let mid = events_of_values(fields);
            lemma_segment_split(events, i, seq![begin] + mid, seq![SpecEvent::TupleStructEnd]);
            lemma_segment_split(events, i, seq![begin], mid);
            assert(events[i + 1 + mid.len()] == SpecEvent::TupleStructEnd) by {
                assert(events.subrange(i + 1 + mid.len(), i + 2 + mid.len())[0] == events[i + 1
                    + mid.len()]);
            }
            lemma_capture_list_of_trace(fields, events, i + 1, SpecEvent::TupleStructEnd);
        },
        SpecValue::TupleVariant { name, variant_index, variant, fields } => {
            let begin = SpecEvent::TupleVariantBegin {
                name,
                variant_index,
                variant,
                len: fields.len() as usize,
            };
            let mid = events_of_values(fields);
            lemma_segment_split(events, i, seq![begin] + mid, seq![SpecEvent::TupleVariantEnd]);
            lemma_segment_split(events, i, seq![begin], mid);
            assert(events[i + 1 + mid.len()] == SpecEvent::TupleVariantEnd) by {
                assert(events.subrange(i + 1 + mid.len(), i + 2 + mid.len())[0] == events[i + 1
                    + mid.len()]);
            }
            lemma_capture_list_of_trace(fields, events, i + 1, SpecEvent::TupleVariantEnd);
        },
        SpecValue::Struct { name, fields } => {
            let begin = SpecEvent::StructBegin { name, len: fields.len() as usize };
            let mid = events_of_fields(fields);
            lemma_segment_split(events, i, seq![begin] + mid, seq![SpecEvent::StructEnd]);
            lemma_segment_split(events, i, seq![begin], mid);
            assert(events[i + 1 + mid.len()] == SpecEvent::StructEnd) by {
                assert(events.subrange(i + 1 + mid.len(), i + 2 + mid.len())[0] == events[i + 1
                    + mid.len()]);
            }
            lemma_capture_fields_of_trace(fields, events, i + 1, SpecEvent::StructEnd);
        },
        SpecValue::StructVariant { name, variant_index, variant, fields } => {
            let begin = SpecEvent::StructVariantBegin {
                name,
                variant_index,
                variant,
                len: fields.len() as usize,
            };
            let mid = events_of_fields(fields);
            lemma_segment_split(events, i, seq![begin] + mid, seq![SpecEvent::StructVariantEnd]);
            lemma_segment_split(events, i, seq![begin], mid);
            assert(events[i + 1 + mid.len()] == SpecEvent::StructVariantEnd) by {
                assert(events.subrange(i + 1 + mid.len(), i + 2 + mid.len())[0] == events[i + 1
                    + mid.len()]);
            }
            lemma_capture_fields_of_trace(fields, events, i + 1, SpecEvent::StructVariantEnd);
        },
        SpecValue::Mapping(fields) => {
            let begin = SpecEvent::MapBegin { len: Some(fields.len() as usize) };
            let mid = events_of_pairs(fields);
            lemma_segment_split(events, i, seq![begin] + mid, seq![SpecEvent::MapEnd]);
            lemma_segment_split(events, i, seq![begin], mid);
            assert(events[i + 1 + mid.len()] == SpecEvent::MapEnd) by {
                assert(events.subrange(i + 1 + mid.len(), i + 2 + mid.len())[0] == events[i + 1
                    + mid.len()]);
            }
            lemma_capture_entries_of_trace(fields, events, i + 1);
        },
        _ => {},
    }
}

proof fn lemma_capture_list_of_trace(
    vs: Seq<SpecValue>,
    events: Seq<SpecEvent>,
    i: int,
    end: SpecEvent,
)
    requires
        0 <= i,
        !crate::events::starts_value(end),
        i + events_of_values(vs).len() + 1 <= events.len(),
        events.subrange(i, i + events_of_values(vs).len() as int) == events_of_values(vs),
        events[i + events_of_values(vs).len()] == end,
    ensures
        spec_capture_values_until(events, i, end) == Ok::<(Seq<SpecValue>, int), Seq<char>>(
            (crate::model::owned_of_values(vs), i + events_of_values(vs).len() + 1),
        ),
    decreases vs,
{
    if vs.len() == 0 {
    } else {
        let t0 = events_of(vs[0]);
        let tail = vs.subrange(1, vs.len() as int);
        let trest = events_of_values(tail);
        lemma_segment_split(events, i, t0, trest);
        crate::events::lemma_events_of_starts(vs[0]);
        assert(events[i] == t0[0]) by {
            assert(events.subrange(i, i + t0.len() as int)[0] == events[i]);
        }
        lemma_capture_of_trace(vs[0], events, i);
        lemma_capture_list_of_trace(tail, events, i + t0.len(), end);
    }
}

proof fn lemma_capture_fields_of_trace(
    fs: Seq<(Seq<char>, SpecValue)>,
    events: Seq<SpecEvent>,
    i: int,
    end: SpecEvent,
)
    requires
        0 <= i,
        end == SpecEvent::StructEnd || end == SpecEvent::StructVariantEnd,
        i + events_of_fields(fs).len() + 1 <= events.len(),
        events.subrange(i, i + events_of_fields(fs).len() as int) == events_of_fields(fs),
        events[i + events_of_fields(fs).len()] == end,
    ensures
        spec_capture_fields_until(events, i, end) == Ok::<
            (Seq<(Seq<char>, SpecValue)>, int),
            Seq<char>,
        >((crate::model::owned_of_fields(fs), i + events_of_fields(fs).len() + 1)),
    decreases fs,
{
    if fs.len() == 0 {
    } else {
        let sf = SpecEvent::StructField { name: fs[0].0 };
        let t0 = events_of(fs[0].1);
        let tail = fs.subrange(1, fs.len() as int);
        let trest = events_of_fields(tail);
        lemma_segment_split(events, i, seq![sf] + t0, trest);
        lemma_segment_split(events, i, seq![sf], t0);
        assert(events[i] == sf) by {
            assert(events.subrange(i, i + 1)[0] == events[i]);
        }
        lemma_capture_of_trace(fs[0].1, events, i + 1);
        lemma_capture_fields_of_trace(tail, events, i + 1 + t0.len(), end);
    }
}

proof fn lemma_capture_entries_of_trace(
    ps: Seq<(SpecValue, SpecValue)>,
    events: Seq<SpecEvent>,
    i: int,
)
    requires
        0 <= i,
        i + events_of_pairs(ps).len() + 1 <= events.len(),
        events.subrange(i, i + events_of_pairs(ps).len() as int) == events_of_pairs(ps),
        events[i + events_of_pairs(ps).len()] == SpecEvent::MapEnd,
    ensures
        spec_capture_entries(events, i, Option::<SpecValue>::None) == Ok::<
            (Seq<(SpecValue, SpecValue)>, int),
            Seq<char>,
        >((crate::model::owned_of_pairs(ps), i + events_of_pairs(ps).len() + 1)),
    decreases ps,
{
    reveal_with_fuel(spec_capture_entries, 3);
    if ps.len() == 0 {
    } else {
        let tk = events_of(ps[0].0);
        let tv = events_of(ps[0].1);
        let tail = ps.subrange(1, ps.len() as int);
        let trest = events_of_pairs(tail);
        lemma_segment_split(
            events,
            i,
            seq![SpecEvent::MapKey] + tk + seq![SpecEvent::MapValue] + tv,
            trest,
        );
        lemma_segment_split(events, i, seq![SpecEvent::MapKey] + tk + seq![SpecEvent::MapValue], tv);
        lemma_segment_split(events, i, seq![SpecEvent::MapKey] + tk, seq![SpecEvent::MapValue]);
        lemma_segment_split(events, i, seq![SpecEvent::MapKey], tk);
        assert(events[i] == SpecEvent::MapKey) by {
            assert(events.subrange(i, i + 1)[0] == events[i]);
        }
        assert(events[i + 1 + tk.len()] == SpecEvent::MapValue) by {
            assert(events.subrange(i + 1 + tk.len(), i + 2 + tk.len())[0] == events[i + 1
                + tk.len()]);
        }
        lemma_capture_of_trace(ps[0].0, events, i + 1);
        lemma_capture_of_trace(ps[0].1, events, i + 2 + tk.len());
        lemma_capture_entries_of_trace(tail, events, i + 2 + tk.len() + tv.len());
    }
}

/// The round-trip guarantee: capturing the run of push-interface calls that a
/// buffer replays yields that same buffer in fully owned form, and the
/// capture's own replay emits the identical run — same calls, same arguments,
/// same order.
pub proof fn lemma_round_trip(v: SpecValue)
    ensures
        spec_capture(events_of(v)) == Ok::<SpecValue, Seq<char>>(crate::model::owned_of(v)),
        events_of(crate::model::owned_of(v)) == events_of(v),
{
    crate::events::lemma_events_of_owned(v);
    assert(events_of(v).subrange(0, events_of(v).len() as int) =~= events_of(v));
    lemma_capture_of_trace(v, events_of(v), 0);
}

/// Capture reads no length hint: two drives that make the same calls, hints
/// aside, capture to the same outcome — the same buffer or the same error.
///
/// Together with the round-trip guarantee this pins down replay of a capture
/// completely: it repeats the driven calls exactly, except that each
/// collection's hint is replaced by the exact element count.
pub proof fn lemma_capture_reads_no_hints(a: Seq<SpecEvent>, b: Seq<SpecEvent>)
    requires
        crate::events::same_calls(a, b),
    ensures
        spec_capture(a) == spec_capture(b),
{
    lemma_capture_value_no_hints(a, b, 0);
}

proof fn lemma_capture_value_no_hints(a: Seq<SpecEvent>, b: Seq<SpecEvent>, i: int)
    requires
        crate::events::same_calls(a, b),
    ensures
        spec_capture_value(a, i) == spec_capture_value(b, i),
    decreases a.len() - i, 0int,
{
    if 0 <= i < a.len() {
        assert(crate::events::same_call(a[i], b[i]));
        match a[i] {
            SpecEvent::OptSome => {
                lemma_capture_value_no_hints(a, b, i + 1);
            },
            SpecEvent::NewtypeStruct { name } => {
                lemma_capture_value_no_hints(a, b, i + 1);
            },
            SpecEvent::NewtypeVariant { name, variant_index, variant } => {
                lemma_capture_value_no_hints(a, b, i + 1);
            },
            SpecEvent::SeqBegin { len } => {
                lemma_capture_values_until_no_hints(a, b, i + 1, SpecEvent::SeqEnd);
            },
            SpecEvent::TupleBegin { len } => {
                lemma_capture_values_until_no_hints(a, b, i + 1, SpecEvent::TupleEnd);
            },
            SpecEvent::TupleStructBegin { name, len } => {
                lemma_capture_values_until_no_hints(a, b, i + 1, SpecEvent::TupleStructEnd);
            },
            SpecEvent::TupleVariantBegin { name, variant_index, variant, len } => {
                lemma_capture_values_until_no_hints(a, b, i + 1, SpecEvent::TupleVariantEnd);
            },
            SpecEvent::StructBegin { name, len } => {
                lemma_capture_fields_until_no_hints(a, b, i + 1, SpecEvent::StructEnd);
            },
            SpecEvent::StructVariantBegin { name, variant_index, variant, len } => {
                lemma_capture_fields_until_no_hints(a, b, i + 1, SpecEvent::StructVariantEnd);
            },
            SpecEvent::MapBegin { len } => {
                lemma_capture_entries_no_hints(a, b, i + 1, Option::<SpecValue>::None);
            },
            _ => {},
        }
    }
}

proof fn lemma_capture_values_until_no_hints(
    a: Seq<SpecEvent>,
    b: Seq<SpecEvent>,
    i: int,
    end: SpecEvent,
)
    requires
        crate::events::same_calls(a, b),
        end == SpecEvent::SeqEnd || end == SpecEvent::TupleEnd || end == SpecEvent::TupleStructEnd
            || end == SpecEvent::TupleVariantEnd,
    ensures
        spec_capture_values_until(a, i, end) == spec_capture_values_until(b, i, end),
    decreases a.len() - i, 1int,
{
    if 0 <= i < a.len() {
        assert(crate::events::same_call(a[i], b[i]));
        if a[i] != end {
            lemma_capture_value_no_hints(a, b, i);
            match spec_capture_value(a, i) {
                Ok((v, j)) => {
                    if i < j <= a.len() {
                        lemma_capture_values_until_no_hints(a, b, j, end);
                    }
                },
                Err(m) => {},
            }
        }
    }
}

proof fn lemma_capture_fields_until_no_hints(
    a: Seq<SpecEvent>,
    b: Seq<SpecEvent>,
    i: int,
    end: SpecEvent,
)
    requires
        crate::events::same_calls(a, b),
        end == SpecEvent::StructEnd || end == SpecEvent::StructVariantEnd,
    ensures
        spec_capture_fields_until(a, i, end) == spec_capture_fields_until(b, i, end),
    decreases a.len() - i, 1int,
{
    if 0 <= i < a.len() {
        assert(crate::events::same_call(a[i], b[i]));
        if a[i] != end {
            match a[i] {
                SpecEvent::StructField { name } => {
                    lemma_capture_value_no_hints(a, b, i + 1);
                    match spec_capture_value(a, i + 1) {
                        Ok((v, j)) => {
                            if i < j <= a.len() {
                                lemma_capture_fields_until_no_hints(a, b, j, end);
                            }
                        },
                        Err(m) => {},
                    }
                },
                _ => {},
            }
        }
    }
}

proof fn lemma_capture_entries_no_hints(
    a: Seq<SpecEvent>,
    b: Seq<SpecEvent>,
    i: int,
    staged: Option<SpecValue>,
)
    requires
        crate::events::same_calls(a, b),
    ensures
        spec_capture_entries(a, i, staged) == spec_capture_entries(b, i, staged),
    decreases a.len() - i, 1int,
{
    if 0 <= i < a.len() {
        assert(crate::events::same_call(a[i], b[i]));
        match a[i] {
            SpecEvent::MapKey => {
                if staged is None {
                    lemma_capture_value_no_hints(a, b, i + 1);
                    match spec_capture_value(a, i + 1) {
                        Ok((k, j)) => {
                            if i < j <= a.len() {
                                lemma_capture_entries_no_hints(a, b, j, Some(k));
                            }
                        },
                        Err(m) => {},
                    }
                }
            },
            SpecEvent::MapValue => {
                if staged is Some {
                    lemma_capture_value_no_hints(a, b, i + 1);
                    match spec_capture_value(a, i + 1) {
                        Ok((v, j)) => {
                            if i < j <= a.len() {
                                lemma_capture_entries_no_hints(a, b, j, Option::<SpecValue>::None);
                            }
                        },
                        Err(m) => {},
                    }
                }
            },
            _ => {},
        }
    }
}

#[derive(Clone, Copy)]
enum ListEnd {
    SeqEnd,
    TupleEnd,
    TupleStructEnd,
    TupleVariantEnd,
}

spec fn list_end_event(end: ListEnd) -> SpecEvent {
    match end {
        ListEnd::SeqEnd => SpecEvent::SeqEnd,
        ListEnd::TupleEnd => SpecEvent::TupleEnd,
        ListEnd::TupleStructEnd => SpecEvent::TupleStructEnd,
        ListEnd::TupleVariantEnd => SpecEvent::TupleVariantEnd,
    }
}

fn is_list_end(ev: &Event<'_>, end: ListEnd) -> (r: bool)
    ensures
        r == (ev@ == list_end_event(end)),
{
    match (ev, end) {
        (Event::SeqEnd, ListEnd::SeqEnd) => true,
        (Event::TupleEnd, ListEnd::TupleEnd) => true,
        (Event::TupleStructEnd, ListEnd::TupleStructEnd) => true,
        (Event::TupleVariantEnd, ListEnd::TupleVariantEnd) => true,
        _ => false,
    }
}

#[derive(Clone, Copy)]
enum FieldsEnd {
    StructEnd,
    StructVariantEnd,
}

spec fn fields_end_event(end: FieldsEnd) -> SpecEvent {
    match end {
        FieldsEnd::StructEnd => SpecEvent::StructEnd,
        FieldsEnd::StructVariantEnd => SpecEvent::StructVariantEnd,
    }
}

fn is_fields_end(ev: &Event<'_>, end: FieldsEnd) -> (r: bool)
    ensures
        r == (ev@ == fields_end_event(end)),
{
    match (ev, end) {
        (Event::StructEnd, FieldsEnd::StructEnd) => true,
        (Event::StructVariantEnd, FieldsEnd::StructVariantEnd) => true,
        _ => false,
    }
}

fn invalid_run_error() -> (e: Error)
    ensures
        e@ == invalid_run_msg(),
{
    Error::custom(("invalid event run").to_owned())
}

spec fn staged_opt_view(o: Option<Value<'static>>) -> Option<SpecValue> {
    match o {
        Some(k) => Some(value_view(k)),
        None => None,
    }
}

fn capture_value<'a>(events: &Vec<Event<'a>>, i: usize) -> (r: Result<
    (Value<'static>, usize),
    Error,
>)
    ensures
        (match (r, spec_capture_value(events_view(events@), i as int)) {
            (Ok((v, j)), Ok((sv, sj))) => v@ == sv && j as int == sj && i < j && j <= events@.len(),
            (Err(e), Err(m)) => e@ == m,
            _ => false,
        }),
    decreases events@.len() - i, 0int,
{
    let ghost e_seq = events_view(events@);
    if i >= events.len() {
        return Err(invalid_run_error());
    }
    proof {
        assert(e_seq[i as int] == events@[i as int]@);
    }
    match &events[i] {
        Event::Unit => Ok((Value::Unit, i + 1)),
        Event::Bool(b) => Ok((Value::Bool(*b), i + 1)),
        Event::I8(n) => Ok((Value::I8(*n), i + 1)),
        Event::I16(n) => Ok((Value::I16(*n), i + 1)),
        Event::I32(n) => Ok((Value::I32(*n), i + 1)),
        Event::I64(n) => Ok((Value::I64(*n), i + 1)),
        Event::I128(n) => Ok((Value::I128(*n), i + 1)),
        Event::U8(n) => Ok((Value::U8(*n), i + 1)),
        Event::U16(n) => Ok((Value::U16(*n), i + 1)),
        Event::U32(n) => Ok((Value::U32(*n), i + 1)),
        Event::U64(n) => Ok((Value::U64(*n), i + 1)),
        Event::U128(n) => Ok((Value::U128(*n), i + 1)),
        Event::F32Bits(n) => Ok((Value::F32Bits(*n), i + 1)),
        Event::F64Bits(n) => Ok((Value::F64Bits(*n), i + 1)),
        Event::Char(c) => Ok((Value::Char(*c), i + 1)),
        Event::Str(s) => Ok((Value::Str((*s).to_owned()), i + 1)),
        Event::Bytes(b) => Ok((Value::Bytes(vstd::slice::slice_to_vec(*b)), i + 1)),
        Event::OptNone => Ok((Value::OptNone, i + 1)),
        Event::OptSome => {
            match capture_value(events, i + 1) {
                Ok((v, j)) => Ok((Value::OptSome(Box::new(v)), j)),
                Err(e) => Err(e),
            }
        },
        Event::UnitStruct { name } => Ok((Value::UnitStruct { name: *name }, i + 1)),
        Event::NewtypeStruct { name } => {
            match capture_value(events, i + 1) {
                Ok((v, j)) => Ok((Value::NewtypeStruct { name: *name, value: Box::new(v) }, j)),
                Err(e) => Err(e),
            }
        },
        Event::UnitVariant { name, variant_index, variant } => Ok(
            (
                Value::UnitVariant {
                    name: *name,
                    variant_index: *variant_index,
                    variant: *variant,
                },
                i + 1,
            ),
        ),
        Event::NewtypeVariant { name, variant_index, variant } => {
            match capture_value(events, i + 1) {
                Ok((v, j)) => Ok(
                    (
                        Value::NewtypeVariant {
                            name: *name,
                            variant_index: *variant_index,
                            variant: *variant,
                            value: Box::new(v),
                        },
                        j,
                    ),
                ),
                Err(e) => Err(e),
            }
        },
        Event::SeqBegin { len } => {
            match capture_list(events, i + 1, ListEnd::SeqEnd) {
                Ok((vs, j)) => Ok((Value::Sequence(vs), j)),
                Err(e) => Err(e),
            }
        },
        Event::TupleBegin { len } => {
            match capture_list(events, i + 1, ListEnd::TupleEnd) {
                Ok((vs, j)) => Ok((Value::Tuple(vs), j)),
                Err(e) => Err(e),
            }
        },
        Event::TupleStructBegin { name, len } => {
            match capture_list(events, i + 1, ListEnd::TupleStructEnd) {
                Ok((vs, j)) => Ok((Value::TupleStruct { name: *name, fields: vs }, j)),
                Err(e) => Err(e),
            }
        },
        Event::TupleVariantBegin { name, variant_index, variant, len } => {
            match capture_list(events, i + 1, ListEnd::TupleVariantEnd) {
                Ok((vs, j)) => Ok(
                    (
                        Value::TupleVariant {
                            name: *name,
                            variant_index: *variant_index,
                            variant: *variant,
                            fields: vs,
                        },
                        j,
                    ),
                ),
                Err(e) => Err(e),
            }
        },
        Event::StructBegin { name, len } => {
            match capture_record(events, i + 1, FieldsEnd::StructEnd) {
                Ok((fs, j)) => Ok((Value::Struct { name: *name, fields: fs }, j)),
                Err(e) => Err(e),
            }
        },
        Event::StructVariantBegin { name, variant_index, variant, len } => {
            match capture_record(events, i + 1, FieldsEnd::StructVariantEnd) {
                Ok((fs, j)) => Ok(
                    (
                        Value::StructVariant {
                            name: *name,
                            variant_index: *variant_index,
                            variant: *variant,
                            fields: fs,
                        },
                        j,
                    ),
                ),
                Err(e) => Err(e),
            }
        },
        Event::MapBegin { len } => {
            match capture_entries(events, i + 1) {
                Ok((ps, j)) => Ok((Value::Mapping(ps), j)),
                Err(e) => Err(e),
            }
        },
        _ => Err(invalid_run_error()),
    }
}

fn capture_list<'a>(events: &Vec<Event<'a>>, start: usize, end: ListEnd) -> (r: Result<
    (Vec<Value<'static>>, usize),
    Error,
>)
    ensures
        (match (r, spec_capture_values_until(events_view(events@), start as int, list_end_event(end))) {
            (Ok((vs, j)), Ok((svs, sj))) => values_view(vs@) == svs && j as int == sj && start < j
                && j <= events@.len(),
            (Err(e), Err(m)) => e@ == m,
            _ => false,
        }),
    decreases events@.len() - start, 1int,
{
    let ghost e_seq = events_view(events@);
    let ghost target = spec_capture_values_until(e_seq, start as int, list_end_event(end));
    let mut acc: Vec<Value<'static>> = Vec::new();
    let mut i: usize = start;
    proof {
        lemma_values_view(acc@);
        if let Ok((rest, j)) = spec_capture_values_until(e_seq, start as int, list_end_event(end)) {
            assert(values_view(acc@) + rest =~= rest);
        }
    }
    loop
        invariant
            start <= i,
            e_seq == events_view(events@),
            target == spec_capture_values_until(e_seq, start as int, list_end_event(end)),
            (match spec_capture_values_until(e_seq, i as int, list_end_event(end)) {
                Ok((rest, j)) => target == Ok::<(Seq<SpecValue>, int), Seq<char>>(
                    (values_view(acc@) + rest, j),
                ),
                Err(m) => target == Err::<(Seq<SpecValue>, int), Seq<char>>(m),
            }),
        decreases events@.len() - i,
    {
        proof {
            if i < events@.len() {
                assert(e_seq[i as int] == events@[i as int]@);
            }
        }
        if i >= events.len() {
            return Err(invalid_run_error());
        }
        if is_list_end(&events[i], end) {
            proof {
                assert(values_view(acc@) + Seq::<SpecValue>::empty() =~= values_view(acc@));
            }
            return Ok((acc, i + 1));
        }
        let (v, j) = match capture_value(events, i) {
            Ok(x) => x,
            Err(e) => {
                return Err(e);
            },
        };
        let ghost prev_acc = acc@;
        acc.push(v);
        proof {
            lemma_values_view(prev_acc);
            lemma_values_view(acc@);
            assert(values_view(acc@) =~= values_view(prev_acc).push(v@));
            if let Ok((rest2, j2)) = spec_capture_values_until(e_seq, j as int, list_end_event(end)) {
                assert(values_view(prev_acc) + (seq![v@] + rest2) =~= values_view(acc@) + rest2);
            }
        }
        i = j;
    }
}

fn capture_record<'a>(events: &Vec<Event<'a>>, start: usize, end: FieldsEnd) -> (r: Result<
    (Vec<(&'static str, Value<'static>)>, usize),
    Error,
>)
    ensures
        (match (r, spec_capture_fields_until(events_view(events@), start as int, fields_end_event(end))) {
            (Ok((fs, j)), Ok((sfs, sj))) => fields_view(fs@) == sfs && j as int == sj && start < j
                && j <= events@.len(),
            (Err(e), Err(m)) => e@ == m,
            _ => false,
        }),
    decreases events@.len() - start, 1int,
{
    let ghost e_seq = events_view(events@);
    let ghost target = spec_capture_fields_until(e_seq, start as int, fields_end_event(end));
    let mut acc: Vec<(&'static str, Value<'static>)> = Vec::new();
    let mut i: usize = start;
    proof {
        lemma_fields_view(acc@);
        if let Ok((rest, j)) = spec_capture_fields_until(e_seq, start as int, fields_end_event(end)) {
            assert(fields_view(acc@) + rest =~= rest);
        }
    }
    loop
        invariant
            start <= i,
            e_seq == events_view(events@),
            target == spec_capture_fields_until(e_seq, start as int, fields_end_event(end)),
            (match spec_capture_fields_until(e_seq, i as int, fields_end_event(end)) {
                Ok((rest, j)) => target == Ok::<(Seq<(Seq<char>, SpecValue)>, int), Seq<char>>(
                    (fields_view(acc@) + rest, j),
                ),
                Err(m) => target == Err::<(Seq<(Seq<char>, SpecValue)>, int), Seq<char>>(m),
            }),
        decreases events@.len() - i,
    {
        proof {
            if i < events@.len() {
                assert(e_seq[i as int] == events@[i as int]@);
            }
        }
        if i >= events.len() {
            return Err(invalid_run_error());
        }
        if is_fields_end(&events[i], end) {
            proof {
                assert(fields_view(acc@) + Seq::<(Seq<char>, SpecValue)>::empty() =~= fields_view(
                    acc@,
                ));
            }
            return Ok((acc, i + 1));
        }
        let name: &'static str = match &events[i] {
            Event::StructField { name } => *name,
            _ => {
                return Err(invalid_run_error());
            },
        };
        let (v, j) = match capture_value(events, i + 1) {
            Ok(x) => x,
            Err(e) => {
                return Err(e);
            },
        };
        let ghost prev_acc = acc@;
        acc.push((name, v));
        proof {
            lemma_fields_view(prev_acc);
            lemma_fields_view(acc@);
            assert(fields_view(acc@) =~= fields_view(prev_acc).push((name@, v@)));
            if let Ok((rest2, j2)) = spec_capture_fields_until(
                e_seq,
                j as int,
                fields_end_event(end),
            ) {
                assert(fields_view(prev_acc) + (seq![(name@, v@)] + rest2) =~= fields_view(acc@)
                    + rest2);
            }
        }
        i = j;
    }
}

fn capture_entries<'a>(events: &Vec<Event<'a>>, start: usize) -> (r: Result<
    (Vec<(Value<'static>, Value<'static>)>, usize),
    Error,
>)
    ensures
        (match (r, spec_capture_entries(events_view(events@), start as int, Option::<SpecValue>::None)) {
            (Ok((ps, j)), Ok((sps, sj))) => pairs_view(ps@) == sps && j as int == sj && start < j
                && j <= events@.len(),
            (Err(e), Err(m)) => e@ == m,
            _ => false,
        }),
    decreases events@.len() - start, 1int,
{
    let ghost e_seq = events_view(events@);
    let ghost target = spec_capture_entries(e_seq, start as int, Option::<SpecValue>::None);
    let mut acc: Vec<(Value<'static>, Value<'static>)> = Vec::new();
    let mut staged: Option<Value<'static>> = None;
    let mut i: usize = start;
    proof {
        lemma_pairs_view(acc@);
        if let Ok((rest, j)) = spec_capture_entries(e_seq, start as int, Option::<SpecValue>::None) {
            assert(pairs_view(acc@) + rest =~= rest);
        }
    }
    loop
        invariant
            start <= i,
            e_seq == events_view(events@),
            target == spec_capture_entries(e_seq, start as int, Option::<SpecValue>::None),
            (match spec_capture_entries(e_seq, i as int, staged_opt_view(staged)) {
                Ok((rest, j)) => target == Ok::<(Seq<(SpecValue, SpecValue)>, int), Seq<char>>(
                    (pairs_view(acc@) + rest, j),
                ),
                Err(m) => target == Err::<(Seq<(SpecValue, SpecValue)>, int), Seq<char>>(m),
            }),
        decreases events@.len() - i,
    {
        proof {
            if i < events@.len() {
                assert(e_seq[i as int] == events@[i as int]@);
            }
        }
        if i >= events.len() {
            return Err(invalid_run_error());
        }
        match &events[i] {
            Event::MapEnd => {
                if staged.is_some() {
                    return Err(Error::custom(("missing map value").to_owned()));
                }
                proof {
                    assert(pairs_view(acc@) + Seq::<(SpecValue, SpecValue)>::empty() =~= pairs_view(
                        acc@,
                    ));
                }
                return Ok((acc, i + 1));
            },
            Event::MapKey => {
                if staged.is_some() {
                    return Err(Error::custom(("missing map value").to_owned()));
                }
                let (k, j) = match capture_value(events, i + 1) {
                    Ok(x) => x,
                    Err(e) => {
                        return Err(e);
                    },
                };
                staged = Some(k);
                i = j;
            },
            Event::MapValue => {
                let k = match staged.take() {
                    Some(k) => k,
                    None => {
                        return Err(Error::custom(("missing map key").to_owned()));
                    },
                };
                let (v, j) = match capture_value(events, i + 1) {
                    Ok(x) => x,
                    Err(e) => {
                        return Err(e);
                    },
                };
                let ghost prev_acc = acc@;
                acc.push((k, v));
                proof {
                    lemma_pairs_view(prev_acc);
                    lemma_pairs_view(acc@);
                    assert(pairs_view(acc@) =~= pairs_view(prev_acc).push((value_view(k), v@)));
                    if let Ok((rest2, j2)) = spec_capture_entries(
                        e_seq,
                        j as int,
                        Option::<SpecValue>::None,
                    ) {
                        assert(pairs_view(prev_acc) + (seq![(value_view(k), v@)] + rest2)
                            =~= pairs_view(acc@) + rest2);
                    }
                }
                i = j;
            },
            _ => {
                return Err(invalid_run_error());
            },
        }
    }
}

} // verus!
