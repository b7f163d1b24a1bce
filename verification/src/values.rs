//! The recursive document value taxonomy and the wire value message tree
//! it is converted to.  A value is a closed variant over null/optional,
//! boolean, signed integer, double, UTC timestamp, key reference, string,
//! byte blob, geographic point, nested entity (property name to value,
//! names unique, order irrelevant) and array.  Doubles and the two
//! coordinates of a geographic point are carried as their IEEE-754 bit
//! patterns, so that the layer stays exact and lossless end to end.
use vstd::prelude::*;

use crate::keys::Key;
use crate::keys::SpecKey;
use crate::keys::SpecWireKey;
use crate::keys::WireKey;

verus! {

// ---------------------------------------------------------------------
// In-memory values
// ---------------------------------------------------------------------

/// A UTC instant: seconds since the epoch and the sub-second part in
/// nanoseconds.  During a leap second the nanosecond part may run up to
/// but not reach two billion.
#[derive(Clone, Copy, Debug, PartialEq, Eq, Structural)]
pub struct Timestamp {
    pub seconds: i64,
    pub nanos: u32,
}

/// The largest nanosecond part a timestamp may carry, exclusive.
pub const MAX_TIMESTAMP_NANOS: u32 = 2_000_000_000;

/// A storable datum.
pub enum Value {
    /// An optional wrapping of any other variant; `None` is the null value.
    OptionValue(Option<Box<Value>>),
    BooleanValue(bool),
    IntegerValue(i64),
    /// A double, as its IEEE-754 bit pattern.
    DoubleValue(u64),
    TimestampValue(Timestamp),
    /// A reference to another entity by key.
    KeyValue(Key),
    StringValue(String),
    BlobValue(Vec<u8>),
    /// Latitude and longitude, each as its IEEE-754 bit pattern.
    GeoPointValue(u64, u64),
    /// A nested entity: property name to value, names unique.
    EntityValue(Vec<(String, Value)>),
    ArrayValue(Vec<Value>),
}

/// Mathematical model of a value.
pub enum SpecValue {
    OptionValue(Option<Box<SpecValue>>),
    BooleanValue(bool),
    IntegerValue(i64),
    DoubleValue(u64),
    TimestampValue(Timestamp),
    KeyValue(SpecKey),
    StringValue(Seq<char>),
    BlobValue(Seq<u8>),
    GeoPointValue(u64, u64),
    EntityValue(Seq<(Seq<char>, SpecValue)>),
    ArrayValue(Seq<SpecValue>),
}

pub open spec fn value_view(v: Value) -> SpecValue
    decreases v,
{
    match v {
        Value::OptionValue(o) => match o {
            Option::Some(b) => SpecValue::OptionValue(Option::Some(Box::new(value_view(*b)))),
            Option::None => SpecValue::OptionValue(Option::None),
        },
        Value::BooleanValue(b) => SpecValue::BooleanValue(b),
        Value::IntegerValue(n) => SpecValue::IntegerValue(n),
        Value::DoubleValue(bits) => SpecValue::DoubleValue(bits),
        Value::TimestampValue(t) => SpecValue::TimestampValue(t),
        Value::KeyValue(k) => SpecValue::KeyValue(k@),
        Value::StringValue(s) => SpecValue::StringValue(s@),
        Value::BlobValue(b) => SpecValue::BlobValue(b@),
        Value::GeoPointValue(lat, lng) => SpecValue::GeoPointValue(lat, lng),
        Value::EntityValue(props) => {
            proof {
                vstd::std_specs::vec::axiom_vec_decreases_to_view(props);
                assert(decreases_to!(v => props@));
            }
            SpecValue::EntityValue(props_view(props@))
        },
        Value::ArrayValue(vs) => {
            proof {
                vstd::std_specs::vec::axiom_vec_decreases_to_view(vs);
                assert(decreases_to!(v => vs@));
            }
            SpecValue::ArrayValue(values_view(vs@))
        },
    }
}

pub open spec fn props_view(s: Seq<(String, Value)>) -> Seq<(Seq<char>, SpecValue)>
    decreases s,
{
    if s.len() == 0 {
        Seq::empty()
    } else {
        proof {
            vstd::seq::axiom_seq_index_decreases(s, 0);
            assert(decreases_to!(s[0] => s[0].1));
            vstd::seq::axiom_seq_subrange_decreases(s, 1, s.len() as int);
        }
        seq![(s[0].0@, value_view(s[0].1))] + props_view(s.subrange(1, s.len() as int))
    }
}

pub open spec fn values_view(s: Seq<Value>) -> Seq<SpecValue>
    decreases s,
{
    if s.len() == 0 {
        Seq::empty()
    } else {
        proof {
            vstd::seq::axiom_seq_index_decreases(s, 0);
            vstd::seq::axiom_seq_subrange_decreases(s, 1, s.len() as int);
        }
        seq![value_view(s[0])] + values_view(s.subrange(1, s.len() as int))
    }
}

impl View for Value {
    type V = SpecValue;

    open spec fn view(&self) -> SpecValue {
        value_view(*self)
    }
}

/// The views of a property list line up with the list itself.
pub proof fn lemma_props_view(s: Seq<(String, Value)>)
    ensures
        props_view(s).len() == s.len(),
        forall|i: int|
            0 <= i < s.len() ==> #[trigger] props_view(s)[i] == (s[i].0@, value_view(s[i].1)),
    decreases s,
{
    if s.len() > 0 {
        lemma_props_view(s.subrange(1, s.len() as int));
    }
}

/// The views of a value list line up with the list itself.
pub proof fn lemma_values_view(s: Seq<Value>)
    ensures
        values_view(s).len() == s.len(),
        forall|i: int| 0 <= i < s.len() ==> #[trigger] values_view(s)[i] == value_view(s[i]),
    decreases s,
{
    if s.len() > 0 {
        lemma_values_view(s.subrange(1, s.len() as int));
    }
}

/// Well-formedness of a value: every timestamp's nanosecond part is in
/// range, everywhere in the tree.
pub open spec fn value_wf(v: SpecValue) -> bool
    decreases v,
{
    match v {
        SpecValue::OptionValue(o) => match o {
            Option::Some(b) => value_wf(*b),
            Option::None => true,
        },
        SpecValue::TimestampValue(t) => t.nanos < MAX_TIMESTAMP_NANOS,
        SpecValue::EntityValue(props) => props_wf(props),
        SpecValue::ArrayValue(vs) => spec_values_wf(vs),
        _ => true,
    }
}

/// Well-formedness of every value of a property list.
pub open spec fn props_wf(s: Seq<(Seq<char>, SpecValue)>) -> bool
    decreases s,
{
    if s.len() == 0 {
        true
    } else {
        proof {
            vstd::seq::axiom_seq_index_decreases(s, 0);
            assert(decreases_to!(s[0] => s[0].1));
            vstd::seq::axiom_seq_subrange_decreases(s, 1, s.len() as int);
        }
        value_wf(s[0].1) && props_wf(s.subrange(1, s.len() as int))
    }
}

/// Well-formedness of every value of a list.
pub open spec fn spec_values_wf(s: Seq<SpecValue>) -> bool
    decreases s,
{
    if s.len() == 0 {
        true
    } else {
        proof {
            vstd::seq::axiom_seq_index_decreases(s, 0);
            vstd::seq::axiom_seq_subrange_decreases(s, 1, s.len() as int);
        }
        value_wf(s[0]) && spec_values_wf(s.subrange(1, s.len() as int))
    }
}

impl Value {
    /// The name of this value's variant, for error reports.
    pub fn variant_name(&self) -> (r: &'static str)
        ensures
            r@ == spec_variant_name(self@),
    {
        match self {
            Value::OptionValue(_) => "optional",
            Value::BooleanValue(_) => "boolean",
            Value::IntegerValue(_) => "integer",
            Value::DoubleValue(_) => "double",
            Value::TimestampValue(_) => "timestamp",
            Value::KeyValue(_) => "key",
            Value::StringValue(_) => "string",
            Value::BlobValue(_) => "blob",
            Value::GeoPointValue(_, _) => "geopoint",
            Value::EntityValue(_) => "entity",
            Value::ArrayValue(_) => "array",
        }
    }
}

/// The name of a value variant, for error reports.
pub open spec fn spec_variant_name(v: SpecValue) -> Seq<char> {
    match v {
        SpecValue::OptionValue(_) => "optional"@,
        SpecValue::BooleanValue(_) => "boolean"@,
        SpecValue::IntegerValue(_) => "integer"@,
        SpecValue::DoubleValue(_) => "double"@,
        SpecValue::TimestampValue(_) => "timestamp"@,
        SpecValue::KeyValue(_) => "key"@,
        SpecValue::StringValue(_) => "string"@,
        SpecValue::BlobValue(_) => "blob"@,
        SpecValue::GeoPointValue(_, _) => "geopoint"@,
        SpecValue::EntityValue(_) => "entity"@,
        SpecValue::ArrayValue(_) => "array"@,
    }
}

// ---------------------------------------------------------------------
// Deep comparison
// ---------------------------------------------------------------------

/// Byte-for-byte comparison of two blobs.
fn bytes_eq(a: &Vec<u8>, b: &Vec<u8>) -> (r: bool)
    ensures
        r == (a@ == b@),
{
    if a.len() != b.len() {
        return false;
    }
    let mut i: usize = 0;
    while i < a.len()
        invariant
            0 <= i <= a.len(),
            a@.len() == b@.len(),
            forall|m: int| 0 <= m < i ==> a@[m] == b@[m],
        decreases a.len() - i,
    {
        if a[i] != b[i] {
            return false;
        }
        i = i + 1;
    }
    proof {
        assert(a@ =~= b@);
    }
    true
}

/// Deep structural comparison of two values: true exactly when they
/// model the same datum.
pub fn value_eq(a: &Value, b: &Value) -> (r: bool)
    ensures
        r == (a@ == b@),
    decreases *a, 0int,
{
    let ghost av = a@;
    let ghost bv = b@;
    match (a, b) {
        (Value::OptionValue(x), Value::OptionValue(y)) => match (x, y) {
            (Option::None, Option::None) => true,
            (Option::Some(bx), Option::Some(by)) => {
                let same = value_eq(bx, by);
                proof {
                    assert(av == SpecValue::OptionValue(
                        Option::Some(Box::new(value_view(**bx))),
                    ));
                    assert(bv == SpecValue::OptionValue(
                        Option::Some(Box::new(value_view(**by))),
                    ));
                }
                same
            },
            _ => false,
        },
        (Value::BooleanValue(x), Value::BooleanValue(y)) => *x == *y,
        (Value::IntegerValue(x), Value::IntegerValue(y)) => *x == *y,
        (Value::DoubleValue(x), Value::DoubleValue(y)) => *x == *y,
        (Value::TimestampValue(x), Value::TimestampValue(y)) => *x == *y,
        (Value::KeyValue(x), Value::KeyValue(y)) => {
            let same = crate::keys::key_eq(x, y) && x.is_new == y.is_new;
            proof {
                if x@ == y@ {
                    assert(crate::keys::key_matches(x@, y@));
                }
                if same {
                    assert(x@ == y@);
                }
            }
            same
        },
        (Value::StringValue(x), Value::StringValue(y)) => x.eq(y),
        (Value::BlobValue(x), Value::BlobValue(y)) => bytes_eq(x, y),
        (Value::GeoPointValue(xa, xb), Value::GeoPointValue(ya, yb)) => *xa == *ya && *xb == *yb,
        (Value::EntityValue(pa), Value::EntityValue(pb)) => {
            proof {
                vstd::std_specs::vec::axiom_vec_decreases_to_view(*pa);
                assert(decreases_to!(*a => pa@));
            }
            props_eq(pa, pb)
        },
        (Value::ArrayValue(va), Value::ArrayValue(vb)) => {
            proof {
                vstd::std_specs::vec::axiom_vec_decreases_to_view(*va);
                assert(decreases_to!(*a => va@));
            }
            elems_eq(va, vb)
        },
        _ => false,
    }
}

/// Deep comparison of two property lists, names and values, in order.
#[verifier::loop_isolation(false)]
fn props_eq(a: &Vec<(String, Value)>, b: &Vec<(String, Value)>) -> (r: bool)
    ensures
        r == (props_view(a@) == props_view(b@)),
    decreases a@, 1int,
{
    proof {
        lemma_props_view(a@);
        lemma_props_view(b@);
    }
    if a.len() != b.len() {
        proof {
            assert(props_view(a@).len() != props_view(b@).len());
        }
        return false;
    }
    let mut i: usize = 0;
    while i < a.len()
        invariant
            0 <= i <= a.len(),
            a@.len() == b@.len(),
            forall|m: int| 0 <= m < i ==> props_view(a@)[m] == props_view(b@)[m],
        decreases a.len() - i,
    {
        proof {
            vstd::seq::axiom_seq_index_decreases(a@, i as int);
            assert(decreases_to!(a@[i as int] => a@[i as int].1));
        }
        let name_same = a[i].0.eq(&b[i].0);
        let value_same = value_eq(&a[i].1, &b[i].1);
        if !(name_same && value_same) {
            proof {
                assert(props_view(a@)[i as int] != props_view(b@)[i as int]);
            }
            return false;
        }
        i = i + 1;
    }
    proof {
        assert(props_view(a@) =~= props_view(b@));
    }
    true
}

/// Deep comparison of two value lists, in order.
#[verifier::loop_isolation(false)]
fn elems_eq(a: &Vec<Value>, b: &Vec<Value>) -> (r: bool)
    ensures
        r == (values_view(a@) == values_view(b@)),
    decreases a@, 1int,
{
    proof {
        lemma_values_view(a@);
        lemma_values_view(b@);
    }
    if a.len() != b.len() {
        proof {
            assert(values_view(a@).len() != values_view(b@).len());
        }
        return false;
    }
    let mut i: usize = 0;
    while i < a.len()
        invariant
            0 <= i <= a.len(),
            a@.len() == b@.len(),
            forall|m: int| 0 <= m < i ==> values_view(a@)[m] == values_view(b@)[m],
        decreases a.len() - i,
    {
        proof {
            vstd::seq::axiom_seq_index_decreases(a@, i as int);
        }
        let value_same = value_eq(&a[i], &b[i]);
        if !value_same {
            proof {
                assert(values_view(a@)[i as int] != values_view(b@)[i as int]);
            }
            return false;
        }
        i = i + 1;
    }
    proof {
        assert(values_view(a@) =~= values_view(b@));
    }
    true
}

// ---------------------------------------------------------------------
// Entities
// ---------------------------------------------------------------------

/// A key paired with the entity's properties.  The properties must be
/// the entity variant of `Value`; anything else at this level is a
/// programming error and is rejected before conversion.
pub struct Entity {
    pub key: Key,
    pub properties: Value,
}

/// Mathematical model of an entity.
pub struct SpecEntity {
    pub key: SpecKey,
    pub properties: SpecValue,
}

impl View for Entity {
    type V = SpecEntity;

    open spec fn view(&self) -> SpecEntity {
        SpecEntity { key: self.key@, properties: self.properties@ }
    }
}

/// An entity's properties are a property mapping.
pub open spec fn entity_wf(e: SpecEntity) -> bool {
    e.properties is EntityValue
}

impl Entity {
    /// Pairs a key with a property mapping.  A non-entity value at the
    /// top level of an entity is refused.
    pub fn new(key: Key, properties: Value) -> (r: Result<Entity, crate::Error>)
        ensures
            properties@ is EntityValue ==> r is Ok && r->Ok_0@ == (SpecEntity {
                key: key@,
                properties: properties@,
            }),
            !(properties@ is EntityValue) ==> r is Err && r->Err_0 is UnexpectedPropertyType,
    {
        match &properties {
            Value::EntityValue(_) => Result::Ok(Entity { key, properties }),
            _ => {
                let got = properties.variant_name();
                Result::Err(crate::Error::UnexpectedPropertyType {
                    expected: expected_entity_name(),
                    got: got.to_owned(),
                })
            },
        }
    }
}

/// The variant name demanded of a top-level entity value.
fn expected_entity_name() -> (r: String)
    ensures
        r@ == "entity"@,
{
    let s: &str = "entity";
    s.to_owned()
}

// ---------------------------------------------------------------------
// Wire values
// ---------------------------------------------------------------------

/// The wire timestamp message: seconds and nanoseconds.
#[derive(Clone, Copy, Debug, PartialEq, Eq, Structural)]
pub struct WireTimestamp {
    pub seconds: i64,
    pub nanos: i32,
}

/// The wire geographic point: latitude and longitude, each as its
/// IEEE-754 bit pattern.
#[derive(Clone, Copy, Debug, PartialEq, Eq, Structural)]
pub struct WireLatLng {
    pub latitude: u64,
    pub longitude: u64,
}

/// The wire value message: the datum itself plus the derived
/// exclude-from-indexes marking and the reserved meaning tag.
pub struct WireValue {
    pub meaning: i32,
    pub exclude_from_indexes: bool,
    pub value_type: Option<WireValueType>,
}

/// The variants a wire value can carry.
pub enum WireValueType {
    NullValue(i32),
    BooleanValue(bool),
    IntegerValue(i64),
    DoubleValue(u64),
    TimestampValue(WireTimestamp),
    KeyValue(WireKey),
    StringValue(String),
    BlobValue(Vec<u8>),
    GeoPointValue(WireLatLng),
    EntityValue(WireEntity),
    ArrayValue(WireArrayValue),
}

/// The wire entity message: an optional key and the property mapping.
pub struct WireEntity {
    pub key: Option<WireKey>,
    pub properties: Vec<(String, WireValue)>,
}

/// The wire array message.
pub struct WireArrayValue {
    pub values: Vec<WireValue>,
}

pub struct SpecWireValue {
    pub meaning: i32,
    pub exclude_from_indexes: bool,
    pub value_type: Option<SpecWireValueType>,
}

pub enum SpecWireValueType {
    NullValue(i32),
    BooleanValue(bool),
    IntegerValue(i64),
    DoubleValue(u64),
    TimestampValue(WireTimestamp),
    KeyValue(SpecWireKey),
    StringValue(Seq<char>),
    BlobValue(Seq<u8>),
    GeoPointValue(WireLatLng),
    EntityValue(SpecWireEntity),
    ArrayValue(Seq<SpecWireValue>),
}

pub struct SpecWireEntity {
    pub key: Option<SpecWireKey>,
    pub properties: Seq<(Seq<char>, SpecWireValue)>,
}

pub open spec fn wire_value_view(v: WireValue) -> SpecWireValue
    decreases v,
{
    SpecWireValue {
        meaning: v.meaning,
        exclude_from_indexes: v.exclude_from_indexes,
        value_type: match v.value_type {
            Option::Some(t) => Option::Some(wire_value_type_view(t)),
            Option::None => Option::None,
        },
    }
}

pub open spec fn wire_value_type_view(t: WireValueType) -> SpecWireValueType
    decreases t,
{
    match t {
        WireValueType::NullValue(n) => SpecWireValueType::NullValue(n),
        WireValueType::BooleanValue(b) => SpecWireValueType::BooleanValue(b),
        WireValueType::IntegerValue(n) => SpecWireValueType::IntegerValue(n),
        WireValueType::DoubleValue(bits) => SpecWireValueType::DoubleValue(bits),
        WireValueType::TimestampValue(ts) => SpecWireValueType::TimestampValue(ts),
        WireValueType::KeyValue(k) => SpecWireValueType::KeyValue(k@),
        WireValueType::StringValue(s) => SpecWireValueType::StringValue(s@),
        WireValueType::BlobValue(b) => SpecWireValueType::BlobValue(b@),
        WireValueType::GeoPointValue(g) => SpecWireValueType::GeoPointValue(g),
        WireValueType::EntityValue(e) => SpecWireValueType::EntityValue(wire_entity_view(e)),
        WireValueType::ArrayValue(a) => {
            proof {
                vstd::std_specs::vec::axiom_vec_decreases_to_view(a.values);
                assert(decreases_to!(t => a.values@));
            }
            SpecWireValueType::ArrayValue(wire_values_view(a.values@))
        },
    }
}

pub open spec fn wire_entity_view(e: WireEntity) -> SpecWireEntity
    decreases e,
{
    proof {
        vstd::std_specs::vec::axiom_vec_decreases_to_view(e.properties);
        assert(decreases_to!(e => e.properties@));
    }
    SpecWireEntity {
        key: match e.key {
            Option::Some(k) => Option::Some(k@),
            Option::None => Option::None,
        },
        properties: wire_props_view(e.properties@),
    }
}

pub open spec fn wire_props_view(s: Seq<(String, WireValue)>) -> Seq<(Seq<char>, SpecWireValue)>
    decreases s,
{
    if s.len() == 0 {
        Seq::empty()
    } else {
        proof {
            vstd::seq::axiom_seq_index_decreases(s, 0);
            assert(decreases_to!(s[0] => s[0].1));
            vstd::seq::axiom_seq_subrange_decreases(s, 1, s.len() as int);
        }
        seq![(s[0].0@, wire_value_view(s[0].1))] + wire_props_view(s.subrange(1, s.len() as int))
    }
}

pub open spec fn wire_values_view(s: Seq<WireValue>) -> Seq<SpecWireValue>
    decreases s,
{
    if s.len() == 0 {
        Seq::empty()
    } else {
        proof {
            vstd::seq::axiom_seq_index_decreases(s, 0);
            vstd::seq::axiom_seq_subrange_decreases(s, 1, s.len() as int);
        }
        seq![wire_value_view(s[0])] + wire_values_view(s.subrange(1, s.len() as int))
    }
}

impl View for WireValue {
    type V = SpecWireValue;

    open spec fn view(&self) -> SpecWireValue {
        wire_value_view(*self)
    }
}

impl View for WireValueType {
    type V = SpecWireValueType;

    open spec fn view(&self) -> SpecWireValueType {
        wire_value_type_view(*self)
    }
}

impl View for WireEntity {
    type V = SpecWireEntity;

    open spec fn view(&self) -> SpecWireEntity {
        wire_entity_view(*self)
    }
}

/// The views of a wire property list line up with the list itself.
pub proof fn lemma_wire_props_view(s: Seq<(String, WireValue)>)
    ensures
        wire_props_view(s).len() == s.len(),
        forall|i: int|
            0 <= i < s.len() ==> #[trigger] wire_props_view(s)[i] == (
                s[i].0@,
                wire_value_view(s[i].1),
            ),
    decreases s,
{
    if s.len() > 0 {
        lemma_wire_props_view(s.subrange(1, s.len() as int));
    }
}

/// The views of a wire value list line up with the list itself.
pub proof fn lemma_wire_values_view(s: Seq<WireValue>)
    ensures
        wire_values_view(s).len() == s.len(),
        forall|i: int|
            0 <= i < s.len() ==> #[trigger] wire_values_view(s)[i] == wire_value_view(s[i]),
    decreases s,
{
    if s.len() > 0 {
        lemma_wire_values_view(s.subrange(1, s.len() as int));
    }
}

// ---------------------------------------------------------------------
// Timestamps from the clock library
// ---------------------------------------------------------------------

#[verifier::external_type_specification]
#[verifier::external_body]
pub struct ExNaiveDateTime(chrono::NaiveDateTime);

/// Relies on chrono's `NaiveDateTime::and_utc`, `DateTime::timestamp`
/// and `DateTime::timestamp_subsec_nanos`: the seconds since the epoch
/// and the sub-second nanoseconds of the instant, the latter below two
/// billion (it exceeds a second only during a leap second).
#[verifier::external_body]
fn timestamp_parts(dt: &chrono::NaiveDateTime) -> (r: (i64, u32))
    ensures
        r.1 < MAX_TIMESTAMP_NANOS,
{
    let utc = dt.and_utc();
    (utc.timestamp(), utc.timestamp_subsec_nanos())
}

impl Timestamp {
    /// The timestamp of a calendar datetime, read on the UTC timeline.
    pub fn from_datetime(dt: &chrono::NaiveDateTime) -> (r: Timestamp)
        ensures
            r.nanos < MAX_TIMESTAMP_NANOS,
    {
        let (seconds, nanos) = timestamp_parts(dt);
        Timestamp { seconds, nanos }
    }
}

} // verus!
