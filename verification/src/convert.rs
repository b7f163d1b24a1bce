//! Conversion between the document value tree and the wire value tree,
//! in both directions, with the index-exclusion policy applied on the
//! way out.  Every produced wire value carries a derived
//! exclude-from-indexes marking: an array is never excluded at its own
//! node (arrays are excluded element-wise), an optional defers to what
//! it wraps when that is an array, and everything else inherits the
//! ambient decision.  Descending into a nested entity narrows the
//! dot-path set by the property's name, which scopes exclusion per
//! branch.
use vstd::prelude::*;

use crate::exclude::IndexExcluded;
use crate::exclude::check_exclude_from_indexes;
use crate::exclude::clone_string_vec;
use crate::exclude::get_exclude_from_indexes;
use crate::exclude::spec_exact;
use crate::exclude::spec_narrow;
use crate::exclude::spec_policy_paths;
use crate::exclude::strings_view;
use crate::keys::convert_key;
use crate::keys::key_from_wire;
use crate::keys::lemma_key_path_nonempty;
use crate::keys::spec_key_from_wire;
use crate::keys::spec_key_to_wire;
use crate::values::Entity;
use crate::values::SpecEntity;
use crate::values::SpecValue;
use crate::values::SpecWireEntity;
use crate::values::SpecWireValue;
use crate::values::SpecWireValueType;
use crate::values::Timestamp;
use crate::values::Value;
use crate::values::WireEntity;
use crate::values::WireLatLng;
use crate::values::WireTimestamp;
use crate::values::WireValue;
use crate::values::WireValueType;
use crate::values::props_view;
use crate::values::value_view;
use crate::values::values_view;
use crate::values::wire_props_view;
use crate::values::wire_value_view;
use crate::values::wire_values_view;

verus! {

// ---------------------------------------------------------------------
// To the wire: specification
// ---------------------------------------------------------------------

/// The exclude-from-indexes marking of a node: an array is never
/// excluded at its own node; an optional wrapping an array defers to
/// the array's rule; everything else inherits the ambient decision.
pub open spec fn spec_exclude_flag(v: SpecValue, ambient: bool) -> bool {
    match v {
        SpecValue::OptionValue(o) => match o {
            Option::Some(b) => if *b is ArrayValue {
                false
            } else {
                ambient
            },
            Option::None => ambient,
        },
        SpecValue::ArrayValue(_) => false,
        _ => ambient,
    }
}

/// The wire form of a value: the derived exclusion marking, the
/// reserved meaning tag at zero, and the converted datum.
pub open spec fn spec_convert_value(
    v: SpecValue,
    paths: Seq<Seq<char>>,
    ambient: bool,
    project: Seq<char>,
) -> SpecWireValue
    decreases v, 1int,
{
    SpecWireValue {
        meaning: 0,
        exclude_from_indexes: spec_exclude_flag(v, ambient),
        value_type: Option::Some(spec_convert_value_type(v, paths, ambient, project)),
    }
}

/// The wire variant of a value.  An optional is flattened: what it
/// wraps is converted in place, and null becomes the wire null.  A
/// nested entity narrows the path set by each property's name before
/// recursing; array elements inherit the ambient decision unchanged.
pub open spec fn spec_convert_value_type(
    v: SpecValue,
    paths: Seq<Seq<char>>,
    ambient: bool,
    project: Seq<char>,
) -> SpecWireValueType
    decreases v, 0int,
{
    match v {
        SpecValue::OptionValue(o) => match o {
            Option::Some(b) => spec_convert_value_type(*b, paths, ambient, project),
            Option::None => SpecWireValueType::NullValue(0),
        },
        SpecValue::BooleanValue(b) => SpecWireValueType::BooleanValue(b),
        SpecValue::IntegerValue(n) => SpecWireValueType::IntegerValue(n),
        SpecValue::DoubleValue(bits) => SpecWireValueType::DoubleValue(bits),
        SpecValue::TimestampValue(t) => SpecWireValueType::TimestampValue(
            WireTimestamp { seconds: t.seconds, nanos: t.nanos as i32 },
        ),
        SpecValue::KeyValue(k) => SpecWireValueType::KeyValue(spec_key_to_wire(k, project)),
        SpecValue::StringValue(s) => SpecWireValueType::StringValue(s),
        SpecValue::BlobValue(b) => SpecWireValueType::BlobValue(b),
        SpecValue::GeoPointValue(lat, lng) => SpecWireValueType::GeoPointValue(
            WireLatLng { latitude: lat, longitude: lng },
        ),
        SpecValue::EntityValue(props) => SpecWireValueType::EntityValue(
            SpecWireEntity { key: Option::None, properties: spec_convert_props(props, paths, project) },
        ),
        SpecValue::ArrayValue(vs) => SpecWireValueType::ArrayValue(
            spec_convert_elems(vs, paths, ambient, project),
        ),
    }
}

/// Each property converted under the path set narrowed by its name;
/// the narrowed set's exact-match signal is the property's ambient
/// exclusion decision.
pub open spec fn spec_convert_props(
    s: Seq<(Seq<char>, SpecValue)>,
    paths: Seq<Seq<char>>,
    project: Seq<char>,
) -> Seq<(Seq<char>, SpecWireValue)>
    decreases s, 2int,
{
    if s.len() == 0 {
        Seq::empty()
    } else {
        proof {
            vstd::seq::axiom_seq_index_decreases(s, 0);
            assert(decreases_to!(s[0] => s[0].1));
            vstd::seq::axiom_seq_subrange_decreases(s, 1, s.len() as int);
        }
        let narrowed = spec_narrow(paths, s[0].0);
        seq![
            (s[0].0, spec_convert_value(s[0].1, narrowed, spec_exact(narrowed), project)),
        ] + spec_convert_props(s.subrange(1, s.len() as int), paths, project)
    }
}

/// Each array element converted under the unchanged path set and
/// ambient decision.
pub open spec fn spec_convert_elems(
    s: Seq<SpecValue>,
    paths: Seq<Seq<char>>,
    ambient: bool,
    project: Seq<char>,
) -> Seq<SpecWireValue>
    decreases s, 2int,
{
    if s.len() == 0 {
        Seq::empty()
    } else {
        proof {
            vstd::seq::axiom_seq_index_decreases(s, 0);
            vstd::seq::axiom_seq_subrange_decreases(s, 1, s.len() as int);
        }
        seq![spec_convert_value(s[0], paths, ambient, project)] + spec_convert_elems(
            s.subrange(1, s.len() as int),
            paths,
            ambient,
            project,
        )
    }
}

/// The wire form of a whole entity: its key under the given project,
/// and each property converted under the policy's path set for the
/// entity's kind, narrowed by the property's name.
pub open spec fn spec_convert_entity(
    e: SpecEntity,
    ix: IndexExcluded,
    project: Seq<char>,
) -> SpecWireEntity
    recommends
        e.properties is EntityValue,
{
    SpecWireEntity {
        key: Option::Some(spec_key_to_wire(e.key, project)),
        properties: spec_convert_props(
            e.properties->EntityValue_0,
            spec_policy_paths(ix, e.key.path.last().kind),
            project,
        ),
    }
}

// ---------------------------------------------------------------------
// To the wire: executable
// ---------------------------------------------------------------------

/// The derived exclude-from-indexes marking of this node.
fn exclude_flag(value: &Value, ambient: bool) -> (r: bool)
    ensures
        r == spec_exclude_flag(value@, ambient),
{
    match value {
        Value::OptionValue(o) => match o {
            Option::Some(b) => {
                proof {
                    assert(value@ == SpecValue::OptionValue(
                        Option::Some(Box::new(value_view(**b))),
                    ));
                    let bb = Box::new(value_view(**b));
                    assert(*bb == value_view(**b));
                }
                match &**b {
                    Value::ArrayValue(_) => {
                        proof {
                            assert(value_view(**b) is ArrayValue);
                            assert(spec_exclude_flag(value@, ambient) == false);
                        }
                        false
                    },
                    _ => ambient,
                }
            },
            Option::None => ambient,
        },
        Value::ArrayValue(_) => false,
        _ => ambient,
    }
}

/// The wire form of one value under an already-narrowed path set and
/// the ambient exclusion decision.
pub fn convert_value(
    project_name: &str,
    value: Value,
    path_excluded: Vec<String>,
    index_excluded: bool,
) -> (r: WireValue)
    ensures
        r@ == spec_convert_value(
            value@,
            strings_view(path_excluded@),
            index_excluded,
            project_name@,
        ),
    decreases value, 1int,
{
    let flag = exclude_flag(&value, index_excluded);
    let t = convert_value_type(project_name, value, path_excluded, index_excluded);
    WireValue { meaning: 0, exclude_from_indexes: flag, value_type: Option::Some(t) }
}

/// The wire variant of one value.
pub fn convert_value_type(
    project_name: &str,
    value: Value,
    path_excluded: Vec<String>,
    index_excluded: bool,
) -> (r: WireValueType)
    ensures
        r@ == spec_convert_value_type(
            value@,
            strings_view(path_excluded@),
            index_excluded,
            project_name@,
        ),
    decreases value, 0int,
{
    let ghost v0 = value;
    match value {
        Value::OptionValue(o) => match o {
            Option::Some(b) => convert_value_type(project_name, *b, path_excluded, index_excluded),
            Option::None => WireValueType::NullValue(0),
        },
        Value::BooleanValue(b) => WireValueType::BooleanValue(b),
        Value::IntegerValue(n) => WireValueType::IntegerValue(n),
        Value::DoubleValue(bits) => WireValueType::DoubleValue(bits),
        Value::TimestampValue(t) => WireValueType::TimestampValue(
            WireTimestamp { seconds: t.seconds, nanos: #[verifier::truncate] (t.nanos as i32) },
        ),
        Value::KeyValue(k) => WireValueType::KeyValue(convert_key(project_name, &k)),
        Value::StringValue(s) => WireValueType::StringValue(s),
        Value::BlobValue(bs) => WireValueType::BlobValue(bs),
        Value::GeoPointValue(lat, lng) => WireValueType::GeoPointValue(
            WireLatLng { latitude: lat, longitude: lng },
        ),
        Value::EntityValue(props) => {
            proof {
                vstd::std_specs::vec::axiom_vec_decreases_to_view(props);
                assert(decreases_to!(v0 => props@));
            }
            let out = convert_props_with(project_name, props, &path_excluded);
            WireValueType::EntityValue(WireEntity { key: Option::None, properties: out })
        },
        Value::ArrayValue(vs) => {
            proof {
                vstd::std_specs::vec::axiom_vec_decreases_to_view(vs);
                assert(decreases_to!(v0 => vs@));
            }
            let out = convert_elems_with(project_name, vs, &path_excluded, index_excluded);
            WireValueType::ArrayValue(crate::values::WireArrayValue { values: out })
        },
    }
}

/// Converts a property list: each property under the base path set
/// narrowed by its name.
fn convert_props_with(
    project_name: &str,
    props: Vec<(String, Value)>,
    base: &Vec<String>,
) -> (r: Vec<(String, WireValue)>)
    ensures
        wire_props_view(r@) == spec_convert_props(
            props_view(props@),
            strings_view(base@),
            project_name@,
        ),
    decreases props@, 2int,
{
    let ghost s0 = props@;
    let mut props = props;
    if props.len() == 0 {
        proof {
            assert(wire_props_view(Seq::<(String, WireValue)>::empty()) =~= Seq::<
                (Seq<char>, SpecWireValue),
            >::empty());
        }
        return Vec::new();
    }
    proof {
        vstd::seq::axiom_seq_index_decreases(s0, 0);
        assert(decreases_to!(s0[0] => s0[0].1));
        vstd::seq::axiom_seq_subrange_decreases(s0, 1, s0.len() as int);
    }
    let (k, v) = props.remove(0);
    proof {
        assert(props@ =~= s0.subrange(1, s0.len() as int));
    }
    let new_list = get_exclude_from_indexes(clone_string_vec(base), k.clone());
    let flag = check_exclude_from_indexes(clone_string_vec(&new_list));
    let wire = convert_value(project_name, v, new_list, flag);
    let mut rest = convert_props_with(project_name, props, base);
    let ghost rest0 = rest@;
    let mut out: Vec<(String, WireValue)> = Vec::new();
    out.push((k, wire));
    out.append(&mut rest);
    proof {
        let paths = strings_view(base@);
        let pv = props_view(s0);
        let target = spec_convert_props(pv, paths, project_name@);
        crate::values::lemma_props_view(s0);
        crate::values::lemma_props_view(s0.subrange(1, s0.len() as int));
        assert(pv[0] == (k@, value_view(v)));
        assert(pv.subrange(1, pv.len() as int) =~= props_view(s0.subrange(1, s0.len() as int)));
        let narrowed = spec_narrow(paths, pv[0].0);
        assert(target == seq![
            (pv[0].0, spec_convert_value(pv[0].1, narrowed, spec_exact(narrowed), project_name@)),
        ] + spec_convert_props(pv.subrange(1, pv.len() as int), paths, project_name@));
        assert(wire@ == spec_convert_value(
            pv[0].1,
            narrowed,
            spec_exact(narrowed),
            project_name@,
        ));
        assert(out@.subrange(1, out@.len() as int) =~= rest0);
        assert(wire_props_view(out@) == seq![(out@[0].0@, wire_value_view(out@[0].1))]
            + wire_props_view(out@.subrange(1, out@.len() as int)));
        assert(wire_props_view(out@) =~= target);
    }
    out
}

/// Converts an array's elements: each under the unchanged path set and
/// ambient decision.
fn convert_elems_with(
    project_name: &str,
    vs: Vec<Value>,
    base: &Vec<String>,
    ambient: bool,
) -> (r: Vec<WireValue>)
    ensures
        wire_values_view(r@) == spec_convert_elems(
            values_view(vs@),
            strings_view(base@),
            ambient,
            project_name@,
        ),
    decreases vs@, 2int,
{
    let ghost s0 = vs@;
    let mut vs = vs;
    if vs.len() == 0 {
        proof {
            assert(wire_values_view(Seq::<WireValue>::empty()) =~= Seq::<SpecWireValue>::empty());
        }
        return Vec::new();
    }
    proof {
        vstd::seq::axiom_seq_index_decreases(s0, 0);
        vstd::seq::axiom_seq_subrange_decreases(s0, 1, s0.len() as int);
    }
    let v = vs.remove(0);
    proof {
        assert(vs@ =~= s0.subrange(1, s0.len() as int));
    }
    let wire = convert_value(project_name, v, clone_string_vec(base), ambient);
    let mut rest = convert_elems_with(project_name, vs, base, ambient);
    let ghost rest0 = rest@;
    let mut out: Vec<WireValue> = Vec::new();
    out.push(wire);
    out.append(&mut rest);
    proof {
        let paths = strings_view(base@);
        let ev = values_view(s0);
        let target = spec_convert_elems(ev, paths, ambient, project_name@);
        crate::values::lemma_values_view(s0);
        crate::values::lemma_values_view(s0.subrange(1, s0.len() as int));
        assert(ev[0] == value_view(v));
        assert(ev.subrange(1, ev.len() as int) =~= values_view(s0.subrange(1, s0.len() as int)));
        assert(target == seq![spec_convert_value(ev[0], paths, ambient, project_name@)]
            + spec_convert_elems(ev.subrange(1, ev.len() as int), paths, ambient, project_name@));
        assert(out@.subrange(1, out@.len() as int) =~= rest0);
        assert(wire_values_view(out@) == seq![wire_value_view(out@[0])] + wire_values_view(
            out@.subrange(1, out@.len() as int),
        ));
        assert(wire_values_view(out@) =~= target);
    }
    out
}

/// The wire form of a whole entity under the given project and policy.
/// The key is converted with the project scope; each property is
/// converted under the policy's path set for the entity's kind,
/// narrowed by the property's name.  The caller guarantees that the
/// entity's properties are a property mapping.
pub fn convert_entity(project_name: &str, entity: Entity, index_excluded: &IndexExcluded) -> (r:
    WireEntity)
    requires
        crate::values::entity_wf(entity@),
    ensures
        r@ == spec_convert_entity(entity@, *index_excluded, project_name@),
{
    let wire_key = convert_key(project_name, &entity.key);
    proof {
        lemma_key_path_nonempty(entity.key);
    }
    let kind_paths = index_excluded.kind_paths(&entity.key.kind);
    match entity.properties {
        Value::EntityValue(props) => {
            let out = convert_props_with(project_name, props, &kind_paths);
            let r = WireEntity { key: Option::Some(wire_key), properties: out };
            proof {
                assert(r@.properties == spec_convert_entity(
                    entity@,
                    *index_excluded,
                    project_name@,
                ).properties);
            }
            r
        },
        _ => vstd::pervasive::unreached(),
    }
}

// ---------------------------------------------------------------------
// From the wire: specification
// ---------------------------------------------------------------------

/// The value a wire variant denotes.  The mapping is total over the
/// wire variants: null becomes the empty optional, every other variant
/// maps to its own value variant, and nested structures map element by
/// element.  The wire exclusion markings are derived data and are
/// dropped.
pub open spec fn spec_value_from_wire(t: SpecWireValueType) -> SpecValue
    decreases t, 0int,
{
    match t {
        SpecWireValueType::NullValue(_) => SpecValue::OptionValue(Option::None),
        SpecWireValueType::BooleanValue(b) => SpecValue::BooleanValue(b),
        SpecWireValueType::IntegerValue(n) => SpecValue::IntegerValue(n),
        SpecWireValueType::DoubleValue(bits) => SpecValue::DoubleValue(bits),
        SpecWireValueType::TimestampValue(ts) => SpecValue::TimestampValue(
            Timestamp { seconds: ts.seconds, nanos: ts.nanos as u32 },
        ),
        SpecWireValueType::KeyValue(k) => SpecValue::KeyValue(spec_key_from_wire(k)),
        SpecWireValueType::StringValue(s) => SpecValue::StringValue(s),
        SpecWireValueType::BlobValue(b) => SpecValue::BlobValue(b),
        SpecWireValueType::GeoPointValue(g) => SpecValue::GeoPointValue(g.latitude, g.longitude),
        SpecWireValueType::EntityValue(e) => {
            proof {
                assert(decreases_to!(t => e));
                assert(decreases_to!(e => e.properties));
            }
            SpecValue::EntityValue(spec_props_from_wire(e.properties))
        },
        SpecWireValueType::ArrayValue(vs) => SpecValue::ArrayValue(spec_elems_from_wire(vs)),
    }
}

/// The value a whole wire value denotes; a wire value carrying no
/// variant denotes null.
pub open spec fn spec_value_from_wire_value(wv: SpecWireValue) -> SpecValue
    decreases wv, 1int,
{
    match wv.value_type {
        Option::Some(t) => spec_value_from_wire(t),
        Option::None => SpecValue::OptionValue(Option::None),
    }
}

pub open spec fn spec_props_from_wire(s: Seq<(Seq<char>, SpecWireValue)>) -> Seq<
    (Seq<char>, SpecValue),
>
    decreases s, 2int,
{
    if s.len() == 0 {
        Seq::empty()
    } else {
        proof {
            vstd::seq::axiom_seq_index_decreases(s, 0);
            assert(decreases_to!(s[0] => s[0].1));
            vstd::seq::axiom_seq_subrange_decreases(s, 1, s.len() as int);
        }
        seq![(s[0].0, spec_value_from_wire_value(s[0].1))] + spec_props_from_wire(
            s.subrange(1, s.len() as int),
        )
    }
}

pub open spec fn spec_elems_from_wire(s: Seq<SpecWireValue>) -> Seq<SpecValue>
    decreases s, 2int,
{
    if s.len() == 0 {
        Seq::empty()
    } else {
        proof {
            vstd::seq::axiom_seq_index_decreases(s, 0);
            vstd::seq::axiom_seq_subrange_decreases(s, 1, s.len() as int);
        }
        seq![spec_value_from_wire_value(s[0])] + spec_elems_from_wire(s.subrange(1, s.len() as int))
    }
}

/// The entity a wire entity denotes: its key mapped back, and its
/// properties as the entity variant.
pub open spec fn spec_entity_from_wire(e: SpecWireEntity) -> SpecEntity
    recommends
        e.key is Some,
{
    SpecEntity {
        key: spec_key_from_wire(e.key->0),
        properties: SpecValue::EntityValue(spec_props_from_wire(e.properties)),
    }
}

/// Every key reference inside a wire value names at least one path
/// element, so that it denotes a representable key.
pub open spec fn wire_type_wf(t: SpecWireValueType) -> bool
    decreases t, 0int,
{
    match t {
        SpecWireValueType::KeyValue(k) => k.path.len() > 0,
        SpecWireValueType::EntityValue(e) => {
            proof {
                assert(decreases_to!(t => e));
                assert(decreases_to!(e => e.properties));
            }
            wire_props_wf(e.properties)
        },
        SpecWireValueType::ArrayValue(vs) => wire_elems_wf(vs),
        _ => true,
    }
}

pub open spec fn wire_value_wf(wv: SpecWireValue) -> bool
    decreases wv, 1int,
{
    match wv.value_type {
        Option::Some(t) => wire_type_wf(t),
        Option::None => true,
    }
}

pub open spec fn wire_props_wf(s: Seq<(Seq<char>, SpecWireValue)>) -> bool
    decreases s, 2int,
{
    if s.len() == 0 {
        true
    } else {
        proof {
            vstd::seq::axiom_seq_index_decreases(s, 0);
            assert(decreases_to!(s[0] => s[0].1));
            vstd::seq::axiom_seq_subrange_decreases(s, 1, s.len() as int);
        }
        wire_value_wf(s[0].1) && wire_props_wf(s.subrange(1, s.len() as int))
    }
}

pub open spec fn wire_elems_wf(s: Seq<SpecWireValue>) -> bool
    decreases s, 2int,
{
    if s.len() == 0 {
        true
    } else {
        proof {
            vstd::seq::axiom_seq_index_decreases(s, 0);
            vstd::seq::axiom_seq_subrange_decreases(s, 1, s.len() as int);
        }
        wire_value_wf(s[0]) && wire_elems_wf(s.subrange(1, s.len() as int))
    }
}

// ---------------------------------------------------------------------
// From the wire: executable
// ---------------------------------------------------------------------

/// The value a wire variant denotes.
pub fn value_from_wire_type(t: WireValueType) -> (r: Value)
    requires
        wire_type_wf(t@),
    ensures
        r@ == spec_value_from_wire(t@),
    decreases t, 0int,
{
    let ghost t0 = t;
    match t {
        WireValueType::NullValue(_) => Value::OptionValue(Option::None),
        WireValueType::BooleanValue(b) => Value::BooleanValue(b),
        WireValueType::IntegerValue(n) => Value::IntegerValue(n),
        WireValueType::DoubleValue(bits) => Value::DoubleValue(bits),
        WireValueType::TimestampValue(ts) => Value::TimestampValue(
            Timestamp { seconds: ts.seconds, nanos: #[verifier::truncate] (ts.nanos as u32) },
        ),
        WireValueType::KeyValue(k) => {
            match key_from_wire(&k) {
                Option::Some(key) => Value::KeyValue(key),
                Option::None => vstd::pervasive::unreached(),
            }
        },
        WireValueType::StringValue(s) => Value::StringValue(s),
        WireValueType::BlobValue(b) => Value::BlobValue(b),
        WireValueType::GeoPointValue(g) => Value::GeoPointValue(g.latitude, g.longitude),
        WireValueType::EntityValue(e) => {
            proof {
                assert(decreases_to!(t0 => e));
                vstd::std_specs::vec::axiom_vec_decreases_to_view(e.properties);
                assert(decreases_to!(e => e.properties@));
            }
            Value::EntityValue(props_from_wire(e.properties))
        },
        WireValueType::ArrayValue(a) => {
            proof {
                assert(decreases_to!(t0 => a));
                vstd::std_specs::vec::axiom_vec_decreases_to_view(a.values);
                assert(decreases_to!(a => a.values@));
            }
            Value::ArrayValue(elems_from_wire(a.values))
        },
    }
}

/// The value a whole wire value denotes.
pub fn value_from_wire(v: WireValue) -> (r: Value)
    requires
        wire_value_wf(v@),
    ensures
        r@ == spec_value_from_wire_value(v@),
    decreases v, 1int,
{
    match v.value_type {
        Option::Some(t) => value_from_wire_type(t),
        Option::None => Value::OptionValue(Option::None),
    }
}

pub fn props_from_wire(props: Vec<(String, WireValue)>) -> (r: Vec<(String, Value)>)
    requires
        wire_props_wf(wire_props_view(props@)),
    ensures
        props_view(r@) == spec_props_from_wire(wire_props_view(props@)),
    decreases props@, 2int,
{
    let ghost s0 = props@;
    let ghost sv = wire_props_view(s0);
    let mut props = props;
    if props.len() == 0 {
        proof {
            assert(props_view(Seq::<(String, Value)>::empty()) =~= Seq::<
                (Seq<char>, SpecValue),
            >::empty());
        }
        return Vec::new();
    }
    proof {
        crate::values::lemma_wire_props_view(s0);
        vstd::seq::axiom_seq_index_decreases(s0, 0);
        assert(decreases_to!(s0[0] => s0[0].1));
        vstd::seq::axiom_seq_subrange_decreases(s0, 1, s0.len() as int);
        assert(sv[0] == (s0[0].0@, wire_value_view(s0[0].1)));
        assert(sv.subrange(1, sv.len() as int) =~= wire_props_view(
            s0.subrange(1, s0.len() as int),
        )) by {
            crate::values::lemma_wire_props_view(s0.subrange(1, s0.len() as int));
        }
    }
    let (k, wv) = props.remove(0);
    proof {
        assert(props@ =~= s0.subrange(1, s0.len() as int));
    }
    let v = value_from_wire(wv);
    let mut rest = props_from_wire(props);
    let ghost rest0 = rest@;
    let mut out: Vec<(String, Value)> = Vec::new();
    out.push((k, v));
    out.append(&mut rest);
    proof {
        let target = spec_props_from_wire(sv);
        assert(target == seq![(sv[0].0, spec_value_from_wire_value(sv[0].1))]
            + spec_props_from_wire(sv.subrange(1, sv.len() as int)));
        assert(out@.subrange(1, out@.len() as int) =~= rest0);
        assert(props_view(out@) == seq![(out@[0].0@, value_view(out@[0].1))] + props_view(
            out@.subrange(1, out@.len() as int),
        ));
        assert(props_view(out@) =~= target);
    }
    out
}

fn elems_from_wire(vs: Vec<WireValue>) -> (r: Vec<Value>)
    requires
        wire_elems_wf(wire_values_view(vs@)),
    ensures
        values_view(r@) == spec_elems_from_wire(wire_values_view(vs@)),
    decreases vs@, 2int,
{
    let ghost s0 = vs@;
    let ghost sv = wire_values_view(s0);
    let mut vs = vs;
    if vs.len() == 0 {
        proof {
            assert(values_view(Seq::<Value>::empty()) =~= Seq::<SpecValue>::empty());
        }
        return Vec::new();
    }
    proof {
        crate::values::lemma_wire_values_view(s0);
        vstd::seq::axiom_seq_index_decreases(s0, 0);
        vstd::seq::axiom_seq_subrange_decreases(s0, 1, s0.len() as int);
        assert(sv[0] == wire_value_view(s0[0]));
        assert(sv.subrange(1, sv.len() as int) =~= wire_values_view(
            s0.subrange(1, s0.len() as int),
        )) by {
            crate::values::lemma_wire_values_view(s0.subrange(1, s0.len() as int));
        }
    }
    let wv = vs.remove(0);
    proof {
        assert(vs@ =~= s0.subrange(1, s0.len() as int));
    }
    let v = value_from_wire(wv);
    let mut rest = elems_from_wire(vs);
    let ghost rest0 = rest@;
    let mut out: Vec<Value> = Vec::new();
    out.push(v);
    out.append(&mut rest);
    proof {
        let target = spec_elems_from_wire(sv);
        assert(target == seq![spec_value_from_wire_value(sv[0])] + spec_elems_from_wire(
            sv.subrange(1, sv.len() as int),
        ));
        assert(out@.subrange(1, out@.len() as int) =~= rest0);
        assert(values_view(out@) == seq![value_view(out@[0])] + values_view(
            out@.subrange(1, out@.len() as int),
        ));
        assert(values_view(out@) =~= target);
    }
    out
}

/// The entity a wire entity message denotes, or nothing when the
/// message carries no key or a key without path elements.
pub fn entity_from_wire(e: WireEntity) -> (r: Option<Entity>)
    requires
        wire_props_wf(wire_props_view(e.properties@)),
    ensures
        (match e@.key {
            Option::Some(k) => k.path.len() > 0,
            Option::None => false,
        }) ==> r is Some && r->0@ == spec_entity_from_wire(e@),
        (match e@.key {
            Option::Some(k) => k.path.len() == 0,
            Option::None => true,
        }) ==> r is None,
{
    let key = match &e.key {
        Option::Some(wk) => match key_from_wire(wk) {
            Option::Some(key) => key,
            Option::None => {
                return Option::None;
            },
        },
        Option::None => {
            return Option::None;
        },
    };
    let properties = Value::EntityValue(props_from_wire(e.properties));
    Option::Some(Entity { key, properties })
}

// ---------------------------------------------------------------------
// The round trip
// ---------------------------------------------------------------------

/// The values on which conversion to the wire and back is the
/// identity: those that contain no key reference (scoping and newness
/// are not carried by the wire value) and no wrapped optional (the
/// wire flattens the wrapping, so only the null optional survives).
pub open spec fn round_trippable(v: SpecValue) -> bool
    decreases v, 0int,
{
    match v {
        SpecValue::OptionValue(o) => o is None,
        SpecValue::KeyValue(_) => false,
        SpecValue::EntityValue(props) => rt_props(props),
        SpecValue::ArrayValue(vs) => rt_elems(vs),
        _ => true,
    }
}

pub open spec fn rt_props(s: Seq<(Seq<char>, SpecValue)>) -> bool
    decreases s, 2int,
{
    if s.len() == 0 {
        true
    } else {
        proof {
            vstd::seq::axiom_seq_index_decreases(s, 0);
            assert(decreases_to!(s[0] => s[0].1));
            vstd::seq::axiom_seq_subrange_decreases(s, 1, s.len() as int);
        }
        round_trippable(s[0].1) && rt_props(s.subrange(1, s.len() as int))
    }
}

pub open spec fn rt_elems(s: Seq<SpecValue>) -> bool
    decreases s, 2int,
{
    if s.len() == 0 {
        true
    } else {
        proof {
            vstd::seq::axiom_seq_index_decreases(s, 0);
            vstd::seq::axiom_seq_subrange_decreases(s, 1, s.len() as int);
        }
        round_trippable(s[0]) && rt_elems(s.subrange(1, s.len() as int))
    }
}

/// Converting a value to the wire and back reconstructs it exactly,
/// whatever path set and ambient exclusion decision the conversion ran
/// under: the exclusion markings are derived data and carry no
/// information the value does not.  This holds for every well-formed
/// value without key references and without wrapped optionals;
/// timestamps keep their full nanosecond precision.
pub proof fn lemma_value_wire_round_trip(
    v: SpecValue,
    paths: Seq<Seq<char>>,
    ambient: bool,
    project: Seq<char>,
)
    requires
        round_trippable(v),
        crate::values::value_wf(v),
    ensures
        spec_value_from_wire_value(spec_convert_value(v, paths, ambient, project)) == v,
        spec_value_from_wire(spec_convert_value_type(v, paths, ambient, project)) == v,
    decreases v, 1int,
{
    match v {
        SpecValue::EntityValue(props) => {
            lemma_rt_props(props, paths, project);
        },
        SpecValue::ArrayValue(vs) => {
            lemma_rt_elems(vs, paths, ambient, project);
        },
        SpecValue::TimestampValue(t) => {
            let n = t.nanos;
            assert(((n as i32) as u32) == n) by (bit_vector)
                requires
                    n < 2_000_000_000u32,
            ;
        },
        _ => {},
    }
}

pub proof fn lemma_rt_props(s: Seq<(Seq<char>, SpecValue)>, paths: Seq<Seq<char>>, project: Seq<
    char,
>)
    requires
        rt_props(s),
        crate::values::props_wf(s),
    ensures
        spec_props_from_wire(spec_convert_props(s, paths, project)) == s,
    decreases s, 2int,
{
    if s.len() == 0 {
    } else {
        vstd::seq::axiom_seq_index_decreases(s, 0);
        assert(decreases_to!(s[0] => s[0].1));
        vstd::seq::axiom_seq_subrange_decreases(s, 1, s.len() as int);
        let tail = s.subrange(1, s.len() as int);
        let narrowed = spec_narrow(paths, s[0].0);
        lemma_value_wire_round_trip(s[0].1, narrowed, spec_exact(narrowed), project);
        lemma_rt_props(tail, paths, project);
        let conv = spec_convert_props(s, paths, project);
        let head = (s[0].0, spec_convert_value(s[0].1, narrowed, spec_exact(narrowed), project));
        assert(conv == seq![head] + spec_convert_props(tail, paths, project));
        assert(conv.len() > 0);
        assert(conv[0] == head);
        assert(conv.subrange(1, conv.len() as int) =~= spec_convert_props(tail, paths, project));
        assert(spec_props_from_wire(conv) == seq![
            (conv[0].0, spec_value_from_wire_value(conv[0].1)),
        ] + spec_props_from_wire(conv.subrange(1, conv.len() as int)));
        assert((conv[0].0, spec_value_from_wire_value(conv[0].1)) == s[0]);
        assert(spec_props_from_wire(conv) =~= s);
    }
}

pub proof fn lemma_rt_elems(
    s: Seq<SpecValue>,
    paths: Seq<Seq<char>>,
    ambient: bool,
    project: Seq<char>,
)
    requires
        rt_elems(s),
        crate::values::spec_values_wf(s),
    ensures
        spec_elems_from_wire(spec_convert_elems(s, paths, ambient, project)) == s,
    decreases s, 2int,
{
    if s.len() == 0 {
    } else {
        vstd::seq::axiom_seq_index_decreases(s, 0);
        vstd::seq::axiom_seq_subrange_decreases(s, 1, s.len() as int);
        let tail = s.subrange(1, s.len() as int);
        lemma_value_wire_round_trip(s[0], paths, ambient, project);
        lemma_rt_elems(tail, paths, ambient, project);
        let conv = spec_convert_elems(s, paths, ambient, project);
        let head = spec_convert_value(s[0], paths, ambient, project);
        assert(conv == seq![head] + spec_convert_elems(tail, paths, ambient, project));
        assert(conv[0] == head);
        assert(conv.subrange(1, conv.len() as int) =~= spec_convert_elems(
            tail,
            paths,
            ambient,
            project,
        ));
        assert(spec_elems_from_wire(conv) == seq![spec_value_from_wire_value(conv[0])]
            + spec_elems_from_wire(conv.subrange(1, conv.len() as int)));
        assert(spec_value_from_wire_value(conv[0]) == s[0]);
        assert(spec_elems_from_wire(conv) =~= s);
    }
}

} // verus!
