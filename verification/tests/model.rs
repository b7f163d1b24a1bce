//! Tests of the key, value and policy models: wire round trips,
//! narrowing, exclusion marking, and the codec casing and defaults.
use datastore::Error;
use datastore::codec::FieldKind;
use datastore::codec::FieldSpec;
use datastore::codec::RenameAll;
use datastore::codec::VariantSpec;
use datastore::codec::decode_enum;
use datastore::codec::decode_record;
use datastore::codec::encode_record;
use datastore::codec::encode_variant;
use datastore::codec::transform_field_casing;
use datastore::codec::transform_variant_casing;
use datastore::convert::convert_entity;
use datastore::convert::convert_value;
use datastore::convert::value_from_wire;
use datastore::exclude::IndexExcluded;
use datastore::exclude::PropertyExcluded;
use datastore::exclude::check_exclude_from_indexes;
use datastore::exclude::get_exclude_from_indexes;
use datastore::keys::Key;
use datastore::keys::KeyID;
use datastore::keys::WireIdType;
use datastore::keys::convert_key;
use datastore::keys::key_eq;
use datastore::keys::key_from_wire;
use datastore::values::Entity;
use datastore::values::Timestamp;
use datastore::values::Value;
use datastore::values::WireValue;
use datastore::values::WireValueType;
use datastore::values::value_eq;

fn strings(items: &[&str]) -> Vec<String> {
    items.iter().map(|s| s.to_string()).collect()
}

#[test]
fn key_round_trip_preserves_path() {
    let child = Key::new("order".to_string(), KeyID::IntID(42))
        .with_parent(Key::new("customer".to_string(), KeyID::StringID("ada".to_string())))
        .with_namespace("tenant-a".to_string());
    let wire = convert_key("my-project", &child);
    let partition = wire.partition_id.clone().unwrap();
    assert_eq!(partition.project_id, "my-project");
    assert_eq!(partition.namespace_id, "tenant-a");
    assert_eq!(wire.path.len(), 2);
    assert_eq!(wire.path[0].kind, "customer");
    assert_eq!(wire.path[1].kind, "order");
    assert_eq!(wire.path[1].id_type, Some(WireIdType::Id(42)));
    let back = key_from_wire(&wire).unwrap();
    assert!(key_eq(&back, &child));
}

#[test]
fn key_from_wire_empty_path_is_none() {
    let wire = convert_key("p", &Key::new("t".to_string(), KeyID::Incomplete));
    let mut wire = wire;
    wire.path.clear();
    assert!(key_from_wire(&wire).is_none());
}

#[test]
fn incomplete_key_only_at_terminal() {
    let k = Key::new("t".to_string(), KeyID::Incomplete);
    assert!(k.is_incomplete());
    let k2 = Key::new("t".to_string(), KeyID::IntID(7));
    assert!(!k2.is_incomplete());
}

fn sample_value() -> Value {
    Value::EntityValue(vec![
        ("flag".to_string(), Value::BooleanValue(true)),
        ("count".to_string(), Value::IntegerValue(-7)),
        ("ratio".to_string(), Value::DoubleValue((2.5f64).to_bits())),
        (
            "when".to_string(),
            Value::TimestampValue(Timestamp { seconds: 86_400, nanos: 123_456_789 }),
        ),
        ("name".to_string(), Value::StringValue("ada".to_string())),
        ("raw".to_string(), Value::BlobValue(vec![0, 1, 255])),
        (
            "place".to_string(),
            Value::GeoPointValue((40.0f64).to_bits(), (-3.5f64).to_bits()),
        ),
        ("missing".to_string(), Value::OptionValue(None)),
        (
            "tags".to_string(),
            Value::ArrayValue(vec![
                Value::StringValue("a".to_string()),
                Value::IntegerValue(1),
            ]),
        ),
        (
            "nested".to_string(),
            Value::EntityValue(vec![("inner".to_string(), Value::IntegerValue(5))]),
        ),
    ])
}

#[test]
fn value_round_trip_is_identity() {
    let v = sample_value();
    let wire = convert_value("p", sample_value(), Vec::new(), false);
    let back = value_from_wire(wire);
    assert!(value_eq(&v, &back));
}

#[test]
fn timestamp_round_trip_keeps_nanoseconds() {
    let v = Value::TimestampValue(Timestamp { seconds: 1, nanos: 999_999_999 });
    let wire = convert_value("p", v, Vec::new(), false);
    match wire.value_type {
        Some(WireValueType::TimestampValue(ts)) => {
            assert_eq!(ts.seconds, 1);
            assert_eq!(ts.nanos, 999_999_999);
        },
        _ => panic!("expected a timestamp on the wire"),
    }
}

#[test]
fn timestamp_from_datetime_reads_utc_parts() {
    let dt = chrono::NaiveDate::from_ymd_opt(1970, 1, 2)
        .unwrap()
        .and_hms_nano_opt(0, 0, 0, 500)
        .unwrap();
    let ts = Timestamp::from_datetime(&dt);
    assert_eq!(ts.seconds, 86_400);
    assert_eq!(ts.nanos, 500);
}

#[test]
fn empty_wire_namespace_means_unscoped() {
    let scoped = Key::new("t".to_string(), KeyID::IntID(1));
    let wire = convert_key("p", &scoped);
    assert_eq!(wire.partition_id.as_ref().unwrap().namespace_id, "");
    let back = key_from_wire(&wire).unwrap();
    assert!(back.namespace.is_none());
}

#[test]
fn wire_value_without_variant_is_null() {
    let bare = WireValue { meaning: 0, exclude_from_indexes: false, value_type: None };
    let back = value_from_wire(bare);
    assert!(value_eq(&back, &Value::OptionValue(None)));
}

#[test]
fn leap_second_nanoseconds_survive() {
    let v = Value::TimestampValue(Timestamp { seconds: 0, nanos: 1_500_000_000 });
    let wire = convert_value("p", v, Vec::new(), false);
    let back = value_from_wire(wire);
    assert!(value_eq(
        &back,
        &Value::TimestampValue(Timestamp { seconds: 0, nanos: 1_500_000_000 }),
    ));
}

#[test]
fn narrow_splits_on_first_dot() {
    let narrowed = get_exclude_from_indexes(strings(&["a.b.c", "a.x"]), "a".to_string());
    assert_eq!(narrowed, strings(&["b.c", "x"]));
}

#[test]
fn narrow_to_empty_is_exact_match() {
    let narrowed = get_exclude_from_indexes(strings(&["a"]), "a".to_string());
    assert_eq!(narrowed, strings(&[""]));
    assert!(check_exclude_from_indexes(narrowed));
}

#[test]
fn narrow_drops_unrelated_paths() {
    let narrowed = get_exclude_from_indexes(strings(&["a.b", "c.d", "e"]), "c".to_string());
    assert_eq!(narrowed, strings(&["d"]));
    assert!(!check_exclude_from_indexes(strings(&["b.c", "x"])));
    assert!(!check_exclude_from_indexes(strings(&[])));
}

fn customer_policy() -> IndexExcluded {
    IndexExcluded {
        kind: vec![(
            "customer".to_string(),
            PropertyExcluded { property: strings(&["email", "address.zip"]) },
        )],
    }
}

#[test]
fn ckeck_value_narrows_by_kind_and_property() {
    let paths = customer_policy().ckeck_value("customer".to_string(), "address".to_string());
    assert_eq!(paths, strings(&["zip"]));
    let none = customer_policy().ckeck_value("invoice".to_string(), "address".to_string());
    assert!(none.is_empty());
}

fn wire_property<'a>(
    props: &'a [(String, WireValue)],
    name: &str,
) -> &'a WireValue {
    &props.iter().find(|(k, _)| k == name).expect("property present").1
}

#[test]
fn policy_marks_exact_properties_excluded() {
    let entity = Entity::new(
        Key::new("customer".to_string(), KeyID::IntID(1)),
        Value::EntityValue(vec![
            ("email".to_string(), Value::StringValue("a@b".to_string())),
            (
                "address".to_string(),
                Value::EntityValue(vec![
                    ("zip".to_string(), Value::StringValue("28001".to_string())),
                    ("city".to_string(), Value::StringValue("Madrid".to_string())),
                ]),
            ),
        ]),
    )
    .unwrap();
    let wire = convert_entity("p", entity, &customer_policy());
    let email = wire_property(&wire.properties, "email");
    assert!(email.exclude_from_indexes);
    let address = wire_property(&wire.properties, "address");
    assert!(!address.exclude_from_indexes);
    match &address.value_type {
        Some(WireValueType::EntityValue(inner)) => {
            assert!(wire_property(&inner.properties, "zip").exclude_from_indexes);
            assert!(!wire_property(&inner.properties, "city").exclude_from_indexes);
        },
        _ => panic!("expected a nested entity on the wire"),
    }
}

#[test]
fn arrays_are_never_excluded_at_their_own_node() {
    let v = Value::ArrayValue(vec![Value::IntegerValue(1), Value::IntegerValue(2)]);
    let wire = convert_value("p", v, Vec::new(), true);
    assert!(!wire.exclude_from_indexes);
    match wire.value_type {
        Some(WireValueType::ArrayValue(arr)) => {
            assert!(arr.values[0].exclude_from_indexes);
            assert!(arr.values[1].exclude_from_indexes);
        },
        _ => panic!("expected an array on the wire"),
    }
    let wrapped = Value::OptionValue(Some(Box::new(Value::ArrayValue(Vec::new()))));
    let wire = convert_value("p", wrapped, Vec::new(), true);
    assert!(!wire.exclude_from_indexes);
    let plain = Value::OptionValue(Some(Box::new(Value::IntegerValue(3))));
    let wire = convert_value("p", plain, Vec::new(), true);
    assert!(wire.exclude_from_indexes);
}

#[test]
fn entity_rejects_non_entity_top_level() {
    let r = Entity::new(
        Key::new("t".to_string(), KeyID::IntID(1)),
        Value::IntegerValue(3),
    );
    match r {
        Err(Error::UnexpectedPropertyType { expected, got }) => {
            assert_eq!(expected, "entity");
            assert_eq!(got, "integer");
        },
        _ => panic!("expected a structural mismatch"),
    }
}

#[test]
fn field_casing_rules() {
    let name = "max_retry_count".to_string();
    let case = |rule| transform_field_casing(&name, rule);
    assert_eq!(case(RenameAll::LowerCase), "max_retry_count");
    assert_eq!(case(RenameAll::UpperCase), "MAX_RETRY_COUNT");
    assert_eq!(case(RenameAll::PascalCase), "MaxRetryCount");
    assert_eq!(case(RenameAll::CamelCase), "maxRetryCount");
    assert_eq!(case(RenameAll::SnakeCase), "max_retry_count");
    assert_eq!(case(RenameAll::ScreamingSnakeCase), "MAX_RETRY_COUNT");
    assert_eq!(case(RenameAll::KebabCase), "max-retry-count");
    assert_eq!(case(RenameAll::ScreamingKebabCase), "MAX-RETRY-COUNT");
}

#[test]
fn variant_casing_rules() {
    let name = "InProgress".to_string();
    let case = |rule| transform_variant_casing(&name, rule);
    assert_eq!(case(RenameAll::LowerCase), "inprogress");
    assert_eq!(case(RenameAll::UpperCase), "INPROGRESS");
    assert_eq!(case(RenameAll::PascalCase), "InProgress");
    assert_eq!(case(RenameAll::CamelCase), "inProgress");
    assert_eq!(case(RenameAll::SnakeCase), "in_progress");
    assert_eq!(case(RenameAll::ScreamingSnakeCase), "IN_PROGRESS");
    assert_eq!(case(RenameAll::KebabCase), "in-progress");
    assert_eq!(case(RenameAll::ScreamingKebabCase), "IN-PROGRESS");
}

#[test]
fn default_rename_rule_is_camel() {
    assert_eq!(RenameAll::default(), RenameAll::CamelCase);
}

fn field(name: &str, kind: FieldKind) -> FieldSpec {
    FieldSpec { name: name.to_string(), rename: None, default: None, kind }
}

#[test]
fn decode_record_takes_present_properties() {
    let fields = vec![field("user_name", FieldKind::Str), field("age", FieldKind::Integer)];
    let value = Value::EntityValue(vec![
        ("age".to_string(), Value::IntegerValue(30)),
        ("userName".to_string(), Value::StringValue("ada".to_string())),
    ]);
    let decoded = decode_record(fields, RenameAll::CamelCase, value).unwrap();
    assert!(value_eq(&decoded[0], &Value::StringValue("ada".to_string())));
    assert!(value_eq(&decoded[1], &Value::IntegerValue(30)));
}

#[test]
fn decode_record_substitutes_zero_defaults() {
    let fields = vec![
        field("user_name", FieldKind::Str),
        field("age", FieldKind::Integer),
        field("active", FieldKind::Boolean),
        field("rate", FieldKind::Double),
        field("tags", FieldKind::Sequence),
        field("note", FieldKind::Optional),
        field("since", FieldKind::Timestamp),
    ];
    let decoded =
        decode_record(fields, RenameAll::CamelCase, Value::EntityValue(Vec::new())).unwrap();
    assert!(value_eq(&decoded[0], &Value::StringValue(String::new())));
    assert!(value_eq(&decoded[1], &Value::IntegerValue(0)));
    assert!(value_eq(&decoded[2], &Value::BooleanValue(false)));
    assert!(value_eq(&decoded[3], &Value::DoubleValue(0)));
    assert!(value_eq(&decoded[4], &Value::ArrayValue(Vec::new())));
    assert!(value_eq(&decoded[5], &Value::OptionValue(None)));
    assert!(value_eq(
        &decoded[6],
        &Value::TimestampValue(Timestamp { seconds: 0, nanos: 0 }),
    ));
}

#[test]
fn decode_record_uses_explicit_default_and_rename() {
    let fields = vec![FieldSpec {
        name: "retries".to_string(),
        rename: Some("tryCount".to_string()),
        default: Some(Value::IntegerValue(3)),
        kind: FieldKind::Other,
    }];
    let decoded =
        decode_record(fields, RenameAll::SnakeCase, Value::EntityValue(Vec::new())).unwrap();
    assert!(value_eq(&decoded[0], &Value::IntegerValue(3)));
}

#[test]
fn decode_record_missing_required_property_names_it() {
    let fields = vec![field("home_key", FieldKind::Other)];
    let r = decode_record(fields, RenameAll::CamelCase, Value::EntityValue(Vec::new()));
    match r {
        Err(Error::MissingProperty(name)) => assert_eq!(name, "homeKey"),
        _ => panic!("expected a missing-property error"),
    }
}

#[test]
fn decode_record_rejects_non_entity() {
    let fields = vec![field("x", FieldKind::Integer)];
    let r = decode_record(fields, RenameAll::CamelCase, Value::StringValue("no".to_string()));
    assert!(matches!(r, Err(Error::UnexpectedPropertyType { .. })));
}

#[test]
fn encode_record_pairs_names_and_values() {
    let fields = vec![field("user_name", FieldKind::Str), field("age", FieldKind::Integer)];
    let encoded = encode_record(
        &fields,
        RenameAll::CamelCase,
        vec![Value::StringValue("ada".to_string()), Value::IntegerValue(30)],
    );
    match encoded {
        Value::EntityValue(props) => {
            assert_eq!(props[0].0, "userName");
            assert!(value_eq(&props[0].1, &Value::StringValue("ada".to_string())));
            assert_eq!(props[1].0, "age");
            assert!(value_eq(&props[1].1, &Value::IntegerValue(30)));
        },
        _ => panic!("expected an entity value"),
    }
}

#[test]
fn enum_codec_round_trip_and_unknown() {
    let variants = vec![
        VariantSpec { name: "InProgress".to_string(), rename: None },
        VariantSpec { name: "Done".to_string(), rename: Some("finished".to_string()) },
    ];
    let encoded = encode_variant(&variants[1], RenameAll::CamelCase);
    assert!(value_eq(&encoded, &Value::StringValue("finished".to_string())));
    let idx = decode_enum(
        &variants,
        RenameAll::CamelCase,
        Value::StringValue("inProgress".to_string()),
    )
    .unwrap();
    assert_eq!(idx, 0);
    let idx = decode_enum(
        &variants,
        RenameAll::CamelCase,
        Value::StringValue("finished".to_string()),
    )
    .unwrap();
    assert_eq!(idx, 1);
    let r = decode_enum(
        &variants,
        RenameAll::CamelCase,
        Value::StringValue("unheard".to_string()),
    );
    match r {
        Err(Error::UnknownVariant(s)) => assert_eq!(s, "unheard"),
        _ => panic!("expected an unknown-variant error"),
    }
    let r = decode_enum(&variants, RenameAll::CamelCase, Value::IntegerValue(1));
    assert!(matches!(r, Err(Error::UnexpectedPropertyType { .. })));
}
