//! Tests of the query translation, pagination, lookup batching,
//! mutation classification and the transaction's pending list.
use datastore::Error;
use datastore::exclude::IndexExcluded;
use datastore::keys::Key;
use datastore::keys::KeyID;
use datastore::keys::convert_key;
use datastore::keys::key_eq;
use datastore::ops::Transaction;
use datastore::ops::WireMutationOperation;
use datastore::ops::build_delete_mutations;
use datastore::ops::build_lookup_request;
use datastore::ops::build_put_mutations;
use datastore::ops::found_entities;
use datastore::ops::is_insert;
use datastore::ops::lookup_results;
use datastore::query::Aggregation;
use datastore::query::CompositeFilter;
use datastore::query::Filter;
use datastore::query::MoreResultsType;
use datastore::query::Order;
use datastore::query::Query;
use datastore::query::TrxOption;
use datastore::query::WireAggregationOperator;
use datastore::query::WireAggregationResult;
use datastore::query::WireCompositeOperator;
use datastore::query::WireDirection;
use datastore::query::WireEntityResult;
use datastore::query::WireFilterType;
use datastore::query::WirePropertyOperator;
use datastore::query::WireQueryResultBatch;
use datastore::query::WireTransactionMode;
use datastore::query::aggregation_results_to_values;
use datastore::query::build_aggregation_query;
use datastore::query::collect_query_pages;
use datastore::query::convert_aggregations;
use datastore::query::convert_filter;
use datastore::query::convert_query;
use datastore::query::convert_trx_option;
use datastore::query::page_continues;
use datastore::values::Entity;
use datastore::values::Value;
use datastore::values::WireEntity;
use datastore::values::WireValueType;
use datastore::values::value_eq;

fn base_query() -> Query {
    Query {
        kind: "customer".to_string(),
        namespace: None,
        filters: Vec::new(),
        composite_filter: CompositeFilter::And,
        ordering: Vec::new(),
        projections: Vec::new(),
        distinct_on: Vec::new(),
        offset: 0,
        limit: None,
        cursor: None,
        eventual: false,
    }
}

#[test]
fn convert_query_maps_every_field() {
    let mut q = base_query();
    q.projections = vec!["name".to_string()];
    q.ordering = vec![Order::Asc("name".to_string()), Order::Desc("age".to_string())];
    q.distinct_on = vec!["name".to_string()];
    q.offset = 5;
    q.limit = Some(10);
    let wire = convert_query("p", q, vec![9, 9]);
    assert_eq!(wire.kind.len(), 1);
    assert_eq!(wire.kind[0].name, "customer");
    assert_eq!(wire.projection[0].property.as_ref().unwrap().name, "name");
    assert_eq!(wire.order.len(), 2);
    assert_eq!(wire.order[0].direction, WireDirection::Ascending);
    assert_eq!(wire.order[1].direction, WireDirection::Descending);
    assert_eq!(wire.distinct_on[0].name, "name");
    assert_eq!(wire.offset, 5);
    assert_eq!(wire.limit, Some(10));
    assert_eq!(wire.start_cursor, vec![9, 9]);
    assert!(wire.end_cursor.is_empty());
    assert!(wire.filter.is_none());
}

#[test]
fn convert_filter_wraps_flat_filters_in_one_composite() {
    let filters = vec![
        Filter::Equal("name".to_string(), Value::StringValue("ada".to_string())),
        Filter::GreaterThan("age".to_string(), Value::IntegerValue(18)),
        Filter::HasAncestor(Value::StringValue("ignored-shape".to_string())),
    ];
    let wire = convert_filter("p", filters, CompositeFilter::Or).unwrap();
    match wire.filter_type.unwrap() {
        WireFilterType::CompositeFilter(c) => {
            assert_eq!(c.op, WireCompositeOperator::Or);
            assert_eq!(c.filters.len(), 3);
            assert_eq!(c.filters[0].op, WirePropertyOperator::Equal);
            assert_eq!(c.filters[0].property.as_ref().unwrap().name, "name");
            assert_eq!(c.filters[1].op, WirePropertyOperator::GreaterThan);
            assert_eq!(c.filters[2].op, WirePropertyOperator::HasAncestor);
            assert_eq!(c.filters[2].property.as_ref().unwrap().name, "__key__");
        },
        _ => panic!("expected a composite filter"),
    }
    assert!(convert_filter("p", Vec::new(), CompositeFilter::And).is_none());
}

fn entity_result(kind: &str, id: i64) -> WireEntityResult {
    let entity = Entity::new(
        Key::new(kind.to_string(), KeyID::IntID(id)),
        Value::EntityValue(vec![("n".to_string(), Value::IntegerValue(id))]),
    )
    .unwrap();
    WireEntityResult { entity: Some(datastore::convert::convert_entity("p", entity, &IndexExcluded::empty())) }
}

fn batch(ids: &[i64], more: MoreResultsType, cursor: &[u8]) -> WireQueryResultBatch {
    WireQueryResultBatch {
        entity_results: ids.iter().map(|id| entity_result("customer", *id)).collect(),
        more_results: more,
        end_cursor: cursor.to_vec(),
    }
}

#[test]
fn three_pages_accumulate_in_request_order() {
    let pages = vec![
        batch(&[1, 2], MoreResultsType::NotFinished, b"c1"),
        batch(&[3], MoreResultsType::NotFinished, b"c2"),
        batch(&[4, 5], MoreResultsType::NoMoreResults, b"c3"),
    ];
    let (entities, cursor, requests) = collect_query_pages(pages).unwrap();
    assert_eq!(requests, 3);
    assert_eq!(cursor, b"c3".to_vec());
    assert_eq!(entities.len(), 5);
    for (i, expected) in [1i64, 2, 3, 4, 5].iter().enumerate() {
        match &entities[i].key {
            Some(k) => match &k.path[0].id_type {
                Some(datastore::keys::WireIdType::Id(n)) => assert_eq!(n, expected),
                _ => panic!("expected a numeric id"),
            },
            None => panic!("expected a key"),
        }
    }
}

#[test]
fn pagination_stops_on_any_other_indicator() {
    assert!(page_continues(MoreResultsType::NotFinished));
    assert!(!page_continues(MoreResultsType::NoMoreResults));
    assert!(!page_continues(MoreResultsType::MoreResultsAfterLimit));
    assert!(!page_continues(MoreResultsType::MoreResultsAfterCursor));
    assert!(!page_continues(MoreResultsType::Unspecified));
    let pages = vec![batch(&[1], MoreResultsType::NotFinished, b"c")];
    assert!(collect_query_pages(pages).is_none());
}

#[test]
fn lookup_keeps_request_order_and_omits_missing() {
    let k1 = Key::new("customer".to_string(), KeyID::IntID(1));
    let k2 = Key::new("customer".to_string(), KeyID::IntID(2));
    let k3 = Key::new("customer".to_string(), KeyID::IntID(3));

    let request = build_lookup_request("p", &vec![k1.duplicate(), k2.duplicate(), k3.duplicate()], None);
    assert_eq!(request.keys.len(), 3);
    assert!(request.read_options.is_none());

    // Round one: the server finds K1, defers K2, never returns K3.
    let round_one = vec![entity_result("customer", 1)];
    let deferred = vec![convert_key("p", &k2)];
    let mut found = found_entities(round_one);
    assert_eq!(deferred.len(), 1);

    // Round two: the deferred key is found.
    let round_two = vec![entity_result("customer", 2)];
    found.append(&mut found_entities(round_two));

    let results = lookup_results(vec![k1.duplicate(), k2.duplicate(), k3.duplicate()], found);
    assert_eq!(results.len(), 2);
    assert!(key_eq(&results[0].key, &k1));
    assert!(key_eq(&results[1].key, &k2));
    assert!(value_eq(
        &results[0].properties,
        &Value::EntityValue(vec![("n".to_string(), Value::IntegerValue(1))]),
    ));
}

#[test]
fn lookup_request_carries_transaction() {
    let k = Key::new("t".to_string(), KeyID::IntID(1));
    let request = build_lookup_request("p", &vec![k], Some(vec![7, 7]));
    assert!(request.read_options.is_some());
}

fn simple_entity(kind: &str, id: KeyID, new: bool) -> Entity {
    let mut key = Key::new(kind.to_string(), id);
    if new {
        key = key.mark_new();
    }
    Entity::new(key, Value::EntityValue(Vec::new())).unwrap()
}

#[test]
fn incomplete_or_new_keys_classify_as_insert() {
    assert!(is_insert(&Key::new("t".to_string(), KeyID::Incomplete)));
    assert!(is_insert(&Key::new("t".to_string(), KeyID::IntID(1)).mark_new()));
    assert!(!is_insert(&Key::new("t".to_string(), KeyID::IntID(1))));

    let mutations = build_put_mutations(
        "p",
        vec![
            simple_entity("t", KeyID::Incomplete, false),
            simple_entity("t", KeyID::IntID(9), false),
            simple_entity("t", KeyID::IntID(9), true),
        ],
        &IndexExcluded::empty(),
    );
    assert!(matches!(mutations[0].operation, Some(WireMutationOperation::Insert(_))));
    assert!(matches!(mutations[1].operation, Some(WireMutationOperation::Upsert(_))));
    assert!(matches!(mutations[2].operation, Some(WireMutationOperation::Insert(_))));
}

#[test]
fn deleting_an_incomplete_key_fails_validation() {
    let r = build_delete_mutations(
        "p",
        vec![
            Key::new("t".to_string(), KeyID::IntID(1)),
            Key::new("t".to_string(), KeyID::Incomplete),
        ],
    );
    assert!(matches!(r, Err(Error::IncompleteKey)));
    let ok = build_delete_mutations("p", vec![Key::new("t".to_string(), KeyID::IntID(1))])
        .unwrap();
    assert!(matches!(ok[0].operation, Some(WireMutationOperation::Delete(_))));
}

#[test]
fn transaction_accumulates_mutations_until_commit() {
    let mut tx = Transaction::new("p".to_string(), vec![1, 2, 3]);
    assert_eq!(tx.commit_request.mutations.len(), 0);
    assert_eq!(tx.commit_request.transaction_selector, Some(vec![1, 2, 3]));
    tx.put_all(
        vec![simple_entity("t", KeyID::Incomplete, false)],
        &IndexExcluded::empty(),
    );
    tx.delete_all(vec![Key::new("t".to_string(), KeyID::IntID(4))]).unwrap();
    assert_eq!(tx.commit_request.mutations.len(), 2);
    let r = tx.delete_all(vec![Key::new("t".to_string(), KeyID::Incomplete)]);
    assert!(r.is_err());
    assert_eq!(tx.commit_request.mutations.len(), 2);
    assert_eq!(tx.get_tx_key(), vec![1, 2, 3]);
}

#[test]
fn aggregations_map_to_their_operators() {
    let wire = convert_aggregations(vec![
        Aggregation::Count("total".to_string()),
        Aggregation::Sum("salary_sum".to_string(), "salary".to_string()),
        Aggregation::Avg("salary_avg".to_string(), "salary".to_string()),
    ]);
    assert_eq!(wire.len(), 3);
    assert_eq!(wire[0].alias, "total");
    match &wire[0].operator {
        Some(WireAggregationOperator::Count(c)) => assert_eq!(c.up_to, Some(1000)),
        _ => panic!("expected a count"),
    }
    match &wire[1].operator {
        Some(WireAggregationOperator::Sum(s)) => {
            assert_eq!(s.property.as_ref().unwrap().name, "salary");
        },
        _ => panic!("expected a sum"),
    }
    match &wire[2].operator {
        Some(WireAggregationOperator::Avg(a)) => {
            assert_eq!(a.property.as_ref().unwrap().name, "salary");
        },
        _ => panic!("expected an average"),
    }
    let aq = build_aggregation_query(
        convert_query("p", base_query(), Vec::new()),
        vec![Aggregation::Count("total".to_string())],
    );
    assert!(aq.nested_query.is_some());
    assert_eq!(aq.aggregations.len(), 1);
}

#[test]
fn aggregation_results_unwrap_to_aliased_entities() {
    let results = vec![WireAggregationResult {
        aggregate_properties: vec![(
            "total".to_string(),
            datastore::convert::convert_value("p", Value::IntegerValue(41), Vec::new(), false),
        )],
    }];
    let values = aggregation_results_to_values(results);
    assert_eq!(values.len(), 1);
    assert!(value_eq(
        &values[0],
        &Value::EntityValue(vec![("total".to_string(), Value::IntegerValue(41))]),
    ));
}

#[test]
fn allocate_round_trips_keys() {
    let keys = vec![
        Key::new("t".to_string(), KeyID::Incomplete),
        Key::new("t".to_string(), KeyID::IntID(5)),
    ];
    let request = datastore::ops::build_allocate_ids_request("p", &keys);
    assert_eq!(request.keys.len(), 2);
    assert_eq!(request.project_id, "p");
    let back = datastore::ops::keys_from_wire(request.keys);
    assert_eq!(back.len(), 2);
    assert!(key_eq(&back[1], &keys[1]));
}

#[test]
fn commit_results_map_generated_keys() {
    let generated = convert_key("p", &Key::new("t".to_string(), KeyID::IntID(99)));
    let results = vec![
        datastore::ops::WireMutationResult { key: Some(generated) },
        datastore::ops::WireMutationResult { key: None },
    ];
    let keys = datastore::ops::mutation_result_keys(results);
    assert_eq!(keys.len(), 2);
    assert!(key_eq(
        keys[0].as_ref().unwrap(),
        &Key::new("t".to_string(), KeyID::IntID(99)),
    ));
    assert!(keys[1].is_none());
}

#[test]
fn commit_and_rollback_requests_carry_the_essentials() {
    let mutations =
        build_delete_mutations("p", vec![Key::new("t".to_string(), KeyID::IntID(1))]).unwrap();
    let commit = datastore::ops::build_commit_request("p", mutations);
    assert_eq!(commit.mutations.len(), 1);
    assert!(commit.transaction_selector.is_none());
    assert_eq!(commit.project_id, "p");

    let tx = Transaction::new("p".to_string(), vec![9]);
    let rollback = tx.rollback_request();
    assert_eq!(rollback.transaction, vec![9]);
    assert_eq!(rollback.project_id, "p");
}

#[test]
fn transaction_options_follow_the_mode() {
    let ro = convert_trx_option(TrxOption::ReadOnly, None).unwrap();
    assert!(matches!(ro.mode, Some(WireTransactionMode::ReadOnly(_))));
    let rw = convert_trx_option(TrxOption::ReadWrite, Some(vec![5])).unwrap();
    match rw.mode {
        Some(WireTransactionMode::ReadWrite(inner)) => {
            assert_eq!(inner.previous_transaction, vec![5]);
        },
        _ => panic!("expected read-write options"),
    }
    assert!(convert_trx_option(TrxOption::ReadWrite, None).is_none());
    assert!(convert_trx_option(TrxOption::Default, None).is_none());
}

#[test]
fn filter_values_are_converted_without_exclusions() {
    let filters = vec![Filter::Equal("age".to_string(), Value::IntegerValue(18))];
    let wire = convert_filter("p", filters, CompositeFilter::And).unwrap();
    match wire.filter_type.unwrap() {
        WireFilterType::CompositeFilter(c) => {
            let v = c.filters[0].value.as_ref().unwrap();
            assert!(!v.exclude_from_indexes);
            assert!(matches!(v.value_type, Some(WireValueType::IntegerValue(18))));
        },
        _ => panic!("expected a composite filter"),
    }
}
