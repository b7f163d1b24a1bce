//! The query specification and its translation to the wire query
//! message: kind, flat filters under one composite operator, ordering,
//! projections, distinct-on, offset, limit and continuation cursor;
//! the aggregation operators over a nested query; and the pagination
//! decision of the run-query loop.
use vstd::prelude::*;

use crate::exclude::strings_view;
use crate::convert::convert_value;
use crate::convert::spec_convert_value;
use crate::values::SpecWireEntity;
use crate::values::SpecWireValue;
use crate::values::Value;
use crate::values::SpecValue;
use crate::values::WireEntity;
use crate::values::WireValue;
use crate::values::wire_value_view;

verus! {

// ---------------------------------------------------------------------
// The query specification
// ---------------------------------------------------------------------

/// An ordering directive: one property, ascending or descending.
#[derive(Clone, Debug, PartialEq)]
pub enum Order {
    Asc(String),
    Desc(String),
}

/// The one composite operator combining a query's flat filters.
#[derive(Clone, Copy, Debug, PartialEq, Eq, Structural)]
pub enum CompositeFilter {
    And,
    Or,
}

/// A flat property comparison.  `HasAncestor` compares the reserved
/// key property against a key value.
pub enum Filter {
    Equal(String, Value),
    GreaterThan(String, Value),
    LessThan(String, Value),
    GreaterThanOrEqual(String, Value),
    LessThanOrEqual(String, Value),
    HasAncestor(Value),
    In(String, Value),
    NotIn(String, Value),
    NotEqual(String, Value),
}

/// A query specification: cloned per page fetch; only the cursor is
/// overwritten between iterations.
pub struct Query {
    pub kind: String,
    pub namespace: Option<String>,
    pub filters: Vec<Filter>,
    pub composite_filter: CompositeFilter,
    pub ordering: Vec<Order>,
    pub projections: Vec<String>,
    pub distinct_on: Vec<String>,
    pub offset: i32,
    pub limit: Option<i32>,
    pub cursor: Option<Vec<u8>>,
    pub eventual: bool,
}

pub enum SpecFilter {
    Equal(Seq<char>, SpecValue),
    GreaterThan(Seq<char>, SpecValue),
    LessThan(Seq<char>, SpecValue),
    GreaterThanOrEqual(Seq<char>, SpecValue),
    LessThanOrEqual(Seq<char>, SpecValue),
    HasAncestor(SpecValue),
    In(Seq<char>, SpecValue),
    NotIn(Seq<char>, SpecValue),
    NotEqual(Seq<char>, SpecValue),
}

impl View for Filter {
    type V = SpecFilter;

    open spec fn view(&self) -> SpecFilter {
        match self {
            Filter::Equal(n, v) => SpecFilter::Equal(n@, v@),
            Filter::GreaterThan(n, v) => SpecFilter::GreaterThan(n@, v@),
            Filter::LessThan(n, v) => SpecFilter::LessThan(n@, v@),
            Filter::GreaterThanOrEqual(n, v) => SpecFilter::GreaterThanOrEqual(n@, v@),
            Filter::LessThanOrEqual(n, v) => SpecFilter::LessThanOrEqual(n@, v@),
            Filter::HasAncestor(v) => SpecFilter::HasAncestor(v@),
            Filter::In(n, v) => SpecFilter::In(n@, v@),
            Filter::NotIn(n, v) => SpecFilter::NotIn(n@, v@),
            Filter::NotEqual(n, v) => SpecFilter::NotEqual(n@, v@),
        }
    }
}

pub struct SpecQuery {
    pub kind: Seq<char>,
    pub namespace: Option<Seq<char>>,
    pub filters: Seq<SpecFilter>,
    pub composite_filter: CompositeFilter,
    pub ordering: Seq<Order>,
    pub projections: Seq<Seq<char>>,
    pub distinct_on: Seq<Seq<char>>,
    pub offset: i32,
    pub limit: Option<i32>,
    pub cursor: Option<Seq<u8>>,
    pub eventual: bool,
}

/// The views of a filter list.
pub open spec fn filters_view(s: Seq<Filter>) -> Seq<SpecFilter> {
    s.map_values(|f: Filter| f@)
}

impl View for Query {
    type V = SpecQuery;

    open spec fn view(&self) -> SpecQuery {
        SpecQuery {
            kind: self.kind@,
            namespace: match self.namespace {
                Option::Some(n) => Option::Some(n@),
                Option::None => Option::None,
            },
            filters: filters_view(self.filters@),
            composite_filter: self.composite_filter,
            ordering: self.ordering@,
            projections: strings_view(self.projections@),
            distinct_on: strings_view(self.distinct_on@),
            offset: self.offset,
            limit: self.limit,
            cursor: match self.cursor {
                Option::Some(c) => Option::Some(c@),
                Option::None => Option::None,
            },
            eventual: self.eventual,
        }
    }
}

// ---------------------------------------------------------------------
// The wire query messages
// ---------------------------------------------------------------------

/// A reference to a property by name.
#[derive(Clone, Debug, PartialEq)]
pub struct WirePropertyReference {
    pub name: String,
}

/// The kind a query ranges over.
#[derive(Clone, Debug, PartialEq)]
pub struct WireKindExpression {
    pub name: String,
}

/// One projected property.
#[derive(Clone, Debug, PartialEq)]
pub struct WireProjection {
    pub property: Option<WirePropertyReference>,
}

#[derive(Clone, Copy, Debug, PartialEq, Eq, Structural)]
pub enum WireDirection {
    Unspecified,
    Ascending,
    Descending,
}

/// One ordering directive on the wire.
#[derive(Clone, Debug, PartialEq)]
pub struct WirePropertyOrder {
    pub property: Option<WirePropertyReference>,
    pub direction: WireDirection,
}

#[derive(Clone, Copy, Debug, PartialEq, Eq, Structural)]
pub enum WirePropertyOperator {
    Unspecified,
    LessThan,
    LessThanOrEqual,
    GreaterThan,
    GreaterThanOrEqual,
    Equal,
    In,
    NotIn,
    NotEqual,
    HasAncestor,
}

/// One flat property comparison on the wire.
pub struct WirePropertyFilter {
    pub property: Option<WirePropertyReference>,
    pub op: WirePropertyOperator,
    pub value: Option<WireValue>,
}

#[derive(Clone, Copy, Debug, PartialEq, Eq, Structural)]
pub enum WireCompositeOperator {
    Unspecified,
    And,
    Or,
}

/// The one composite filter of a query: a single operator over flat
/// property filters.  The protocol's filter tree is at most two levels
/// deep in this model — one composite wrapping flat comparisons — so
/// the nesting is carried directly.
pub struct WireCompositeFilter {
    pub op: WireCompositeOperator,
    pub filters: Vec<WirePropertyFilter>,
}

pub enum WireFilterType {
    CompositeFilter(WireCompositeFilter),
    PropertyFilter(WirePropertyFilter),
}

/// The filter slot of a wire query.
pub struct WireFilter {
    pub filter_type: Option<WireFilterType>,
}

/// The wire query message.
pub struct WireQuery {
    pub kind: Vec<WireKindExpression>,
    pub projection: Vec<WireProjection>,
    pub filter: Option<WireFilter>,
    pub order: Vec<WirePropertyOrder>,
    pub distinct_on: Vec<WirePropertyReference>,
    pub offset: i32,
    pub limit: Option<i32>,
    pub start_cursor: Vec<u8>,
    pub end_cursor: Vec<u8>,
}

pub struct SpecWirePropertyFilter {
    pub property: Option<Seq<char>>,
    pub op: WirePropertyOperator,
    pub value: Option<SpecWireValue>,
}

impl View for WirePropertyFilter {
    type V = SpecWirePropertyFilter;

    open spec fn view(&self) -> SpecWirePropertyFilter {
        SpecWirePropertyFilter {
            property: match self.property {
                Option::Some(p) => Option::Some(p.name@),
                Option::None => Option::None,
            },
            op: self.op,
            value: match self.value {
                Option::Some(v) => Option::Some(wire_value_view(v)),
                Option::None => Option::None,
            },
        }
    }
}

pub struct SpecWireCompositeFilter {
    pub op: WireCompositeOperator,
    pub filters: Seq<SpecWirePropertyFilter>,
}

/// The views of a list of wire property filters.
pub open spec fn wire_prop_filters_view(s: Seq<WirePropertyFilter>) -> Seq<SpecWirePropertyFilter> {
    s.map_values(|f: WirePropertyFilter| f@)
}

pub enum SpecWireFilterType {
    CompositeFilter(SpecWireCompositeFilter),
    PropertyFilter(SpecWirePropertyFilter),
}

pub struct SpecWireFilter {
    pub filter_type: Option<SpecWireFilterType>,
}

impl View for WireFilter {
    type V = SpecWireFilter;

    open spec fn view(&self) -> SpecWireFilter {
        SpecWireFilter {
            filter_type: match self.filter_type {
                Option::Some(WireFilterType::CompositeFilter(c)) => Option::Some(
                    SpecWireFilterType::CompositeFilter(
                        SpecWireCompositeFilter {
                            op: c.op,
                            filters: wire_prop_filters_view(c.filters@),
                        },
                    ),
                ),
                Option::Some(WireFilterType::PropertyFilter(p)) => Option::Some(
                    SpecWireFilterType::PropertyFilter(p@),
                ),
                Option::None => Option::None,
            },
        }
    }
}

pub struct SpecWireQuery {
    pub kind: Seq<Seq<char>>,
    pub projection: Seq<Seq<char>>,
    pub filter: Option<SpecWireFilter>,
    pub order: Seq<(Seq<char>, WireDirection)>,
    pub distinct_on: Seq<Seq<char>>,
    pub offset: i32,
    pub limit: Option<i32>,
    pub start_cursor: Seq<u8>,
    pub end_cursor: Seq<u8>,
}

impl View for WireQuery {
    type V = SpecWireQuery;

    open spec fn view(&self) -> SpecWireQuery {
        SpecWireQuery {
            kind: self.kind@.map_values(|k: WireKindExpression| k.name@),
            projection: self.projection@.map_values(
                |p: WireProjection|
                    match p.property {
                        Option::Some(r) => r.name@,
                        Option::None => Seq::empty(),
                    },
            ),
            filter: match self.filter {
                Option::Some(f) => Option::Some(f@),
                Option::None => Option::None,
            },
            order: self.order@.map_values(
                |o: WirePropertyOrder|
                    (
                        match o.property {
                            Option::Some(r) => r.name@,
                            Option::None => Seq::empty(),
                        },
                        o.direction,
                    ),
            ),
            distinct_on: self.distinct_on@.map_values(|r: WirePropertyReference| r.name@),
            offset: self.offset,
            limit: self.limit,
            start_cursor: self.start_cursor@,
            end_cursor: self.end_cursor@,
        }
    }
}

// ---------------------------------------------------------------------
// Filter translation
// ---------------------------------------------------------------------

/// The property name, wire operator and value of one flat filter; an
/// ancestor filter addresses the reserved key property.
pub open spec fn spec_filter_parts(f: SpecFilter) -> (Seq<char>, WirePropertyOperator, SpecValue) {
    match f {
        SpecFilter::Equal(n, v) => (n, WirePropertyOperator::Equal, v),
        SpecFilter::GreaterThan(n, v) => (n, WirePropertyOperator::GreaterThan, v),
        SpecFilter::LessThan(n, v) => (n, WirePropertyOperator::LessThan, v),
        SpecFilter::GreaterThanOrEqual(n, v) => (n, WirePropertyOperator::GreaterThanOrEqual, v),
        SpecFilter::LessThanOrEqual(n, v) => (n, WirePropertyOperator::LessThanOrEqual, v),
        SpecFilter::HasAncestor(v) => ("__key__"@, WirePropertyOperator::HasAncestor, v),
        SpecFilter::In(n, v) => (n, WirePropertyOperator::In, v),
        SpecFilter::NotIn(n, v) => (n, WirePropertyOperator::NotIn, v),
        SpecFilter::NotEqual(n, v) => (n, WirePropertyOperator::NotEqual, v),
    }
}

/// One flat filter on the wire: its value is converted with no path
/// exclusions and no ambient exclusion.
pub open spec fn spec_convert_one_filter(f: SpecFilter, project: Seq<char>) -> SpecWirePropertyFilter {
    let (name, op, value) = spec_filter_parts(f);
    SpecWirePropertyFilter {
        property: Option::Some(name),
        op: op,
        value: Option::Some(spec_convert_value(value, Seq::empty(), false, project)),
    }
}

/// The filter slot of a query: nothing when the query has no filters,
/// else one composite of the given operator over the flat filters in
/// their given order.
pub open spec fn spec_convert_filter(
    filters: Seq<SpecFilter>,
    composite: CompositeFilter,
    project: Seq<char>,
) -> Option<SpecWireFilter> {
    if filters.len() == 0 {
        Option::None
    } else {
        Option::Some(
            SpecWireFilter {
                filter_type: Option::Some(
                    SpecWireFilterType::CompositeFilter(
                        SpecWireCompositeFilter {
                            op: match composite {
                                CompositeFilter::And => WireCompositeOperator::And,
                                CompositeFilter::Or => WireCompositeOperator::Or,
                            },
                            filters: filters.map_values(
                                |f: SpecFilter| spec_convert_one_filter(f, project),
                            ),
                        },
                    ),
                ),
            },
        )
    }
}

/// Translates one flat filter to its wire property filter.
fn convert_one_filter(project_name: &str, f: Filter) -> (r: WirePropertyFilter)
    ensures
        r@ == spec_convert_one_filter(f@, project_name@),
{
    let ghost fv = f@;
    let (name, op, value): (String, WirePropertyOperator, Value) = match f {
        Filter::Equal(n, v) => (n, WirePropertyOperator::Equal, v),
        Filter::GreaterThan(n, v) => (n, WirePropertyOperator::GreaterThan, v),
        Filter::LessThan(n, v) => (n, WirePropertyOperator::LessThan, v),
        Filter::GreaterThanOrEqual(n, v) => (n, WirePropertyOperator::GreaterThanOrEqual, v),
        Filter::LessThanOrEqual(n, v) => (n, WirePropertyOperator::LessThanOrEqual, v),
        Filter::HasAncestor(v) => {
            let s: &str = "__key__";
            (s.to_owned(), WirePropertyOperator::HasAncestor, v)
        },
        Filter::In(n, v) => (n, WirePropertyOperator::In, v),
        Filter::NotIn(n, v) => (n, WirePropertyOperator::NotIn, v),
        Filter::NotEqual(n, v) => (n, WirePropertyOperator::NotEqual, v),
    };
    proof {
        assert(spec_filter_parts(fv) == (name@, op, value@));
    }
    let wire_value = convert_value(project_name, value, Vec::new(), false);
    proof {
        assert(strings_view(Seq::<String>::empty()) =~= Seq::<Seq<char>>::empty());
    }
    WirePropertyFilter {
        property: Option::Some(WirePropertyReference { name }),
        op,
        value: Option::Some(wire_value),
    }
}

/// Translates a query's flat filters into its wire filter slot.
pub fn convert_filter(project_name: &str, filters: Vec<Filter>, composite_filter: CompositeFilter)
    -> (r: Option<WireFilter>)
    ensures
        (match r {
            Option::Some(f) => Option::Some(f@),
            Option::None => Option::None,
        }) == spec_convert_filter(filters_view(filters@), composite_filter, project_name@),
{
    let ghost s0 = filters_view(filters@);
    let ghost target = s0.map_values(|f: SpecFilter| spec_convert_one_filter(f, project_name@));
    if filters.len() == 0 {
        return Option::None;
    }
    let mut filters = filters;
    let mut out: Vec<WirePropertyFilter> = Vec::new();
    proof {
        assert(wire_prop_filters_view(out@) =~= target.take(0));
    }
    while filters.len() > 0
        invariant
            out@.len() + filters@.len() == s0.len(),
            filters_view(filters@) =~= s0.skip(out@.len() as int),
            target == s0.map_values(|f: SpecFilter| spec_convert_one_filter(f, project_name@)),
            wire_prop_filters_view(out@) == target.take(out@.len() as int),
        decreases filters@.len(),
    {
        let ghost j = out@.len() as int;
        let ghost before = filters@;
        let f = filters.remove(0);
        let ghost fv = f@;
        proof {
            assert(filters_view(before)[0] == fv);
            assert(fv == s0.skip(j)[0]);
            assert(fv == s0[j]);
            assert(filters_view(filters@) =~= s0.skip(j + 1)) by {
                assert forall|i: int|
                    0 <= i < filters@.len() implies filters_view(filters@)[i] == s0.skip(j + 1)[i]
                by {
                    assert(filters@[i] == before[i + 1]);
                    assert(filters_view(before)[i + 1] == before[i + 1]@);
                    assert(filters_view(before)[i + 1] == s0.skip(j)[i + 1]);
                }
            };
        }
        let wire = convert_one_filter(project_name, f);
        out.push(wire);
        proof {
            assert(target[j] == spec_convert_one_filter(s0[j], project_name@));
            assert(target.take(j + 1) =~= target.take(j).push(target[j]));
            assert(wire_prop_filters_view(out@) =~= target.take(j + 1));
        }
    }
    proof {
        assert(target.take(s0.len() as int) =~= target);
    }
    Option::Some(WireFilter {
        filter_type: Option::Some(WireFilterType::CompositeFilter(WireCompositeFilter {
            op: match composite_filter {
                CompositeFilter::And => WireCompositeOperator::And,
                CompositeFilter::Or => WireCompositeOperator::Or,
            },
            filters: out,
        })),
    })
}

// ---------------------------------------------------------------------
// Query translation
// ---------------------------------------------------------------------

/// The wire name and direction of one ordering directive.
pub open spec fn spec_order_parts(o: Order) -> (Seq<char>, WireDirection) {
    match o {
        Order::Asc(n) => (n@, WireDirection::Ascending),
        Order::Desc(n) => (n@, WireDirection::Descending),
    }
}

/// The wire query a specification and a cursor translate to: one kind,
/// the projections and distinct-on lists name for name, the filter
/// slot, the ordering with its directions, offset and limit as given,
/// the cursor as the start cursor, and an empty end cursor.
pub open spec fn spec_convert_query(q: SpecQuery, cursor: Seq<u8>, project: Seq<char>)
    -> SpecWireQuery {
    SpecWireQuery {
        kind: seq![q.kind],
        projection: q.projections,
        filter: spec_convert_filter(q.filters, q.composite_filter, project),
        order: q.ordering.map_values(|o: Order| spec_order_parts(o)),
        distinct_on: q.distinct_on,
        offset: q.offset,
        limit: q.limit,
        start_cursor: cursor,
        end_cursor: Seq::empty(),
    }
}

/// Translates a query specification and a continuation cursor into the
/// wire query message.
pub fn convert_query(project_name: &str, cur_query: Query, cursor: Vec<u8>) -> (r: WireQuery)
    ensures
        r@ == spec_convert_query(cur_query@, cursor@, project_name@),
{
    let ghost qv = cur_query@;
    let filter = convert_filter(project_name, cur_query.filters, cur_query.composite_filter);

    let mut projection: Vec<WireProjection> = Vec::new();
    let mut i: usize = 0;
    while i < cur_query.projections.len()
        invariant
            0 <= i <= cur_query.projections.len(),
            projection@.len() == i,
            forall|m: int|
                0 <= m < i ==> (#[trigger] projection@[m]).property == Option::Some(
                    WirePropertyReference { name: cur_query.projections@[m] },
                ),
        decreases cur_query.projections.len() - i,
    {
        projection.push(WireProjection {
            property: Option::Some(WirePropertyReference { name: cur_query.projections[i].clone() }),
        });
        i = i + 1;
    }

    let mut order: Vec<WirePropertyOrder> = Vec::new();
    let mut i: usize = 0;
    while i < cur_query.ordering.len()
        invariant
            0 <= i <= cur_query.ordering.len(),
            order@.len() == i,
            forall|m: int|
                0 <= m < i ==> (match (#[trigger] order@[m]).property {
                    Option::Some(p) => (p.name@, order@[m].direction) == spec_order_parts(
                        cur_query.ordering@[m],
                    ),
                    Option::None => false,
                }),
        decreases cur_query.ordering.len() - i,
    {
        let (name, direction): (String, WireDirection) = match &cur_query.ordering[i] {
            Order::Asc(n) => (n.clone(), WireDirection::Ascending),
            Order::Desc(n) => (n.clone(), WireDirection::Descending),
        };
        order.push(WirePropertyOrder {
            property: Option::Some(WirePropertyReference { name }),
            direction,
        });
        i = i + 1;
    }

    let mut distinct_on: Vec<WirePropertyReference> = Vec::new();
    let mut i: usize = 0;
    while i < cur_query.distinct_on.len()
        invariant
            0 <= i <= cur_query.distinct_on.len(),
            distinct_on@.len() == i,
            forall|m: int|
                0 <= m < i ==> (#[trigger] distinct_on@[m]).name == cur_query.distinct_on@[m],
        decreases cur_query.distinct_on.len() - i,
    {
        distinct_on.push(WirePropertyReference { name: cur_query.distinct_on[i].clone() });
        i = i + 1;
    }

    let r = WireQuery {
        kind: vec![WireKindExpression { name: cur_query.kind }],
        projection,
        filter,
        order,
        distinct_on,
        offset: cur_query.offset,
        limit: cur_query.limit,
        start_cursor: cursor,
        end_cursor: Vec::new(),
    };
    proof {
        let target = spec_convert_query(qv, cursor@, project_name@);
        assert(r@.kind =~= target.kind);
        assert(r@.projection =~= target.projection);
        assert(r@.order =~= target.order);
        assert(r@.distinct_on =~= target.distinct_on);
        assert(r@.end_cursor =~= target.end_cursor);
        assert(r@.filter == target.filter);
    }
    r
}

// ---------------------------------------------------------------------
// Read options and the run-query request
// ---------------------------------------------------------------------

#[derive(Clone, Copy, Debug, PartialEq, Eq, Structural)]
pub enum WireReadConsistency {
    Unspecified,
    Strong,
    Eventual,
}

/// How a read is answered: at a named consistency, or inside a
/// transaction identified by its key.
pub enum WireConsistencyType {
    ReadConsistency(WireReadConsistency),
    Transaction(Vec<u8>),
}

/// The read options slot of a lookup or run-query request.
pub struct WireReadOptions {
    pub consistency_type: Option<WireConsistencyType>,
}

pub enum SpecWireConsistencyType {
    ReadConsistency(WireReadConsistency),
    Transaction(Seq<u8>),
}

impl View for WireReadOptions {
    type V = Option<SpecWireConsistencyType>;

    open spec fn view(&self) -> Option<SpecWireConsistencyType> {
        match self.consistency_type {
            Option::Some(WireConsistencyType::ReadConsistency(c)) => Option::Some(
                SpecWireConsistencyType::ReadConsistency(c),
            ),
            Option::Some(WireConsistencyType::Transaction(t)) => Option::Some(
                SpecWireConsistencyType::Transaction(t@),
            ),
            Option::None => Option::None,
        }
    }
}

/// The read options a request carries: the transaction when one is
/// given, else the eventual or strong consistency the caller chose.
pub open spec fn spec_read_options(tx_id: Option<Seq<u8>>, eventual: bool) -> Option<
    SpecWireConsistencyType,
> {
    match tx_id {
        Option::Some(tx) => Option::Some(SpecWireConsistencyType::Transaction(tx)),
        Option::None => Option::Some(
            SpecWireConsistencyType::ReadConsistency(
                if eventual {
                    WireReadConsistency::Eventual
                } else {
                    WireReadConsistency::Strong
                },
            ),
        ),
    }
}

/// Builds the read options of a run-query request.
pub fn build_read_options(tx_id: Option<Vec<u8>>, eventual: bool) -> (r: WireReadOptions)
    ensures
        r@ == spec_read_options(
            match tx_id {
                Option::Some(t) => Option::Some(t@),
                Option::None => Option::None,
            },
            eventual,
        ),
{
    WireReadOptions {
        consistency_type: Option::Some(
            match tx_id {
                Option::Some(tx) => WireConsistencyType::Transaction(tx),
                Option::None => WireConsistencyType::ReadConsistency(
                    if eventual {
                        WireReadConsistency::Eventual
                    } else {
                        WireReadConsistency::Strong
                    },
                ),
            },
        ),
    }
}

/// One run-query request.
pub struct WireRunQueryRequest {
    pub partition_id: Option<crate::keys::WirePartitionId>,
    pub query: Option<WireQuery>,
    pub read_options: Option<WireReadOptions>,
    pub project_id: String,
    pub database_id: String,
}

/// Builds a whole run-query request from a query specification, the
/// cursor of the current iteration, and an optional transaction key:
/// the partition names the project and the query's namespace, and the
/// read options carry the transaction or the chosen consistency.
pub fn build_run_query_request(
    project_name: &str,
    cur_query: Query,
    cursor: Vec<u8>,
    tx_id: Option<Vec<u8>>,
) -> (r: WireRunQueryRequest)
    ensures
        (match r.partition_id {
            Option::Some(p) => p.project_id@ == project_name@ && p.database_id@ == Seq::<
                char,
            >::empty() && p.namespace_id@ == crate::keys::spec_namespace_to_wire(
                cur_query@.namespace,
            ),
            Option::None => false,
        }),
        (match r.query {
            Option::Some(q) => q@ == spec_convert_query(cur_query@, cursor@, project_name@),
            Option::None => false,
        }),
        (match r.read_options {
            Option::Some(ro) => ro@ == spec_read_options(
                match tx_id {
                    Option::Some(t) => Option::Some(t@),
                    Option::None => Option::None,
                },
                cur_query@.eventual,
            ),
            Option::None => false,
        }),
        r.project_id@ == project_name@,
        r.database_id@ == Seq::<char>::empty(),
{
    let namespace_id = match &cur_query.namespace {
        Option::Some(n) => n.clone(),
        Option::None => String::new(),
    };
    let eventual = cur_query.eventual;
    let api_query = convert_query(project_name, cur_query, cursor);
    WireRunQueryRequest {
        partition_id: Option::Some(crate::keys::WirePartitionId {
            project_id: project_name.to_owned(),
            database_id: String::new(),
            namespace_id,
        }),
        query: Option::Some(api_query),
        read_options: Option::Some(build_read_options(tx_id, eventual)),
        project_id: project_name.to_owned(),
        database_id: String::new(),
    }
}

// ---------------------------------------------------------------------
// Pagination
// ---------------------------------------------------------------------

/// The server's progress indicator on one result batch.
#[derive(Clone, Copy, Debug, PartialEq, Eq, Structural)]
pub enum MoreResultsType {
    Unspecified,
    NotFinished,
    MoreResultsAfterLimit,
    MoreResultsAfterCursor,
    NoMoreResults,
}

/// One result slot of a lookup or query response.
pub struct WireEntityResult {
    pub entity: Option<WireEntity>,
}

/// One batch of a paginated query response.
pub struct WireQueryResultBatch {
    pub entity_results: Vec<WireEntityResult>,
    pub more_results: MoreResultsType,
    pub end_cursor: Vec<u8>,
}

pub struct SpecWireEntityResult {
    pub entity: Option<SpecWireEntity>,
}

impl View for WireEntityResult {
    type V = SpecWireEntityResult;

    open spec fn view(&self) -> SpecWireEntityResult {
        SpecWireEntityResult {
            entity: match self.entity {
                Option::Some(e) => Option::Some(e@),
                Option::None => Option::None,
            },
        }
    }
}

pub struct SpecWireQueryResultBatch {
    pub entity_results: Seq<SpecWireEntityResult>,
    pub more_results: MoreResultsType,
    pub end_cursor: Seq<u8>,
}

/// The views of a result list.
pub open spec fn entity_results_view(s: Seq<WireEntityResult>) -> Seq<SpecWireEntityResult> {
    s.map_values(|r: WireEntityResult| r@)
}

impl View for WireQueryResultBatch {
    type V = SpecWireQueryResultBatch;

    open spec fn view(&self) -> SpecWireQueryResultBatch {
        SpecWireQueryResultBatch {
            entity_results: entity_results_view(self.entity_results@),
            more_results: self.more_results,
            end_cursor: self.end_cursor@,
        }
    }
}

/// The views of a batch list.
pub open spec fn batches_view(s: Seq<WireQueryResultBatch>) -> Seq<SpecWireQueryResultBatch> {
    s.map_values(|b: WireQueryResultBatch| b@)
}

/// The views of an entity list.
pub open spec fn wire_entities_view(s: Seq<WireEntity>) -> Seq<SpecWireEntity> {
    s.map_values(|e: WireEntity| crate::values::wire_entity_view(e))
}

/// The pagination decision: the loop goes on exactly when the server
/// reported the not-finished indicator; any other indicator halts it.
pub fn page_continues(more: MoreResultsType) -> (r: bool)
    ensures
        r == (more is NotFinished),
{
    match more {
        MoreResultsType::NotFinished => true,
        _ => false,
    }
}

/// Every result slot of every batch carries an entity.
pub open spec fn spec_batches_filled(s: Seq<SpecWireQueryResultBatch>) -> bool {
    forall|i: int, j: int|
        0 <= i < s.len() && 0 <= j < s[i].entity_results.len() ==> (
        #[trigger] s[i].entity_results[j]).entity is Some
}

/// The index of the first batch whose indicator halts the loop, or the
/// batch count when every batch reports not finished.
pub open spec fn spec_first_finished(s: Seq<SpecWireQueryResultBatch>) -> int
    decreases s.len(),
{
    if s.len() == 0 {
        0
    } else if !(s[0].more_results is NotFinished) {
        0
    } else {
        1 + spec_first_finished(s.drop_first())
    }
}

/// What `spec_first_finished` finds.
pub proof fn lemma_first_finished(s: Seq<SpecWireQueryResultBatch>)
    ensures
        0 <= spec_first_finished(s) <= s.len(),
        spec_first_finished(s) < s.len() ==> !(s[spec_first_finished(s)].more_results
            is NotFinished),
        forall|i: int| 0 <= i < spec_first_finished(s) ==> s[i].more_results is NotFinished,
    decreases s.len(),
{
    if s.len() > 0 && s[0].more_results is NotFinished {
        lemma_first_finished(s.drop_first());
        assert forall|i: int|
            0 <= i < spec_first_finished(s) implies s[i].more_results is NotFinished by {
            if i > 0 {
                assert(s.drop_first()[i - 1] == s[i]);
            }
        }
    }
}

/// The entities of one batch, in their order.
pub open spec fn spec_batch_entities(s: Seq<SpecWireEntityResult>) -> Seq<SpecWireEntity> {
    s.map_values(|r: SpecWireEntityResult| r.entity->0)
}

/// The entities of the first `upto` batches, concatenated in batch
/// order.
pub open spec fn spec_pages_entities(s: Seq<SpecWireQueryResultBatch>, upto: int) -> Seq<
    SpecWireEntity,
>
    decreases upto,
{
    if upto <= 0 {
        Seq::empty()
    } else {
        spec_pages_entities(s, upto - 1) + spec_batch_entities(s[upto - 1].entity_results)
    }
}

/// The entities of one response batch.
fn batch_entities(results: Vec<WireEntityResult>) -> (r: Vec<WireEntity>)
    requires
        forall|j: int|
            0 <= j < results@.len() ==> (#[trigger] results@[j]).entity is Some,
    ensures
        wire_entities_view(r@) == spec_batch_entities(entity_results_view(results@)),
    decreases results@.len(),
{
    let ghost s0 = results@;
    let mut results = results;
    let mut out: Vec<WireEntity> = Vec::new();
    proof {
        assert(wire_entities_view(out@) =~= spec_batch_entities(entity_results_view(s0)).take(0));
    }
    while results.len() > 0
        invariant
            out@.len() + results@.len() == s0.len(),
            results@ =~= s0.skip(out@.len() as int),
            forall|j: int| 0 <= j < s0.len() ==> (#[trigger] s0[j]).entity is Some,
            wire_entities_view(out@) == spec_batch_entities(entity_results_view(s0)).take(
                out@.len() as int,
            ),
        decreases results@.len(),
    {
        let ghost j = out@.len() as int;
        let er = results.remove(0);
        proof {
            assert(er == s0[j]);
        }
        match er.entity {
            Option::Some(e) => {
                out.push(e);
            },
            Option::None => {
                proof {
                    assert(false);
                }
            },
        }
        proof {
            let target = spec_batch_entities(entity_results_view(s0));
            assert(target[j] == s0[j]@.entity->0);
            assert(target.take(j + 1) =~= target.take(j).push(target[j]));
            assert(wire_entities_view(out@) =~= target.take(j + 1));
        }
    }
    proof {
        let target = spec_batch_entities(entity_results_view(s0));
        assert(target.take(s0.len() as int) =~= target);
    }
    out
}

/// Folds a paginated response: consumes batches in order, accumulating
/// each batch's entities, until the first batch whose indicator is not
/// the not-finished sentinel; returns the accumulated entities in
/// request order, that batch's end cursor, and the number of requests
/// the loop issued.  When every batch reports not finished the fold is
/// incomplete and nothing is returned: the caller must fetch another
/// page.
#[verifier::loop_isolation(false)]
pub fn collect_query_pages(batches: Vec<WireQueryResultBatch>) -> (r: Option<
    (Vec<WireEntity>, Vec<u8>, usize),
>)
    requires
        spec_batches_filled(batches_view(batches@)),
    ensures
        r is Some ==> spec_first_finished(batches_view(batches@)) < batches_view(batches@).len(),
        r is Some ==> (r->0).2 == spec_first_finished(batches_view(batches@)) + 1,
        r is Some ==> (r->0).1@ == batches_view(batches@)[spec_first_finished(
            batches_view(batches@),
        )].end_cursor,
        r is Some ==> wire_entities_view((r->0).0@) == spec_pages_entities(
            batches_view(batches@),
            spec_first_finished(batches_view(batches@)) + 1,
        ),
        r is None ==> spec_first_finished(batches_view(batches@)) == batches_view(
            batches@,
        ).len(),
{
    let ghost bv = batches_view(batches@);
    let ghost n0 = batches.len();
    proof {
        lemma_first_finished(bv);
    }
    let mut batches = batches;
    let mut output: Vec<WireEntity> = Vec::new();
    let mut used: usize = 0;
    proof {
        assert(wire_entities_view(output@) =~= spec_pages_entities(bv, 0));
    }
    while batches.len() > 0
        invariant
            used + batches@.len() == n0,
            bv.len() == n0,
            batches_view(batches@) =~= bv.skip(used as int),
            spec_batches_filled(bv),
            forall|i: int| 0 <= i < used ==> (#[trigger] bv[i]).more_results is NotFinished,
            wire_entities_view(output@) == spec_pages_entities(bv, used as int),
        decreases batches@.len(),
    {
        let ghost j = used as int;
        let ghost before = batches@;
        let batch = batches.remove(0);
        proof {
            assert(batches_view(before)[0] == before[0]@);
            assert(batch@ == bv.skip(j)[0]);
            assert(batch@ == bv[j]);
            assert(batches_view(batches@) =~= bv.skip(j + 1)) by {
                assert forall|i: int|
                    0 <= i < batches@.len() implies batches_view(batches@)[i] == bv.skip(j + 1)[i]
                by {
                    assert(batches@[i] == before[i + 1]);
                    assert(batches_view(before)[i + 1] == before[i + 1]@);
                    assert(batches_view(before)[i + 1] == bv.skip(j)[i + 1]);
                }
            };
            assert forall|m: int|
                0 <= m < batch.entity_results@.len() implies (
            #[trigger] batch.entity_results@[m]).entity is Some by {
                assert(bv[j].entity_results[m] == batch.entity_results@[m]@);
            }
        }
        let ghost bval = batch@;
        let WireQueryResultBatch { entity_results, more_results, end_cursor } = batch;
        proof {
            assert(entity_results_view(entity_results@) == bval.entity_results);
        }
        let mut page = batch_entities(entity_results);
        let ghost outb = output@;
        let ghost pageb = page@;
        output.append(&mut page);
        used = used + 1;
        proof {
            assert(output@ == outb + pageb);
            assert(wire_entities_view(pageb) == spec_batch_entities(bval.entity_results));
            assert(spec_pages_entities(bv, j + 1) == spec_pages_entities(bv, j)
                + spec_batch_entities(bv[j].entity_results));
            assert(wire_entities_view(output@) =~= spec_pages_entities(bv, j + 1)) by {
                assert forall|i: int|
                    0 <= i < output@.len() implies wire_entities_view(output@)[i]
                    == spec_pages_entities(bv, j + 1)[i] by {
                    if i < outb.len() {
                        assert(output@[i] == outb[i]);
                        assert(wire_entities_view(outb)[i] == crate::values::wire_entity_view(
                            outb[i],
                        ));
                    } else {
                        assert(output@[i] == pageb[i - outb.len()]);
                        assert(wire_entities_view(pageb)[i - outb.len()]
                            == crate::values::wire_entity_view(pageb[i - outb.len()]));
                    }
                }
            };
        }
        if !page_continues(more_results) {
            proof {
                lemma_first_finished(bv);
                assert(bval.more_results == bv[j].more_results);
                assert(!(bv[j].more_results is NotFinished));
                assert(spec_first_finished(bv) == j) by {
                    if spec_first_finished(bv) < j {
                        assert(bv[spec_first_finished(bv)].more_results is NotFinished);
                    }
                    if spec_first_finished(bv) > j {
                        assert(bv[j].more_results is NotFinished);
                    }
                }
                assert(j < bv.len());
                assert(used == j + 1);
                assert(end_cursor@ == bv[j].end_cursor);
                assert(wire_entities_view(output@) == spec_pages_entities(bv, j + 1));
            }
            return Option::Some((output, end_cursor, used));
        }
        proof {
            assert(batches_view(batches@) =~= bv.skip(used as int));
        }
    }
    proof {
        lemma_first_finished(bv);
        assert(spec_first_finished(bv) == bv.len()) by {
            if spec_first_finished(bv) < bv.len() {
                assert(bv[spec_first_finished(bv)].more_results is NotFinished);
            }
        }
    }
    Option::None
}

// ---------------------------------------------------------------------
// Aggregations
// ---------------------------------------------------------------------

/// An aggregation over a query: a count, or a sum or average of one
/// property, each under a result alias.
#[derive(Clone, Debug, PartialEq)]
pub enum Aggregation {
    Count(String),
    Sum(String, String),
    Avg(String, String),
}

/// The fixed upper bound a count aggregation carries, capping
/// server-side counting cost.
pub const COUNT_UP_TO: i64 = 1000;

/// The count operator on the wire, with its upper bound.
pub struct WireCount {
    pub up_to: Option<i64>,
}

/// The sum operator on the wire.
pub struct WireSum {
    pub property: Option<WirePropertyReference>,
}

/// The average operator on the wire.
pub struct WireAvg {
    pub property: Option<WirePropertyReference>,
}

pub enum WireAggregationOperator {
    Count(WireCount),
    Sum(WireSum),
    Avg(WireAvg),
}

/// One named aggregation on the wire.
pub struct WireAggregation {
    pub operator: Option<WireAggregationOperator>,
    pub alias: String,
}

/// The aggregation query message: the operators over a nested query.
pub struct WireAggregationQuery {
    pub aggregations: Vec<WireAggregation>,
    pub nested_query: Option<WireQuery>,
}

pub enum SpecAggregation {
    Count(Seq<char>),
    Sum(Seq<char>, Seq<char>),
    Avg(Seq<char>, Seq<char>),
}

impl View for Aggregation {
    type V = SpecAggregation;

    open spec fn view(&self) -> SpecAggregation {
        match self {
            Aggregation::Count(alias) => SpecAggregation::Count(alias@),
            Aggregation::Sum(alias, property) => SpecAggregation::Sum(alias@, property@),
            Aggregation::Avg(alias, property) => SpecAggregation::Avg(alias@, property@),
        }
    }
}

pub enum SpecWireAggregationOperator {
    Count(Option<i64>),
    Sum(Option<Seq<char>>),
    Avg(Option<Seq<char>>),
}

pub struct SpecWireAggregation {
    pub operator: Option<SpecWireAggregationOperator>,
    pub alias: Seq<char>,
}

impl View for WireAggregation {
    type V = SpecWireAggregation;

    open spec fn view(&self) -> SpecWireAggregation {
        SpecWireAggregation {
            operator: match self.operator {
                Option::Some(WireAggregationOperator::Count(c)) => Option::Some(
                    SpecWireAggregationOperator::Count(c.up_to),
                ),
                Option::Some(WireAggregationOperator::Sum(s)) => Option::Some(
                    SpecWireAggregationOperator::Sum(
                        match s.property {
                            Option::Some(p) => Option::Some(p.name@),
                            Option::None => Option::None,
                        },
                    ),
                ),
                Option::Some(WireAggregationOperator::Avg(a)) => Option::Some(
                    SpecWireAggregationOperator::Avg(
                        match a.property {
                            Option::Some(p) => Option::Some(p.name@),
                            Option::None => Option::None,
                        },
                    ),
                ),
                Option::None => Option::None,
            },
            alias: self.alias@,
        }
    }
}

/// The views of an aggregation list.
pub open spec fn aggregations_view(s: Seq<Aggregation>) -> Seq<SpecAggregation> {
    s.map_values(|a: Aggregation| a@)
}

/// The views of a wire aggregation list.
pub open spec fn wire_aggregations_view(s: Seq<WireAggregation>) -> Seq<SpecWireAggregation> {
    s.map_values(|a: WireAggregation| a@)
}

/// The wire operator of one aggregation: a count carries the fixed
/// upper bound; sum and average carry their property.
pub open spec fn spec_convert_aggregation(a: SpecAggregation) -> SpecWireAggregation {
    match a {
        SpecAggregation::Count(alias) => SpecWireAggregation {
            operator: Option::Some(
                SpecWireAggregationOperator::Count(Option::Some(COUNT_UP_TO)),
            ),
            alias: alias,
        },
        SpecAggregation::Sum(alias, property) => SpecWireAggregation {
            operator: Option::Some(SpecWireAggregationOperator::Sum(Option::Some(property))),
            alias: alias,
        },
        SpecAggregation::Avg(alias, property) => SpecWireAggregation {
            operator: Option::Some(SpecWireAggregationOperator::Avg(Option::Some(property))),
            alias: alias,
        },
    }
}

/// Translates one aggregation to its wire operator.
fn convert_one_aggregation(aggr: Aggregation) -> (r: WireAggregation)
    ensures
        r@ == spec_convert_aggregation(aggr@),
{
    match aggr {
        Aggregation::Count(alias) => WireAggregation {
            operator: Option::Some(
                WireAggregationOperator::Count(WireCount { up_to: Option::Some(COUNT_UP_TO) }),
            ),
            alias,
        },
        Aggregation::Sum(alias, property) => WireAggregation {
            operator: Option::Some(
                WireAggregationOperator::Sum(
                    WireSum {
                        property: Option::Some(WirePropertyReference { name: property }),
                    },
                ),
            ),
            alias,
        },
        Aggregation::Avg(alias, property) => WireAggregation {
            operator: Option::Some(
                WireAggregationOperator::Avg(
                    WireAvg {
                        property: Option::Some(WirePropertyReference { name: property }),
                    },
                ),
            ),
            alias,
        },
    }
}

/// Translates an aggregation list to its wire operators, in order.
pub fn convert_aggregations(aggregations: Vec<Aggregation>) -> (r: Vec<WireAggregation>)
    ensures
        wire_aggregations_view(r@) == aggregations_view(aggregations@).map_values(
            |a: SpecAggregation| spec_convert_aggregation(a),
        ),
{
    let ghost s0 = aggregations_view(aggregations@);
    let ghost target = s0.map_values(|a: SpecAggregation| spec_convert_aggregation(a));
    let mut aggregations = aggregations;
    let mut out: Vec<WireAggregation> = Vec::new();
    proof {
        assert(wire_aggregations_view(out@) =~= target.take(0));
    }
    while aggregations.len() > 0
        invariant
            out@.len() + aggregations@.len() == s0.len(),
            aggregations_view(aggregations@) =~= s0.skip(out@.len() as int),
            target == s0.map_values(|a: SpecAggregation| spec_convert_aggregation(a)),
            wire_aggregations_view(out@) == target.take(out@.len() as int),
        decreases aggregations@.len(),
    {
        let ghost j = out@.len() as int;
        let ghost before = aggregations@;
        let a = aggregations.remove(0);
        proof {
            assert(aggregations_view(before)[0] == a@);
            assert(a@ == s0[j]);
            assert(aggregations_view(aggregations@) =~= s0.skip(j + 1)) by {
                assert forall|i: int|
                    0 <= i < aggregations@.len() implies aggregations_view(aggregations@)[i]
                    == s0.skip(j + 1)[i] by {
                    assert(aggregations@[i] == before[i + 1]);
                    assert(aggregations_view(before)[i + 1] == before[i + 1]@);
                    assert(aggregations_view(before)[i + 1] == s0.skip(j)[i + 1]);
                }
            };
        }
        let wire = convert_one_aggregation(a);
        out.push(wire);
        proof {
            assert(target[j] == spec_convert_aggregation(s0[j]));
            assert(target.take(j + 1) =~= target.take(j).push(target[j]));
            assert(wire_aggregations_view(out@) =~= target.take(j + 1));
        }
    }
    proof {
        assert(target.take(s0.len() as int) =~= target);
    }
    out
}

/// Wraps a converted query and its aggregations into the aggregation
/// query message.
pub fn build_aggregation_query(query: WireQuery, aggregations: Vec<Aggregation>) -> (r:
    WireAggregationQuery)
    ensures
        (match r.nested_query {
            Option::Some(q) => q@ == query@,
            Option::None => false,
        }),
        wire_aggregations_view(r.aggregations@) == aggregations_view(aggregations@).map_values(
            |a: SpecAggregation| spec_convert_aggregation(a),
        ),
{
    WireAggregationQuery {
        aggregations: convert_aggregations(aggregations),
        nested_query: Option::Some(query),
    }
}

/// One aliased scalar result of an aggregation response.
pub struct WireAggregationResult {
    pub aggregate_properties: Vec<(String, WireValue)>,
}

/// The entity value one aggregation result denotes: its aliased
/// scalars as properties.
pub open spec fn spec_aggregation_result_value(s: Seq<(Seq<char>, SpecWireValue)>) -> SpecValue {
    SpecValue::EntityValue(crate::convert::spec_props_from_wire(s))
}

/// Unwraps an aggregation response: each aliased result becomes one
/// entity value keyed by alias.
pub fn aggregation_results_to_values(results: Vec<WireAggregationResult>) -> (r: Vec<Value>)
    requires
        forall|i: int|
            0 <= i < results@.len() ==> crate::convert::wire_props_wf(
                crate::values::wire_props_view((#[trigger] results@[i]).aggregate_properties@),
            ),
    ensures
        crate::values::values_view(r@).len() == results@.len(),
        forall|i: int|
            0 <= i < results@.len() ==> crate::values::values_view(r@)[i]
                == spec_aggregation_result_value(
                crate::values::wire_props_view(results@[i].aggregate_properties@),
            ),
{
    let ghost s0 = results@;
    let mut results = results;
    let mut out: Vec<Value> = Vec::new();
    while results.len() > 0
        invariant
            out@.len() + results@.len() == s0.len(),
            results@ =~= s0.skip(out@.len() as int),
            forall|i: int|
                0 <= i < s0.len() ==> crate::convert::wire_props_wf(
                    crate::values::wire_props_view((#[trigger] s0[i]).aggregate_properties@),
                ),
            forall|i: int|
                0 <= i < out@.len() ==> crate::values::values_view(out@)[i]
                    == spec_aggregation_result_value(
                    crate::values::wire_props_view(s0[i].aggregate_properties@),
                ),
            crate::values::values_view(out@).len() == out@.len(),
        decreases results@.len(),
    {
        let ghost j = out@.len() as int;
        let ghost outb = out@;
        let one = results.remove(0);
        proof {
            assert(one == s0[j]);
        }
        let v = Value::EntityValue(crate::convert::props_from_wire(one.aggregate_properties));
        out.push(v);
        proof {
            crate::values::lemma_values_view(out@);
            crate::values::lemma_values_view(outb);
            assert forall|i: int|
                0 <= i < out@.len() implies crate::values::values_view(out@)[i]
                == spec_aggregation_result_value(
                crate::values::wire_props_view(s0[i].aggregate_properties@),
            ) by {
                if i < j {
                    assert(out@[i] == outb[i]);
                    assert(crate::values::values_view(outb)[i] == crate::values::value_view(
                        outb[i],
                    ));
                }
            }
        }
    }
    out
}

// ---------------------------------------------------------------------
// Transaction options
// ---------------------------------------------------------------------

/// How a new transaction is begun: read-only, read-write (optionally
/// retrying a previous transaction), or the store's default.
#[derive(Debug, Clone, PartialEq)]
pub enum TrxOption {
    ReadOnly,
    ReadWrite,
    Default,
}

/// The read-only transaction mode on the wire.
pub struct WireReadOnly {
    pub read_time: Option<crate::values::WireTimestamp>,
}

/// The read-write transaction mode on the wire, carrying the previous
/// transaction being retried, or empty.
pub struct WireReadWrite {
    pub previous_transaction: Vec<u8>,
}

pub enum WireTransactionMode {
    ReadOnly(WireReadOnly),
    ReadWrite(WireReadWrite),
}

/// The transaction options slot of a begin-transaction request.
pub struct WireTransactionOptions {
    pub mode: Option<WireTransactionMode>,
}

/// Translates the caller's transaction mode: read-only always carries
/// explicit options; read-write carries options only when retrying a
/// previous transaction; the default mode sends none.
pub fn convert_trx_option(option_mode: TrxOption, trx_id: Option<Vec<u8>>) -> (r: Option<
    WireTransactionOptions,
>)
    ensures
        option_mode is ReadOnly ==> (match r {
            Option::Some(o) => (match o.mode {
                Option::Some(WireTransactionMode::ReadOnly(ro)) => ro.read_time is None,
                _ => false,
            }),
            Option::None => false,
        }),
        option_mode is ReadWrite && trx_id is Some ==> (match r {
            Option::Some(o) => (match o.mode {
                Option::Some(WireTransactionMode::ReadWrite(rw)) => rw.previous_transaction@
                    == trx_id->0@,
                _ => false,
            }),
            Option::None => false,
        }),
        option_mode is ReadWrite && trx_id is None ==> r is None,
        option_mode is Default ==> r is None,
{
    match option_mode {
        TrxOption::ReadOnly => Option::Some(WireTransactionOptions {
            mode: Option::Some(WireTransactionMode::ReadOnly(WireReadOnly {
                read_time: Option::None,
            })),
        }),
        TrxOption::ReadWrite => match trx_id {
            Option::Some(trx) => Option::Some(WireTransactionOptions {
                mode: Option::Some(WireTransactionMode::ReadWrite(WireReadWrite {
                    previous_transaction: trx,
                })),
            }),
            Option::None => Option::None,
        },
        TrxOption::Default => Option::None,
    }
}

} // verus!
