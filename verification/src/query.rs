//! Read queries: what a query is built from, and which pipeline it stands for.
use crate::arguments::{Cursor, Model, OrderBy, QueryArguments};
use crate::document::{
    array_of, fields_of, fields_of_all, fields_of_opt, one, put, Fields, Value,
};
use crate::filter::{Filter, ScalarField};
use bson::Document;
use vstd::prelude::*;

verus! {

/// A relation field of a model, by the caller's number for it.
#[derive(Clone, Copy, Debug)]
pub struct RelationField(pub u64);

/// A filter as an aggregation expression, with the joins that it needs.
#[derive(Debug)]
pub struct MongoFilter {
    pub filter: Document,
    pub joins: Vec<JoinStage>,
}

/// A join with the documents of a related model.
#[derive(Debug)]
pub struct JoinStage {
    pub source: RelationField,
    /// The name of the field that takes the joined documents.
    pub alias: Option<String>,
    pub nested: Vec<JoinStage>,
    pub filter: Option<MongoFilter>,
}

/// A field of the result that is computed from related documents.
#[derive(Debug)]
pub enum VirtualSelection {
    /// The number of related documents.
    RelationCount {
        source: RelationField,
        /// The name of the field.
        alias: String,
        /// Which documents to count.
        filter: Option<Filter>,
    },
}

/// An ordering that is to be rendered.
#[derive(Debug)]
pub struct OrderByBuilder {
    pub order_by: Vec<OrderBy>,
    pub reverse_order: bool,
}

/// A cursor that is to be rendered.
#[derive(Debug)]
pub struct CursorBuilder {
    pub cursor: Cursor,
    pub order_by: Vec<OrderBy>,
    pub reverse_order: bool,
}

/// A rendered ordering.
#[derive(Debug)]
pub struct OrderData {
    pub order: Option<Document>,
    /// Fields that are computed from the joins.
    pub aggregate_projections: Vec<Document>,
    pub joins: Vec<JoinStage>,
}

/// What it takes to start a query from a cursor.
#[derive(Debug)]
pub struct CursorData {
    /// The expression that finds exactly the cursor document.
    pub cursor_filter: Document,
    /// Variables for the values of the cursor document.
    pub bindings: Document,
    /// The expression that holds of the documents from the cursor on.
    pub cursor_condition: Document,
}

/// An aggregation that a query asks for, by the caller's number for it.
#[derive(Clone, Copy, Debug)]
pub struct AggregationSelection(pub u64);

/// The fields that a query asks for, by the caller's number for them.
#[derive(Clone, Copy, Debug)]
pub struct FieldSelection(pub u64);

/// The key of a group: it holds all fields that documents are grouped by.
pub const UNDERSCORE_ID: &'static str = "_id";

/// A read query: the stages of its pipeline.
#[derive(Debug)]
pub struct ReadQuery {
    pub stages: Vec<Document>,
}

/// Translated query arguments, from which a pipeline is built.
#[derive(Debug)]
pub struct MongoReadQueryBuilder {
    pub model: Model,
    /// Filter that applies before the joins, as an aggregation expression.
    pub query: Option<Document>,
    /// Filter that applies before the joins, in native query syntax. Takes precedence over
    /// `query`.
    pub native_query: Option<Document>,
    pub joins: Vec<JoinStage>,
    /// Filters that only apply once the joins or aggregations have added the data they need.
    pub join_filters: Vec<Document>,
    /// Aggregation stages.
    pub aggregations: Vec<Document>,
    /// Filters that only apply once the aggregations have transformed the documents.
    pub aggregation_filters: Vec<Document>,
    pub order_builder: Option<OrderByBuilder>,
    /// The rendered ordering.
    pub order: Option<Document>,
    /// The joins of the rendered ordering.
    pub order_joins: Vec<JoinStage>,
    /// Fields of the rendered ordering that are computed from its joins.
    pub order_aggregate_projections: Vec<Document>,
    pub cursor_builder: Option<CursorBuilder>,
    /// The rendered cursor.
    pub cursor_data: Option<CursorData>,
    /// Skip that many documents at the start of the result.
    pub skip: Option<u64>,
    /// Take at most that many documents of the result.
    pub limit: Option<i64>,
    /// The fields to return.
    pub projection: Option<Document>,
    /// Whether the query groups documents by fields.
    pub is_group_by_query: bool,
}

/// What an ordering that is to be rendered holds.
pub struct OrderView {
    pub order_by: Seq<OrderBy>,
    pub reverse_order: bool,
}

/// What a cursor that is to be rendered holds.
pub struct CursorView {
    pub cursor: Cursor,
    pub order_by: Seq<OrderBy>,
    pub reverse_order: bool,
}

/// What a rendered cursor holds.
pub struct CursorDataView {
    pub cursor_filter: Fields,
    pub bindings: Fields,
    pub cursor_condition: Fields,
}

/// What a builder holds.
#[verifier::ext_equal]
pub struct QueryView {
    pub collection: Seq<char>,
    pub query: Option<Fields>,
    pub native_query: Option<Fields>,
    pub joins: Seq<JoinStage>,
    pub join_filters: Seq<Fields>,
    pub aggregations: Seq<Fields>,
    pub aggregation_filters: Seq<Fields>,
    pub order_builder: Option<OrderView>,
    pub order: Option<Fields>,
    pub order_joins: Seq<JoinStage>,
    pub order_aggregate_projections: Seq<Fields>,
    pub cursor_builder: Option<CursorView>,
    pub cursor_data: Option<CursorDataView>,
    pub skip: Option<u64>,
    pub limit: Option<i64>,
    pub projection: Option<Fields>,
    pub is_group_by_query: bool,
}

impl View for OrderByBuilder {
    type V = OrderView;

    open spec fn view(&self) -> OrderView {
        OrderView { order_by: self.order_by@, reverse_order: self.reverse_order }
    }
}

impl View for CursorBuilder {
    type V = CursorView;

    open spec fn view(&self) -> CursorView {
        CursorView {
            cursor: self.cursor,
            order_by: self.order_by@,
            reverse_order: self.reverse_order,
        }
    }
}

impl View for CursorData {
    type V = CursorDataView;

    open spec fn view(&self) -> CursorDataView {
        CursorDataView {
            cursor_filter: fields_of(self.cursor_filter),
            bindings: fields_of(self.bindings),
            cursor_condition: fields_of(self.cursor_condition),
        }
    }
}

impl View for MongoReadQueryBuilder {
    type V = QueryView;

    open spec fn view(&self) -> QueryView {
        QueryView {
            collection: self.model.db_name@,
            query: fields_of_opt(self.query),
            native_query: fields_of_opt(self.native_query),
            joins: self.joins@,
            join_filters: fields_of_all(self.join_filters@),
            aggregations: fields_of_all(self.aggregations@),
            aggregation_filters: fields_of_all(self.aggregation_filters@),
            order_builder: match self.order_builder {
                Some(b) => Some(b@),
                None => None,
            },
            order: fields_of_opt(self.order),
            order_joins: self.order_joins@,
            order_aggregate_projections: fields_of_all(self.order_aggregate_projections@),
            cursor_builder: match self.cursor_builder {
                Some(b) => Some(b@),
                None => None,
            },
            cursor_data: match self.cursor_data {
                Some(d) => Some(d@),
                None => None,
            },
            skip: self.skip,
            limit: self.limit,
            projection: fields_of_opt(self.projection),
            is_group_by_query: self.is_group_by_query,
        }
    }
}

/// A builder for all documents of a collection.
pub open spec fn all_documents(collection: Seq<char>) -> QueryView {
    QueryView {
        collection,
        query: None,
        native_query: None,
        joins: Seq::empty(),
        join_filters: Seq::empty(),
        aggregations: Seq::empty(),
        aggregation_filters: Seq::empty(),
        order_builder: None,
        order: None,
        order_joins: Seq::empty(),
        order_aggregate_projections: Seq::empty(),
        cursor_builder: None,
        cursor_data: None,
        skip: None,
        limit: None,
        projection: None,
        is_group_by_query: false,
    }
}

/// The stage that keeps the documents for which an expression holds.
pub open spec fn match_expr(expr: Fields) -> Fields {
    one("$match"@, Value::Doc(one("$expr"@, Value::Doc(expr))))
}

/// A stage that holds a document, if there is one.
pub open spec fn optional_stage(name: Seq<char>, d: Option<Fields>) -> Seq<Fields> {
    match d {
        Some(d) => seq![one(name, Value::Doc(d))],
        None => Seq::empty(),
    }
}

/// Rendered joins: the lookup of each, and the stage that unwinds the joined documents, if any.
pub type Built = Seq<(Document, Option<Document>)>;

/// The lookup stages of rendered joins.
pub open spec fn lookups(joins: Built) -> Seq<Fields> {
    joins.map_values(|j: (Document, Option<Document>)| fields_of(j.0))
}

/// The stages of rendered joins that unwind the joined documents.
pub open spec fn unwinds(joins: Built) -> Seq<Fields>
    decreases joins.len(),
{
    if joins.len() == 0 {
        Seq::empty()
    } else {
        match joins.last().1 {
            Some(u) => unwinds(joins.drop_last()).push(fields_of(u)),
            None => unwinds(joins.drop_last()),
        }
    }
}

impl QueryView {
    /// The filter that comes first. One in native syntax takes precedence.
    pub open spec fn initial_match(self) -> Seq<Fields> {
        match (self.native_query, self.query) {
            (Some(native), _) => seq![one("$match"@, Value::Doc(native))],
            (None, Some(query)) => seq![match_expr(query)],
            (None, None) => Seq::empty(),
        }
    }

    /// The aggregations, and the filters on what they give.
    pub open spec fn aggregation_stages(self) -> Seq<Fields> {
        self.aggregations + self.aggregation_filters.map_values(|f: Fields| match_expr(f))
    }

    /// The stages that order, cut and project what comes before.
    pub open spec fn result_stages(self) -> Seq<Fields> {
        let skip = match self.skip {
            Some(n) => seq![one("$skip"@, Value::Int64(n as i64))],
            None => Seq::empty(),
        };
        let limit = match self.limit {
            Some(n) => seq![one("$limit"@, Value::Int64(n))],
            None => Seq::empty(),
        };
        optional_stage("$sort"@, self.order) + skip + limit + optional_stage(
            "$project"@,
            self.projection,
        )
    }

    /// The stages before the result is ordered and cut: filters and joins. `joins` are the rendered
    /// joins of the query and of its ordering.
    pub open spec fn source_stages(self, joins: Built) -> Seq<Fields> {
        self.initial_match() + lookups(joins) + self.order_aggregate_projections
            + self.join_filters.map_values(|f: Fields| match_expr(f))
    }

    /// The pipeline without a cursor. In a group-by query the result stages apply to the groups,
    /// else they apply to the documents that are aggregated.
    pub open spec fn pipeline(self, joins: Built) -> Seq<Fields> {
        if self.is_group_by_query {
            self.source_stages(joins) + self.aggregation_stages() + unwinds(joins)
                + self.result_stages()
        } else {
            self.source_stages(joins) + unwinds(joins) + self.result_stages()
                + self.aggregation_stages()
        }
    }

    /// The query on the documents from the cursor on. The condition stands with the filters that
    /// follow the joins, so that it can refer to the joined documents.
    pub open spec fn from_cursor(self, condition: Fields) -> QueryView {
        QueryView { join_filters: self.join_filters.push(condition), cursor_data: None, ..self }
    }

    /// The pipeline with a cursor: the outer stages find the cursor document and add the joins of
    /// the ordering, then a lookup on the collection itself runs the query on the documents from
    /// the cursor on. `order_joins` are the rendered joins of the ordering, and `joins` those of
    /// the query and of its ordering.
    pub open spec fn cursored_pipeline(
        self,
        order_joins: Built,
        joins: Built,
    ) -> Seq<Fields> {
        let cursor = self.cursor_data->0;
        let inner = self.from_cursor(cursor.cursor_condition).pipeline(joins);
        seq![match_expr(cursor.cursor_filter)] + lookups(order_joins)
            + self.order_aggregate_projections + seq![
            one(
                "$lookup"@,
                Value::Doc(
                    seq![
                        ("from"@, Value::Text(self.collection)),
                        ("let"@, Value::Doc(cursor.bindings)),
                        ("pipeline"@, array_of(inner)),
                        ("as"@, Value::Text("cursor_inner"@)),
                    ],
                ),
            ),
            one("$unwind"@, Value::Text("$cursor_inner"@)),
            one("$replaceRoot"@, Value::Doc(one("newRoot"@, Value::Text("$cursor_inner"@)))),
        ]
    }

    /// The query with its ordering rendered.
    pub open spec fn ordered(self, data: OrderData) -> QueryView {
        QueryView {
            order_builder: None,
            order: fields_of_opt(data.order),
            order_joins: self.order_joins + data.joins@,
            order_aggregate_projections: fields_of_all(data.aggregate_projections@),
            ..self
        }
    }

    /// Whether `stages` is a pipeline of the query whose joins the caller's function rendered.
    pub open spec fn is_pipeline<F: Fn(&JoinStage) -> (Document, Option<Document>)>(
        self,
        build_join: F,
        stages: Seq<Fields>,
    ) -> bool {
        if self.cursor_data is None {
            exists|built: Built|
                {
                    &&& #[trigger] are_built(build_join, self.joins + self.order_joins, built)
                    &&& stages == self.pipeline(built)
                }
        } else {
            exists|
                order_built: Built,
                built: Built,
            |
                {
                    &&& #[trigger] are_built(build_join, self.order_joins, order_built)
                    &&& #[trigger] are_built(build_join, self.joins + self.order_joins, built)
                    &&& stages == self.cursored_pipeline(order_built, built)
                }
        }
    }

    /// The query with a filter in native syntax.
    pub open spec fn natively_filtered(self, filter: Fields) -> QueryView {
        QueryView { native_query: Some(filter), ..self }
    }

    /// The query with a filter as an expression. One that needs joins only applies after them.
    pub open spec fn filtered(self, filter: MongoFilter) -> QueryView {
        if filter.joins@.len() > 0 {
            QueryView {
                joins: filter.joins@,
                join_filters: seq![fields_of(filter.filter)],
                ..self
            }
        } else {
            QueryView { query: Some(fields_of(filter.filter)), ..self }
        }
    }
}

/// Whether `built` is what the caller's function made of the joins, one for one.
pub open spec fn are_built<F: Fn(&JoinStage) -> (Document, Option<Document>)>(
    build_join: F,
    joins: Seq<JoinStage>,
    built: Built,
) -> bool {
    &&& built.len() == joins.len()
    &&& forall|i: int|
        0 <= i < joins.len() ==> call_ensures(build_join, (&joins[i],), #[trigger] built[i])
}

/// The query for the given arguments, but for the filter.
pub open spec fn unfiltered(args: QueryArguments) -> QueryView {
    let reverse_order = args.take.reversed();
    QueryView {
        order_builder: Some(OrderView { order_by: args.order_by@, reverse_order }),
        cursor_builder: match args.cursor {
            Some(cursor) => Some(CursorView { cursor, order_by: args.order_by@, reverse_order }),
            None => None,
        },
        skip: match args.skip {
            Some(n) if !args.ignore_skip => Some(n as u64),
            _ => None,
        },
        limit: match args.take.count() {
            Some(n) if !args.ignore_take => Some(n as i64),
            _ => None,
        },
        ..all_documents(args.model.db_name@)
    }
}

impl VirtualSelection {
    /// The name of the field.
    pub open spec fn name(self) -> Seq<char> {
        self->alias@
    }

    /// The name of the field.
    pub fn db_alias(&self) -> (r: String)
        ensures
            r@ == self.name(),
    {
        match self {
            VirtualSelection::RelationCount { alias, .. } => alias.clone(),
        }
    }
}

/// `projection` with a field for each selection that holds the number of joined documents.
pub open spec fn counting(
    projection: Option<Fields>,
    selections: Seq<VirtualSelection>,
) -> Option<Fields>
    decreases selections.len(),
{
    if selections.len() == 0 {
        projection
    } else {
        let fields = match counting(projection, selections.drop_last()) {
            Some(fields) => fields,
            None => Seq::empty(),
        };
        let name = selections.last().name();
        Some(put(fields, name, Value::Doc(one("$size"@, Value::Text("$"@ + name)))))
    }
}

/// Whether `join` is the join that a selection needs: one with the source, under the name of the
/// selection, and with the filter as the caller's function rendered it.
pub open spec fn is_join_of<V: Fn(&Filter) -> Result<MongoFilter, E>, E>(
    join: JoinStage,
    selection: VirtualSelection,
    visit: V,
) -> bool {
    &&& join.source == selection->source
    &&& join.alias is Some
    &&& join.alias->0@ == selection.name()
    &&& join.nested@.len() == 0
    &&& match selection->filter {
        Some(f) => join.filter matches Some(m) && call_ensures(
            visit,
            (&f,),
            Ok::<MongoFilter, E>(m),
        ),
        None => join.filter is None,
    }
}

/// Whether `after` is the query with the grouping that the caller's function rendered.
pub open spec fn is_grouped<
    G: FnOnce(Vec<ScalarField>, &Vec<AggregationSelection>, Option<&Filter>) -> (
        Document,
        Option<Document>,
    ),
>(
    before: QueryView,
    by_fields: Vec<ScalarField>,
    selections: &Vec<AggregationSelection>,
    having: Option<&Filter>,
    group: G,
    after: QueryView,
) -> bool {
    exists|stages: (Document, Option<Document>)| #[trigger]
        call_ensures(group, (by_fields, selections, having), stages) && after == (QueryView {
            aggregations: before.aggregations.push(
                one("$group"@, Value::Doc(fields_of(stages.0))),
            ) + optional_stage("$project"@, fields_of_opt(stages.1)),
            is_group_by_query: before.is_group_by_query || by_fields@.len() > 0,
            ..before
        })
}

/// Whether `after` is the query with its ordering, if it has one, rendered by the caller's function
/// for the kind of query that it is.
pub open spec fn is_ordered<O: FnOnce(OrderByBuilder, bool) -> OrderData>(
    before: MongoReadQueryBuilder,
    build_order: O,
    after: QueryView,
) -> bool {
    match before.order_builder {
        Some(b) => exists|data: OrderData| #[trigger]
            call_ensures(build_order, (b, before.is_group_by_query), data) && after
                == before@.ordered(data),
        None => after == before@,
    }
}

/// Whether `after` is the ordered query with its cursor, if it has one, rendered by the caller's
/// function, and `r` says whether that succeeded.
pub open spec fn is_pinned<C: FnOnce(CursorBuilder) -> Result<CursorData, E>, E>(
    cursor_builder: Option<CursorBuilder>,
    ordered: QueryView,
    build_cursor: C,
    after: QueryView,
    r: Result<(), E>,
) -> bool {
    match cursor_builder {
        Some(b) => exists|data: Result<CursorData, E>| #[trigger]
            call_ensures(build_cursor, (b,), data) && match data {
                Ok(data) => r == Ok::<(), E>(()) && after == (QueryView {
                    cursor_builder: None,
                    cursor_data: Some(data@),
                    ..ordered
                }),
                Err(e) => r == Err::<(), E>(e) && after == (QueryView {
                    cursor_builder: None,
                    ..ordered
                }),
            },
        None => r == Ok::<(), E>(()) && after == ordered,
    }
}

} // verus!
