//! What holds of read queries as a whole.
use crate::arguments::{QueryArguments, Take};
use crate::document::{fields_of, has_key, one, put, Fields, Value};
use crate::query::{
    all_documents, counting, is_ordered, is_pinned, lookups, match_expr, unfiltered, unwinds,
    Built, CursorBuilder, CursorData, MongoFilter, MongoReadQueryBuilder, OrderByBuilder, OrderData,
    QueryView, VirtualSelection,
};
use vstd::prelude::*;

verus! {

/// A builder for all documents of a collection gives a pipeline without stages.
pub proof fn law_new_query_has_no_stages(collection: Seq<char>)
    ensures
        all_documents(collection).pipeline(Seq::empty()) == Seq::<Fields>::empty(),
{
    assert(all_documents(collection).pipeline(Seq::empty()) =~= Seq::<Fields>::empty());
}

/// The native filter takes precedence: where there is one, it makes the first stage, and the filter
/// as an expression plays no part.
pub proof fn law_native_filter_takes_precedence(query: QueryView, joins: Built)
    requires
        query.native_query is Some,
    ensures
        query.pipeline(joins).len() > 0,
        query.pipeline(joins)[0] == one("$match"@, Value::Doc(query.native_query->0)),
        query.pipeline(joins) == (QueryView { query: None, ..query }).pipeline(joins),
{
    assert(query.initial_match() =~= (QueryView { query: None, ..query }).initial_match());
}

/// The filter of the arguments has exactly one place in the query: as the native filter, as the
/// expression before the joins, or as one after the joins that it needs.
pub proof fn law_filter_has_one_place(args: QueryArguments, native: Fields, filter: MongoFilter)
    ensures
        ({
            let q = unfiltered(args).natively_filtered(native);
            &&& q.native_query == Some(native)
            &&& q.query is None
            &&& q.join_filters.len() == 0
            &&& q.joins.len() == 0
        }),
        ({
            let q = unfiltered(args).filtered(filter);
            let expr = fields_of(filter.filter);
            &&& q.native_query is None
            &&& q.joins == filter.joins@
            &&& if filter.joins@.len() > 0 {
                q.query is None && q.join_filters == seq![expr]
            } else {
                q.query == Some(expr) && q.join_filters.len() == 0
            }
        }),
{
}

/// A filter that needs joins only applies after all of them: no filter precedes the lookups, and
/// its own stage follows them and the fields that are computed from them.
pub proof fn law_joined_filter_follows_joins(
    args: QueryArguments,
    filter: MongoFilter,
    joins: Built,
)
    requires
        filter.joins@.len() > 0,
    ensures
        unfiltered(args).filtered(filter).source_stages(joins) == lookups(joins).push(
            match_expr(fields_of(filter.filter)),
        ),
{
    assert(unfiltered(args).filtered(filter).source_stages(joins) =~= lookups(joins).push(
        match_expr(fields_of(filter.filter)),
    ));
}

/// In a group-by query, sort, skip, limit and projection apply to the groups. In any other query
/// they apply to the documents that are aggregated.
pub proof fn law_result_stages_and_aggregations(query: QueryView, joins: Built)
    ensures
        query.is_group_by_query ==> exists|before: Seq<Fields>, between: Seq<Fields>|
            query.pipeline(joins) == #[trigger] (before + query.aggregation_stages() + between)
                + query.result_stages(),
        !query.is_group_by_query ==> exists|before: Seq<Fields>|
            query.pipeline(joins) == #[trigger] (before + query.result_stages())
                + query.aggregation_stages(),
{
    let source = query.source_stages(joins);
    if query.is_group_by_query {
        assert(query.pipeline(joins) =~= (source + query.aggregation_stages() + unwinds(joins))
            + query.result_stages());
    } else {
        assert(query.pipeline(joins) =~= ((source + unwinds(joins)) + query.result_stages())
            + query.aggregation_stages());
    }
}

/// Joined documents are unwound right before the result is sorted.
pub proof fn law_unwinds_precede_sort(query: QueryView, joins: Built)
    ensures
        exists|before: Seq<Fields>, after: Seq<Fields>|
            query.pipeline(joins) == #[trigger] (before + unwinds(joins) + query.result_stages()
                + after),
{
    let source = query.source_stages(joins);
    if query.is_group_by_query {
        let before = source + query.aggregation_stages();
        assert(query.pipeline(joins) =~= before + unwinds(joins) + query.result_stages()
            + Seq::<Fields>::empty());
    } else {
        assert(query.pipeline(joins) =~= source + unwinds(joins) + query.result_stages()
            + query.aggregation_stages());
    }
}

/// The inner pipeline of a query with a cursor is the pipeline of the same query without one, with
/// one stage more for the cursor condition.
pub proof fn law_cursor_adds_one_condition(query: QueryView, condition: Fields, joins: Built)
    ensures
        ({
            let source = query.source_stages(joins);
            let plain = query.pipeline(joins);
            plain.take(source.len() as int) == source && query.from_cursor(condition).pipeline(
                joins,
            ) == plain.insert(source.len() as int, match_expr(condition))
        }),
{
    let source = query.source_stages(joins);
    let cursored = query.from_cursor(condition);
    let plain = query.pipeline(joins);
    let f = |f: Fields| match_expr(f);
    assert(cursored.join_filters.map_values(f) =~= query.join_filters.map_values(f).push(
        match_expr(condition),
    ));
    assert(cursored.source_stages(joins) =~= source.push(match_expr(condition)));
    assert(cursored.aggregation_stages() =~= query.aggregation_stages());
    assert(cursored.result_stages() =~= query.result_stages());
    assert(plain.take(source.len() as int) =~= source);
    assert(cursored.pipeline(joins) =~= plain.insert(source.len() as int, match_expr(condition)));
}

/// What the caller skips or cuts itself, the query does not.
pub proof fn law_ignored_arguments_leave_no_stage(args: QueryArguments)
    ensures
        args.ignore_skip ==> unfiltered(args).skip is None,
        args.ignore_take ==> unfiltered(args).limit is None,
{
}

/// The limit does not depend on the end from which documents are taken, and is never negative.
pub proof fn law_limit_ignores_direction(n: i64)
    requires
        n != i64::MIN,
    ensures
        Take::Number(n).count() == Take::Number((-n) as i64).count(),
        Take::Number(n).count() matches Some(c) && c >= 0,
        n != 0 ==> Take::Number(n).reversed() != Take::Number((-n) as i64).reversed(),
        Take::One.count() == Take::NegativeOne.count(),
        Take::One.reversed() != Take::NegativeOne.reversed(),
{
}

/// Finalizing a query leaves nothing to render, and a query with nothing to render is its own
/// finalized form: to finalize twice is to finalize once, whatever the functions that render.
pub proof fn law_finalizing_twice<
    O: FnOnce(OrderByBuilder, bool) -> OrderData,
    C: FnOnce(CursorBuilder) -> Result<CursorData, E>,
    P: FnOnce(OrderByBuilder, bool) -> OrderData,
    D: FnOnce(CursorBuilder) -> Result<CursorData, E>,
    E,
>(
    query: MongoReadQueryBuilder,
    build_order: O,
    build_cursor: C,
    ordered: QueryView,
    finalized: MongoReadQueryBuilder,
    outcome: Result<(), E>,
    build_order_again: P,
    build_cursor_again: D,
    ordered_again: QueryView,
    finalized_again: QueryView,
    outcome_again: Result<(), E>,
)
    requires
        is_ordered(query, build_order, ordered),
        is_pinned(query.cursor_builder, ordered, build_cursor, finalized@, outcome),
        is_ordered(finalized, build_order_again, ordered_again),
        is_pinned(
            finalized.cursor_builder,
            ordered_again,
            build_cursor_again,
            finalized_again,
            outcome_again,
        ),
    ensures
        finalized@.order_builder is None,
        finalized@.cursor_builder is None,
        finalized_again == finalized@,
        outcome_again is Ok,
{
}

/// Virtual fields can be added one after the other.
pub proof fn law_virtual_fields_accumulate(
    projection: Option<Fields>,
    first: Seq<VirtualSelection>,
    second: Seq<VirtualSelection>,
)
    ensures
        counting(projection, first + second) == counting(counting(projection, first), second),
    decreases second.len(),
{
    if second.len() == 0 {
        assert(first + second =~= first);
    } else {
        law_virtual_fields_accumulate(projection, first, second.drop_last());
        assert((first + second).drop_last() =~= first + second.drop_last());
    }
}

/// Virtual fields leave the fields of the projection in place: none is taken out or moved.
pub proof fn law_virtual_fields_keep_projection(
    projection: Fields,
    selections: Seq<VirtualSelection>,
    i: int,
)
    requires
        0 <= i < projection.len(),
    ensures
        counting(Some(projection), selections) matches Some(fields) && fields.len()
            >= projection.len() && fields[i].0 == projection[i].0,
    decreases selections.len(),
{
    if selections.len() > 0 {
        law_virtual_fields_keep_projection(projection, selections.drop_last(), i);
    }
}

/// Every virtual field is in the projection, under its name.
pub proof fn law_virtual_fields_are_projected(
    projection: Option<Fields>,
    selections: Seq<VirtualSelection>,
    i: int,
)
    requires
        0 <= i < selections.len(),
    ensures
        ({
            let name = selections[i].name();
            let size = Value::Doc(one("$size"@, Value::Text("$"@ + name)));
            counting(projection, selections) matches Some(fields) && fields.contains((name, size))
        }),
    decreases selections.len(),
{
    let before = counting(projection, selections.drop_last());
    let fields = match before {
        Some(fields) => fields,
        None => Seq::empty(),
    };
    let last = selections.last().name();
    let last_size = Value::Doc(one("$size"@, Value::Text("$"@ + last)));
    let after = put(fields, last, last_size);
    if i == selections.len() - 1 {
        if has_key(fields, last) {
            let k = choose|k: int| 0 <= k < fields.len() && (#[trigger] fields[k]).0 == last;
            assert(after[k] == (last, last_size));
        } else {
            assert(after[fields.len() as int] == (last, last_size));
        }
    } else {
        law_virtual_fields_are_projected(projection, selections.drop_last(), i);
        let name = selections[i].name();
        let size = Value::Doc(one("$size"@, Value::Text("$"@ + name)));
        let k = choose|k: int| 0 <= k < fields.len() && fields[k] == (name, size);
        assert(fields[k].0 == name);
        assert(after[k] == (name, size));
    }
}

} // verus!
