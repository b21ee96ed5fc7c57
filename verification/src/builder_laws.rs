//! What the steps that make up a query have to do to it.
//!
//! The laws speak of what the functions return: `call_ensures(f, arguments, r)` is that a call of
//! `f` may return `r`.
use crate::arguments::{skip, take, Model, QueryArguments, Take};
use crate::document::{fields_of, fields_of_all, fields_of_opt, one, put, Fields, Value};
use crate::filter::{Filter, ScalarField};
use crate::native::{native, try_to_native_filter};
use crate::pipeline_laws::{
    are_rendered, end_of_selection, filtering, is_cursor, is_ordering, law_built_query,
    law_groups_are_cut_and_documents_are_aggregated, law_place_of_aggregations, lemma_ordering,
    lemma_parts, lemma_precedes, lemma_result_parts, lemma_stages, precedes, present, reordered,
    stage, stage_for, starts_from,
};
use crate::query::{
    counting, is_grouped, is_join_of, is_ordered, is_pinned, optional_stage, unfiltered,
    AggregationSelection, Built, CursorBuilder, CursorData, FieldSelection, JoinStage, MongoFilter,
    MongoReadQueryBuilder, OrderByBuilder, OrderData, QueryView, ReadQuery, VirtualSelection,
    UNDERSCORE_ID,
};
use crate::query_laws::{law_virtual_fields_accumulate, law_virtual_fields_are_projected};
use bson::Document;
use vstd::prelude::*;

verus! {

/// Whether two builders read the same collection with the same filters.
pub open spec fn same_selection(a: MongoReadQueryBuilder, b: MongoReadQueryBuilder) -> bool {
    &&& a.model.db_name@ == b.model.db_name@
    &&& fields_of_opt(a.query) == fields_of_opt(b.query)
    &&& fields_of_opt(a.native_query) == fields_of_opt(b.native_query)
    &&& fields_of_all(a.join_filters@) == fields_of_all(b.join_filters@)
}

/// Whether two builders aggregate in the same way.
pub open spec fn same_aggregations(a: MongoReadQueryBuilder, b: MongoReadQueryBuilder) -> bool {
    &&& fields_of_all(a.aggregations@) == fields_of_all(b.aggregations@)
    &&& fields_of_all(a.aggregation_filters@) == fields_of_all(b.aggregation_filters@)
    &&& a.is_group_by_query == b.is_group_by_query
}

/// Whether two builders have the same rendered ordering and are to render the same.
pub open spec fn same_ordering(a: MongoReadQueryBuilder, b: MongoReadQueryBuilder) -> bool {
    &&& a.order_builder is Some <==> b.order_builder is Some
    &&& a.order_builder is Some ==> {
        &&& a.order_builder->0.order_by@ == b.order_builder->0.order_by@
        &&& a.order_builder->0.reverse_order == b.order_builder->0.reverse_order
    }
    &&& fields_of_opt(a.order) == fields_of_opt(b.order)
    &&& a.order_joins@ == b.order_joins@
    &&& fields_of_all(a.order_aggregate_projections@) == fields_of_all(
        b.order_aggregate_projections@,
    )
}

/// Whether two builders have the same rendered cursor.
pub open spec fn same_rendered_cursor(a: Option<CursorData>, b: Option<CursorData>) -> bool {
    &&& a is Some <==> b is Some
    &&& a is Some ==> {
        &&& fields_of(a->0.cursor_filter) == fields_of(b->0.cursor_filter)
        &&& fields_of(a->0.bindings) == fields_of(b->0.bindings)
        &&& fields_of(a->0.cursor_condition) == fields_of(b->0.cursor_condition)
    }
}

/// Whether two builders start from the same document.
pub open spec fn same_cursor(a: MongoReadQueryBuilder, b: MongoReadQueryBuilder) -> bool {
    &&& a.cursor_builder is Some <==> b.cursor_builder is Some
    &&& a.cursor_builder is Some ==> {
        &&& a.cursor_builder->0.cursor == b.cursor_builder->0.cursor
        &&& a.cursor_builder->0.order_by@ == b.cursor_builder->0.order_by@
        &&& a.cursor_builder->0.reverse_order == b.cursor_builder->0.reverse_order
    }
    &&& same_rendered_cursor(a.cursor_data, b.cursor_data)
}

/// Whether two builders skip and take as many documents.
pub open spec fn same_cut(a: MongoReadQueryBuilder, b: MongoReadQueryBuilder) -> bool {
    a.skip == b.skip && a.limit == b.limit
}

/// A new builder asks for nothing but the collection.
pub proof fn law_new_builder(model: Model, r: MongoReadQueryBuilder)
    requires
        call_ensures(MongoReadQueryBuilder::new, (model,), r),
    ensures
        r.model == model,
        r.query is None && r.native_query is None,
        r.joins@.len() == 0 && r.join_filters@.len() == 0,
        r.aggregations@.len() == 0 && r.aggregation_filters@.len() == 0,
        r.order_builder is None && r.order is None,
        r.order_joins@.len() == 0 && r.order_aggregate_projections@.len() == 0,
        r.cursor_builder is None && r.cursor_data is None,
        r.skip is None && r.limit is None && r.projection is None,
        !r.is_group_by_query,
{
    assert(r@.join_filters.len() == r.join_filters@.len());
    assert(r@.aggregations.len() == r.aggregations@.len());
    assert(r@.aggregation_filters.len() == r.aggregation_filters@.len());
    assert(r@.order_aggregate_projections.len() == r.order_aggregate_projections@.len());
}

/// Documents are skipped unless the caller skips them, and taken unless the caller takes them. How
/// many are taken does not depend on the end from which they are, which only a negative number
/// turns round.
pub proof fn law_skip_and_take(
    count: Option<u64>,
    amount: Take,
    ignore: bool,
    skipped: Option<u64>,
    taken: Option<i64>,
    reversed: bool,
)
    requires
        amount != Take::Number(i64::MIN),
        call_ensures(skip, (count, ignore), skipped),
        call_ensures(take, (amount, ignore), taken),
        call_ensures(Take::is_reversed, (&amount,), reversed),
    ensures
        ignore ==> skipped is None && taken is None,
        !ignore ==> skipped == count,
        !ignore ==> match amount {
            Take::All => taken is None,
            Take::One | Take::NegativeOne => taken == Some(1i64),
            Take::Number(n) => taken is Some && taken->0 >= 0 && (taken->0 == n || taken->0 == -n),
        },
        reversed <==> amount is NegativeOne || amount is Number && amount->Number_0 < 0,
{
}

/// The arguments come through: what is to be skipped is skipped and what is to be taken is taken,
/// unless the caller does so, with or without a cursor or a filter. Ordering and cursor are still to
/// be rendered, turned round exactly where documents are taken from the end. Nothing else is asked
/// for yet.
pub proof fn law_arguments_come_through<V: FnOnce(&Filter) -> Result<MongoFilter, E>, E>(
    args: QueryArguments,
    visit: V,
    r: Result<MongoReadQueryBuilder, E>,
)
    requires
        call_ensures(MongoReadQueryBuilder::from_args::<V, E>, (args, visit), r),
    ensures
        r matches Ok(b) ==> {
            let from_end = args.take is NegativeOne || args.take is Number && args.take->Number_0
                < 0;
            &&& b.model.db_name@ == args.model.db_name@
            &&& args.ignore_skip || args.skip is None ==> b.skip is None
            &&& !args.ignore_skip && args.skip is Some ==> b.skip == Some(args.skip->0 as u64)
            &&& !args.ignore_skip && args.skip is Some && args.skip->0 >= 0 ==> b.skip is Some
                && b.skip->0 == args.skip->0
            &&& args.ignore_take || args.take is All ==> b.limit is None
            &&& !args.ignore_take && (args.take is One || args.take is NegativeOne) ==> b.limit
                == Some(1i64)
            &&& !args.ignore_take && args.take is Number && args.take->Number_0 != i64::MIN ==> {
                let n = args.take->Number_0;
                b.limit is Some && b.limit->0 >= 0 && (b.limit->0 == n || b.limit->0 == -n)
            }
            &&& b.order_builder is Some
            &&& b.order_builder->0.order_by@ == args.order_by@
            &&& b.order_builder->0.reverse_order == from_end
            &&& b.cursor_builder is Some <==> args.cursor is Some
            &&& args.cursor is Some ==> {
                &&& b.cursor_builder->0.cursor == args.cursor->0
                &&& b.cursor_builder->0.order_by@ == args.order_by@
                &&& b.cursor_builder->0.reverse_order == from_end
            }
            &&& b.aggregations@.len() == 0 && b.aggregation_filters@.len() == 0
            &&& b.order is None && b.order_joins@.len() == 0
            &&& b.order_aggregate_projections@.len() == 0
            &&& b.cursor_data is None && b.projection is None && !b.is_group_by_query
        },
{
    if let Ok(b) = r {
        assert(b@.aggregations.len() == b.aggregations@.len());
        assert(b@.aggregation_filters.len() == b.aggregation_filters@.len());
        assert(b@.order_aggregate_projections.len() == b.order_aggregate_projections@.len());
        if args.filter is Some && native(args.filter->0, None) is None {
            let visited = choose|visited: Result<MongoFilter, E>| #[trigger]
                call_ensures(visit, (&args.filter->0,), visited) && match visited {
                    Ok(f) => r matches Ok(b) && b@ == unfiltered(args).filtered(f),
                    Err(e) => r == Err::<MongoReadQueryBuilder, E>(e),
                };
            assert(visited is Ok);
        }
    }
}

/// A filter that has a native form is used in that form and never rendered as an expression. Any
/// other is used as the caller's function renders it: on the collection where it needs no joins, and
/// else after its joins. An error of that function is handed on, and there is no other error.
pub proof fn law_filter_of_arguments<V: FnOnce(&Filter) -> Result<MongoFilter, E>, E>(
    args: QueryArguments,
    visit: V,
    translated: Option<Document>,
    r: Result<MongoReadQueryBuilder, E>,
)
    requires
        call_ensures(MongoReadQueryBuilder::from_args::<V, E>, (args, visit), r),
        args.filter is Some ==> call_ensures(try_to_native_filter, (&args.filter->0,), translated),
    ensures
        args.filter is None ==> {
            let b = r->Ok_0;
            &&& r is Ok
            &&& b.query is None && b.native_query is None
            &&& b.joins@.len() == 0 && b.join_filters@.len() == 0
        },
        args.filter is Some && translated is Some ==> {
            let b = r->Ok_0;
            &&& r is Ok
            &&& b.native_query is Some && fields_of(b.native_query->0) == fields_of(translated->0)
            &&& b.query is None
            &&& b.joins@.len() == 0 && b.join_filters@.len() == 0
        },
        args.filter is Some && translated is None ==> exists|visited: Result<MongoFilter, E>| #[trigger]
            call_ensures(visit, (&args.filter->0,), visited) && match visited {
                Ok(f) => r matches Ok(b) && {
                    &&& b.native_query is None
                    &&& b.joins@ == f.joins@
                    &&& if f.joins@.len() > 0 {
                        &&& b.query is None
                        &&& b.join_filters@.len() == 1
                        &&& fields_of(b.join_filters@[0]) == fields_of(f.filter)
                    } else {
                        &&& b.query is Some && fields_of(b.query->0) == fields_of(f.filter)
                        &&& b.join_filters@.len() == 0
                    }
                },
                Err(e) => r == Err::<MongoReadQueryBuilder, E>(e),
            },
{
    if let Ok(b) = r {
        assert(b@.join_filters.len() == b.join_filters@.len());
        if b.join_filters@.len() == 1 {
            assert(b@.join_filters[0] == fields_of(b.join_filters@[0]));
        }
    }
    if args.filter is Some && translated is None {
        let visited = choose|visited: Result<MongoFilter, E>| #[trigger]
            call_ensures(visit, (&args.filter->0,), visited) && match visited {
                Ok(f) => r matches Ok(b) && b@ == unfiltered(args).filtered(f),
                Err(e) => r == Err::<MongoReadQueryBuilder, E>(e),
            };
        if let Ok(f) = visited {
            let b = r->Ok_0;
            assert(b@.joins =~= f.joins@);
        }
    }
}

/// A page: what the arguments skip and take is skipped and taken in the pipeline, in this order.
pub proof fn law_arguments_cut_the_result<
    V: FnOnce(&Filter) -> Result<MongoFilter, E>,
    F: Fn(&JoinStage) -> (Document, Option<Document>),
    E,
>(
    args: QueryArguments,
    visit: V,
    build_join: F,
    b: MongoReadQueryBuilder,
    stages: Vec<Document>,
)
    requires
        args.take != Take::Number(i64::MIN),
        args.skip matches Some(n) ==> n >= 0,
        call_ensures(
            MongoReadQueryBuilder::from_args::<V, E>,
            (args, visit),
            Ok::<MongoReadQueryBuilder, E>(b),
        ),
        call_ensures(MongoReadQueryBuilder::into_pipeline_stages::<F>, (b, &build_join), stages),
    ensures
        is_cut(args, fields_of_all(stages@)),
{
    law_arguments_come_through::<V, E>(args, visit, Ok(b));
    let joins = lemma_stages(b, build_join, stages);
    lemma_cut(b@, joins);
}

/// Whether a pipeline skips and takes what the arguments say.
pub open spec fn is_cut(args: QueryArguments, stages: Seq<Fields>) -> bool {
    let skip = seq![("$skip"@, Value::Int64(args.skip->0))];
    let size: int = if args.take is Number {
        if args.take->Number_0 < 0 {
            -args.take->Number_0
        } else {
            args.take->Number_0 as int
        }
    } else {
        1
    };
    let limit = seq![("$limit"@, Value::Int64(size as i64))];
    let skips = !args.ignore_skip && args.skip is Some;
    let takes = !args.ignore_take && !(args.take is All);
    &&& skips ==> stages.contains(skip)
    &&& takes ==> stages.contains(limit)
    &&& skips && takes ==> precedes(stages, skip, limit)
}

proof fn lemma_cut(v: QueryView, joins: Built)
    ensures
        ({
            let s = v.pipeline(joins);
            let skip = seq![("$skip"@, Value::Int64(v.skip->0 as i64))];
            let limit = seq![("$limit"@, Value::Int64(v.limit->0))];
            &&& v.skip is Some ==> s.contains(skip)
            &&& v.limit is Some ==> s.contains(limit)
            &&& v.skip is Some && v.limit is Some ==> precedes(s, skip, limit)
        }),
{
    lemma_parts(v, joins);
    lemma_result_parts(v);
    let s = v.pipeline(joins);
    let result = v.result_stages();
    let at = s.len() - result.len() - (if v.is_group_by_query {
        0
    } else {
        v.aggregation_stages().len() as int
    });
    let skip = present(v.order);
    let limit = skip + present(v.skip);
    if v.skip is Some {
        assert(s[at + skip] == result[skip]);
    }
    if v.limit is Some {
        assert(s[at + limit] == result[limit]);
        if v.skip is Some {
            lemma_precedes(s, at + skip, at + limit);
        }
    }
}

/// A page of a built query: with the arguments' cursor rendered or without one, the pipeline that
/// reads the documents skips and takes what the arguments say.
pub proof fn law_built_query_cuts_the_result<
    V: FnOnce(&Filter) -> Result<MongoFilter, E>,
    O: FnOnce(OrderByBuilder, bool) -> OrderData,
    C: FnOnce(CursorBuilder) -> Result<CursorData, E>,
    F: Fn(&JoinStage) -> (Document, Option<Document>),
    E,
>(
    args: QueryArguments,
    visit: V,
    b: MongoReadQueryBuilder,
    build_order: O,
    build_cursor: C,
    build_join: F,
    query: ReadQuery,
)
    requires
        args.take != Take::Number(i64::MIN),
        args.skip matches Some(n) ==> n >= 0,
        call_ensures(
            MongoReadQueryBuilder::from_args::<V, E>,
            (args, visit),
            Ok::<MongoReadQueryBuilder, E>(b),
        ),
        call_ensures(
            MongoReadQueryBuilder::build::<O, C, F, E>,
            (b, build_order, build_cursor, &build_join),
            Ok::<ReadQuery, E>(query),
        ),
    ensures
        args.cursor is None ==> is_cut(args, fields_of_all(query.stages@)),
        args.cursor is Some ==> exists|
            cursor: CursorData,
            order_joins: Seq<JoinStage>,
            computed: Seq<Fields>,
            inner: Seq<Fields>,
        |
            {
                &&& #[trigger] starts_from(
                    args.model.db_name@,
                    cursor,
                    order_joins,
                    computed,
                    build_join,
                    fields_of_all(query.stages@),
                    inner,
                )
                &&& is_cut(args, inner)
            },
{
    law_arguments_come_through::<V, E>(args, visit, Ok(b));
    law_built_query::<O, C, F, E>(b, build_order, build_cursor, build_join, Ok(query));
    let (order, computed, added, cursor, joins) = choose|
        order: Option<Fields>,
        computed: Seq<Fields>,
        added: Seq<JoinStage>,
        cursor: Option<CursorData>,
        joins: Built,
    |
        {
            let all = b.joins@ + (b.order_joins@ + added);
            let plain = reordered(b, order, computed, added).pipeline(joins);
            &&& #[trigger] is_ordering(b, build_order, order, computed, added)
            &&& #[trigger] is_cursor::<C, E>(b, build_cursor, cursor)
            &&& #[trigger] are_rendered(
                build_join,
                b.joins@ + (b.order_joins@ + added),
                joins,
            )
            &&& match cursor {
                None => fields_of_all(query.stages@) == plain,
                Some(cursor) => starts_from(
                    b.model.db_name@,
                    cursor,
                    b.order_joins@ + added,
                    computed,
                    build_join,
                    fields_of_all(query.stages@),
                    plain.insert(
                        filtering(b.native_query, b.query) + all.len()
                            + computed.len() + b.join_filters@.len(),
                        stage_for(fields_of(cursor.cursor_condition)),
                    ),
                ),
            }
        };
    let v = reordered(b, order, computed, added);
    let plain = v.pipeline(joins);
    lemma_cut(v, joins);
    assert(is_cut(args, plain));
    if let Some(cursor) = cursor {
        let all = b.joins@ + (b.order_joins@ + added);
        let at = filtering(b.native_query, b.query) + all.len()
            + computed.len() + b.join_filters@.len();
        lemma_parts(v, joins);
        assert(0 <= at <= plain.len());
        let condition = stage_for(fields_of(cursor.cursor_condition));
        lemma_cut_with_one_more(args, plain, at, condition);
    }
}

/// One more stage leaves the others in their order.
proof fn lemma_cut_with_one_more(args: QueryArguments, stages: Seq<Fields>, at: int, more: Fields)
    requires
        0 <= at <= stages.len(),
        is_cut(args, stages),
    ensures
        is_cut(args, stages.insert(at, more)),
{
    let after = stages.insert(at, more);
    assert forall|a: Fields| stages.contains(a) implies #[trigger] after.contains(a) by {
        let i = choose|i: int| 0 <= i < stages.len() && stages[i] == a;
        let j = if i < at {
            i
        } else {
            i + 1
        };
        assert(after[j] == a);
    }
    assert forall|a: Fields, b: Fields| precedes(stages, a, b) implies #[trigger] precedes(
        after,
        a,
        b,
    ) by {
        let (i, j) = choose|i: int, j: int|
            0 <= i < j < stages.len() && #[trigger] stages[i] == a && #[trigger] stages[j] == b;
        let k = if i < at {
            i
        } else {
            i + 1
        };
        let l = if j < at {
            j
        } else {
            j + 1
        };
        assert(after[k] == a && after[l] == b);
        lemma_precedes(after, k, l);
    }
}

/// The projection becomes what the caller's function renders for the selected fields, in place of
/// any other, and nothing else of the query changes. An error of that function is handed on.
pub proof fn law_model_projection<R: FnOnce(FieldSelection) -> Result<Document, E>, E>(
    q: MongoReadQueryBuilder,
    selected_fields: FieldSelection,
    render: R,
    r: Result<MongoReadQueryBuilder, E>,
)
    requires
        call_ensures(
            MongoReadQueryBuilder::with_model_projection::<R, E>,
            (q, selected_fields, render),
            r,
        ),
    ensures
        exists|rendered: Result<Document, E>| #[trigger]
            call_ensures(render, (selected_fields,), rendered) && match rendered {
                Ok(d) => r matches Ok(b) && {
                    &&& b.projection is Some && fields_of(b.projection->0) == fields_of(d)
                    &&& same_selection(q, b) && q.joins@ == b.joins@
                    &&& same_aggregations(q, b)
                    &&& same_ordering(q, b) && same_cursor(q, b) && same_cut(q, b)
                },
                Err(e) => r == Err::<MongoReadQueryBuilder, E>(e),
            },
{
}

/// Each virtual field adds one join, in order and after those that are there: with its relation,
/// under its name, and with its filter as the caller's function renders it. But for that and the
/// projection nothing of the query changes. An error is the first one of that function.
pub proof fn law_joins_of_virtual_fields<V: Fn(&Filter) -> Result<MongoFilter, E>, E>(
    q: MongoReadQueryBuilder,
    selections: Vec<VirtualSelection>,
    visit: V,
    r: Result<MongoReadQueryBuilder, E>,
)
    requires
        call_ensures(
            MongoReadQueryBuilder::with_virtual_fields::<V, E>,
            (q, &selections, &visit),
            r,
        ),
    ensures
        match r {
            Ok(b) => {
                &&& same_selection(q, b) && same_aggregations(q, b)
                &&& same_ordering(q, b) && same_cursor(q, b) && same_cut(q, b)
                &&& b.joins@.len() == q.joins@.len() + selections@.len()
                &&& b.joins@.take(q.joins@.len() as int) == q.joins@
                &&& forall|i: int|
                    0 <= i < selections@.len() ==> {
                        let join = b.joins@[q.joins@.len() + i];
                        let filter = (#[trigger] selections@[i])->filter;
                        &&& join.source == selections@[i]->source
                        &&& join.alias is Some && join.alias->0@ == selections@[i]->alias@
                        &&& join.nested@.len() == 0
                        &&& join.filter is Some <==> filter is Some
                        &&& filter is Some ==> call_ensures(
                            visit,
                            (&filter->0,),
                            Ok::<MongoFilter, E>(join.filter->0),
                        )
                    }
            },
            Err(e) => exists|i: int|
                0 <= i < selections@.len() && (#[trigger] selections@[i])->filter is Some
                    && call_ensures(
                    visit,
                    (&selections@[i]->filter->0,),
                    Err::<MongoFilter, E>(e),
                ) && forall|j: int|
                    0 <= j < i && (#[trigger] selections@[j])->filter is Some ==> exists|
                        m: MongoFilter,
                    | #[trigger]
                        call_ensures(
                            visit,
                            (&selections@[j]->filter->0,),
                            Ok::<MongoFilter, E>(m),
                        ),
        },
        (forall|i: int| 0 <= i < selections@.len() ==> (#[trigger] selections@[i])->filter is None)
            ==> r is Ok,
{
    if let Ok(b) = r {
        assert forall|i: int| 0 <= i < selections@.len() implies {
            let join = b.joins@[q.joins@.len() + i];
            let filter = (#[trigger] selections@[i])->filter;
            &&& join.source == selections@[i]->source
            &&& join.alias is Some && join.alias->0@ == selections@[i]->alias@
            &&& join.nested@.len() == 0
            &&& join.filter is Some <==> filter is Some
            &&& filter is Some ==> call_ensures(
                visit,
                (&filter->0,),
                Ok::<MongoFilter, E>(join.filter->0),
            )
        } by {
            assert(is_join_of(
                b@.joins[q@.joins.len() + i],
                selections@[i],
                visit,
            ));
        }
    }
}

/// The size of the joined documents under a name.
pub open spec fn size_of(name: Seq<char>) -> Value {
    Value::Doc(seq![("$size"@, Value::Text(seq!['$'] + name))])
}

/// The fields of the projection of a query, if any.
pub open spec fn projected(q: MongoReadQueryBuilder) -> Fields {
    if q.projection is Some {
        fields_of(q.projection->0)
    } else {
        seq![]
    }
}

/// Without a virtual field the projection stays as it is. One virtual field is set in it, to the
/// number of the joined documents: in place where there is a field of that name, and at the end
/// where not. All other fields stay as they are.
pub proof fn law_one_virtual_field<V: Fn(&Filter) -> Result<MongoFilter, E>, E>(
    q: MongoReadQueryBuilder,
    selections: Vec<VirtualSelection>,
    visit: V,
    b: MongoReadQueryBuilder,
)
    requires
        call_ensures(
            MongoReadQueryBuilder::with_virtual_fields::<V, E>,
            (q, &selections, &visit),
            Ok::<MongoReadQueryBuilder, E>(b),
        ),
    ensures
        selections@.len() == 0 ==> fields_of_opt(b.projection) == fields_of_opt(q.projection),
        selections@.len() == 1 ==> {
            let name = selections@[0]->alias@;
            let before = projected(q);
            let after = fields_of(b.projection->0);
            &&& b.projection is Some
            &&& forall|i: int|
                0 <= i < before.len() ==> after[i].0 == (#[trigger] before[i]).0 && after[i].1 == (
                if before[i].0 == name {
                    size_of(name)
                } else {
                    before[i].1
                })
            &&& if exists|i: int| 0 <= i < before.len() && (#[trigger] before[i]).0 == name {
                after.len() == before.len()
            } else {
                after == before.push((name, size_of(name)))
            }
        },
{
    reveal_strlit("$");
    assert("$"@ =~= seq!['$']);
    reveal_with_fuel(counting, 2);
    if selections@.len() == 1 {
        let name = selections@[0]->alias@;
        let before = projected(q);
        let after = fields_of(b.projection->0);
        assert(selections@.drop_last() =~= Seq::<VirtualSelection>::empty());
        assert(selections@.last() == selections@[0]);
        assert(counting(fields_of_opt(q.projection), selections@.drop_last()) == fields_of_opt(
            q.projection,
        ));
        assert(after == put(before, name, size_of(name)));
    }
}

/// To add virtual fields in two steps gives the same projection as to add them in one.
pub proof fn law_virtual_fields_in_two_steps<V: Fn(&Filter) -> Result<MongoFilter, E>, E>(
    q: MongoReadQueryBuilder,
    first: Vec<VirtualSelection>,
    second: Vec<VirtualSelection>,
    both: Vec<VirtualSelection>,
    visit: V,
    after_first: MongoReadQueryBuilder,
    after_second: MongoReadQueryBuilder,
    after_both: MongoReadQueryBuilder,
)
    requires
        both@ == first@ + second@,
        call_ensures(
            MongoReadQueryBuilder::with_virtual_fields::<V, E>,
            (q, &first, &visit),
            Ok::<MongoReadQueryBuilder, E>(after_first),
        ),
        call_ensures(
            MongoReadQueryBuilder::with_virtual_fields::<V, E>,
            (after_first, &second, &visit),
            Ok::<MongoReadQueryBuilder, E>(after_second),
        ),
        call_ensures(
            MongoReadQueryBuilder::with_virtual_fields::<V, E>,
            (q, &both, &visit),
            Ok::<MongoReadQueryBuilder, E>(after_both),
        ),
    ensures
        fields_of_opt(after_both.projection) == fields_of_opt(after_second.projection),
        after_both.joins@.len() == after_second.joins@.len(),
{
    law_virtual_fields_accumulate(fields_of_opt(q.projection), first@, second@);
}

/// Every virtual field is in the projection, as the number of the documents that are joined under
/// its name.
pub proof fn law_virtual_fields_are_sizes<V: Fn(&Filter) -> Result<MongoFilter, E>, E>(
    q: MongoReadQueryBuilder,
    selections: Vec<VirtualSelection>,
    visit: V,
    b: MongoReadQueryBuilder,
    i: int,
)
    requires
        call_ensures(
            MongoReadQueryBuilder::with_virtual_fields::<V, E>,
            (q, &selections, &visit),
            Ok::<MongoReadQueryBuilder, E>(b),
        ),
        0 <= i < selections@.len(),
    ensures
        b.projection is Some,
        fields_of(b.projection->0).contains(
            (selections@[i]->alias@, size_of(selections@[i]->alias@)),
        ),
{
    reveal_strlit("$");
    assert("$"@ =~= seq!['$']);
    law_virtual_fields_are_projected(fields_of_opt(q.projection), selections@, i);
}

/// The name of a virtual field is its alias.
pub proof fn law_name_of_virtual_field(selection: VirtualSelection, r: String)
    requires
        call_ensures(VirtualSelection::db_alias, (&selection,), r),
    ensures
        r@ == selection->alias@,
{
}

/// Grouping by at least one field makes a group-by query, whether or not there is a filter on the
/// groups. Aggregating without such a field leaves the kind of query as it was.
pub proof fn law_grouping_makes_groups<
    G: FnOnce(Vec<ScalarField>, &Vec<AggregationSelection>, Option<&Filter>) -> (
        Document,
        Option<Document>,
    ),
    V: FnOnce(&str, &Filter) -> Result<MongoFilter, E>,
    E,
>(
    q: MongoReadQueryBuilder,
    by_fields: Vec<ScalarField>,
    selections: Vec<AggregationSelection>,
    having: Option<Filter>,
    group: G,
    visit: V,
    b: MongoReadQueryBuilder,
)
    requires
        call_ensures(
            MongoReadQueryBuilder::with_groupings::<G, V, E>,
            (q, by_fields, &selections, having, group, visit),
            Ok::<MongoReadQueryBuilder, E>(b),
        ),
    ensures
        by_fields@.len() > 0 ==> b.is_group_by_query,
        by_fields@.len() == 0 ==> b.is_group_by_query == q.is_group_by_query,
        same_selection(q, b) && q.joins@ == b.joins@,
        same_ordering(q, b) && same_cursor(q, b) && same_cut(q, b),
        fields_of_opt(q.projection) == fields_of_opt(b.projection),
{
}

/// A reference to a filter, where there is one.
pub open spec fn borrowed(filter: Option<Filter>) -> Option<&'static Filter> {
    match filter {
        Some(f) => Some(&f),
        None => None,
    }
}

/// Grouping adds the `$group` stage that the caller's function renders for the fields, the
/// selections and the filter on the groups, and after it the `$project` stage if that renders one.
/// What was aggregated before stays before it.
pub proof fn law_grouping_adds_its_stages<
    G: FnOnce(Vec<ScalarField>, &Vec<AggregationSelection>, Option<&Filter>) -> (
        Document,
        Option<Document>,
    ),
    V: FnOnce(&str, &Filter) -> Result<MongoFilter, E>,
    E,
>(
    q: MongoReadQueryBuilder,
    by_fields: Vec<ScalarField>,
    selections: Vec<AggregationSelection>,
    having: Option<Filter>,
    group: G,
    visit: V,
    b: MongoReadQueryBuilder,
)
    requires
        call_ensures(
            MongoReadQueryBuilder::with_groupings::<G, V, E>,
            (q, by_fields, &selections, having, group, visit),
            Ok::<MongoReadQueryBuilder, E>(b),
        ),
    ensures
        exists|stages: (Document, Option<Document>)|
            {
                let n = q.aggregations@.len() as int;
                &&& #[trigger] call_ensures(
                    group,
                    (by_fields, &selections, borrowed(having)),
                    stages,
                )
                &&& b.aggregations@.len() == n + 1 + present(stages.1)
                &&& forall|i: int|
                    0 <= i < n ==> fields_of(b.aggregations@[i]) == fields_of(
                        #[trigger] q.aggregations@[i],
                    )
                &&& fields_of(b.aggregations@[n]) == stage("$group"@, fields_of(stages.0))
                &&& stages.1 is Some ==> fields_of(b.aggregations@[n + 1]) == stage(
                    "$project"@,
                    fields_of(stages.1->0),
                )
            },
{
    let n = q.aggregations@.len() as int;
    let before = lemma_grouped::<G, V, E>(q, by_fields, selections, having, group, visit, b);
    let stages = choose|stages: (Document, Option<Document>)| #[trigger]
        call_ensures(group, (by_fields, &selections, borrowed(having)), stages) && b@ == (QueryView {
            aggregations: before.aggregations.push(
                one("$group"@, Value::Doc(fields_of(stages.0))),
            ) + optional_stage("$project"@, fields_of_opt(stages.1)),
            is_group_by_query: before.is_group_by_query || by_fields@.len() > 0,
            ..before
        });
    assert(b@.aggregations.len() == b.aggregations@.len());
    assert forall|i: int| 0 <= i < n implies fields_of(b.aggregations@[i]) == fields_of(
        #[trigger] q.aggregations@[i],
    ) by {
        assert(b@.aggregations[i] == q@.aggregations[i]);
    }
    assert(b@.aggregations[n] == fields_of(b.aggregations@[n]));
    if stages.1 is Some {
        assert(b@.aggregations[n + 1] == fields_of(b.aggregations@[n + 1]));
    }
}

/// The query that was grouped, with the filter on the groups if there is one.
proof fn lemma_grouped<
    G: FnOnce(Vec<ScalarField>, &Vec<AggregationSelection>, Option<&Filter>) -> (
        Document,
        Option<Document>,
    ),
    V: FnOnce(&str, &Filter) -> Result<MongoFilter, E>,
    E,
>(
    q: MongoReadQueryBuilder,
    by_fields: Vec<ScalarField>,
    selections: Vec<AggregationSelection>,
    having: Option<Filter>,
    group: G,
    visit: V,
    b: MongoReadQueryBuilder,
) -> (before: QueryView)
    requires
        call_ensures(
            MongoReadQueryBuilder::with_groupings::<G, V, E>,
            (q, by_fields, &selections, having, group, visit),
            Ok::<MongoReadQueryBuilder, E>(b),
        ),
    ensures
        before == (QueryView { aggregation_filters: before.aggregation_filters, ..q@ }),
        is_grouped(
            before,
            by_fields,
            &selections,
            borrowed(having),
            group,
            b@,
        ),
{
    match having {
        None => q@,
        Some(filter) => {
            let visited = choose|visited: Result<MongoFilter, E>| #[trigger]
                call_ensures(visit, (UNDERSCORE_ID, &filter), visited) && match visited {
                    Ok(f) => is_grouped(
                        QueryView {
                            aggregation_filters: q@.aggregation_filters.push(fields_of(f.filter)),
                            ..q@
                        },
                        by_fields,
                        &selections,
                        Some(&filter),
                        group,
                        b@,
                    ),
                    Err(e) => false,
                };
            QueryView {
                aggregation_filters: q@.aggregation_filters.push(fields_of(visited->Ok_0.filter)),
                ..q@
            }
        },
    }
}

/// A filter on the groups is rendered for fields below `_id`, where a group has the fields that it
/// is made by. What comes of it is added to the filters on what was aggregated, and an error is
/// handed on. Without such a filter none is added, and there is no error.
pub proof fn law_filter_on_groups<
    G: FnOnce(Vec<ScalarField>, &Vec<AggregationSelection>, Option<&Filter>) -> (
        Document,
        Option<Document>,
    ),
    V: FnOnce(&str, &Filter) -> Result<MongoFilter, E>,
    E,
>(
    q: MongoReadQueryBuilder,
    by_fields: Vec<ScalarField>,
    selections: Vec<AggregationSelection>,
    having: Option<Filter>,
    group: G,
    visit: V,
    r: Result<MongoReadQueryBuilder, E>,
)
    requires
        call_ensures(
            MongoReadQueryBuilder::with_groupings::<G, V, E>,
            (q, by_fields, &selections, having, group, visit),
            r,
        ),
    ensures
        having is None ==> r is Ok && fields_of_all(r->Ok_0.aggregation_filters@)
            == fields_of_all(q.aggregation_filters@),
        having is Some ==> exists|prefix: &str, visited: Result<MongoFilter, E>|
            {
                &&& prefix@ == "_id"@
                &&& #[trigger] call_ensures(visit, (prefix, &having->0), visited)
                &&& match visited {
                    Ok(f) => r matches Ok(b) && fields_of_all(b.aggregation_filters@)
                        == fields_of_all(q.aggregation_filters@).push(fields_of(f.filter)),
                    Err(e) => r == Err::<MongoReadQueryBuilder, E>(e),
                }
            },
{
}

/// Groups are made before they are sorted and cut: in the pipeline of a query that is grouped by at
/// least one field, the `$group` stage comes before sort, skip and limit.
pub proof fn law_groups_come_before_the_cut<
    G: FnOnce(Vec<ScalarField>, &Vec<AggregationSelection>, Option<&Filter>) -> (
        Document,
        Option<Document>,
    ),
    V: FnOnce(&str, &Filter) -> Result<MongoFilter, E>,
    F: Fn(&JoinStage) -> (Document, Option<Document>),
    E,
>(
    q: MongoReadQueryBuilder,
    by_fields: Vec<ScalarField>,
    selections: Vec<AggregationSelection>,
    having: Option<Filter>,
    group: G,
    visit: V,
    b: MongoReadQueryBuilder,
    build_join: F,
    stages: Vec<Document>,
)
    requires
        by_fields@.len() > 0,
        call_ensures(
            MongoReadQueryBuilder::with_groupings::<G, V, E>,
            (q, by_fields, &selections, having, group, visit),
            Ok::<MongoReadQueryBuilder, E>(b),
        ),
        call_ensures(MongoReadQueryBuilder::into_pipeline_stages::<F>, (b, &build_join), stages),
    ensures
        exists|grouping: Fields|
            {
                let s = fields_of_all(stages@);
                let made = seq![("$group"@, Value::Doc(grouping))];
                &&& #[trigger] fields_of_all(stages@).contains(stage("$group"@, grouping))
                &&& q.order is Some ==> precedes(s, made, stage("$sort"@, fields_of(q.order->0)))
                &&& q.skip is Some ==> precedes(
                    s,
                    made,
                    seq![("$skip"@, Value::Int64(q.skip->0 as i64))],
                )
                &&& q.limit is Some ==> precedes(
                    s,
                    made,
                    seq![("$limit"@, Value::Int64(q.limit->0))],
                )
            },
{
    law_grouping_makes_groups::<G, V, E>(q, by_fields, selections, having, group, visit, b);
    law_grouping_adds_its_stages::<G, V, E>(q, by_fields, selections, having, group, visit, b);
    let n = q.aggregations@.len() as int;
    let rendered = choose|rendered: (Document, Option<Document>)|
        {
            &&& #[trigger] call_ensures(group, (by_fields, &selections, borrowed(having)), rendered)
            &&& b.aggregations@.len() == n + 1 + present(rendered.1)
            &&& fields_of(b.aggregations@[n]) == stage("$group"@, fields_of(rendered.0))
        };
    let s = fields_of_all(stages@);
    law_groups_are_cut_and_documents_are_aggregated(b, build_join, stages, n);
    law_place_of_aggregations(b, build_join, stages);
    let at = end_of_selection(b) + n;
    assert(fields_of(stages@[at]) == fields_of(b.aggregations@[n]));
    assert(s[at] == fields_of(stages@[at]));
    assert(s.contains(stage("$group"@, fields_of(rendered.0))));
}

/// Finalizing renders what is to be rendered, once: the ordering becomes what the caller's function
/// renders for this kind of query, with its joins after those of earlier orderings, and the cursor
/// what the caller's function renders, whose error is handed on. Nothing else of the query changes.
pub proof fn law_finalizing_renders<
    O: FnOnce(OrderByBuilder, bool) -> OrderData,
    C: FnOnce(CursorBuilder) -> Result<CursorData, E>,
    E,
>(q: &mut MongoReadQueryBuilder, build_order: O, build_cursor: C, r: Result<(), E>)
    requires
        call_ensures(
            MongoReadQueryBuilder::finalize::<O, C, E>,
            (q, build_order, build_cursor),
            r,
        ),
    ensures
        final(q).order_builder is None && final(q).cursor_builder is None,
        exists|order: Option<Fields>, computed: Seq<Fields>, added: Seq<JoinStage>|
            {
                &&& #[trigger] is_ordering(*old(q), build_order, order, computed, added)
                &&& fields_of_opt(final(q).order) == order
                &&& fields_of_all(final(q).order_aggregate_projections@) == computed
                &&& final(q).order_joins@ == old(q).order_joins@ + added
            },
        r matches Ok(_) ==> exists|cursor: Option<CursorData>|
            {
                &&& #[trigger] is_cursor::<C, E>(*old(q), build_cursor, cursor)
                &&& same_rendered_cursor(final(q).cursor_data, cursor)
            },
        r matches Err(e) ==> {
            &&& old(q).cursor_builder is Some
            &&& call_ensures(build_cursor, (old(q).cursor_builder->0,), Err::<CursorData, E>(e))
            &&& same_rendered_cursor(final(q).cursor_data, old(q).cursor_data)
        },
        same_selection(*old(q), *final(q)) && old(q).joins@ == final(q).joins@,
        same_aggregations(*old(q), *final(q)) && same_cut(*old(q), *final(q)),
        fields_of_opt(old(q).projection) == fields_of_opt(final(q).projection),
{
    let ordered = choose|ordered: QueryView| #[trigger]
        is_ordered(*old(q), build_order, ordered) && is_pinned(
            old(q).cursor_builder,
            ordered,
            build_cursor,
            final(q)@,
            r,
        );
    let (order, computed, added) = lemma_ordering(*old(q), build_order, ordered);
    assert(is_ordering(*old(q), build_order, order, computed, added));
    match old(q).cursor_builder {
        Some(b) => {
            let data = choose|data: Result<CursorData, E>| #[trigger]
                call_ensures(build_cursor, (b,), data) && match data {
                    Ok(data) => r == Ok::<(), E>(()) && final(q)@ == (QueryView {
                        cursor_builder: None,
                        cursor_data: Some(data@),
                        ..ordered
                    }),
                    Err(e) => r == Err::<(), E>(e) && final(q)@ == (QueryView {
                        cursor_builder: None,
                        ..ordered
                    }),
                };
            if let Ok(data) = data {
                assert(is_cursor::<C, E>(*old(q), build_cursor, Some(data)));
            }
        },
        None => {
            assert(is_cursor::<C, E>(*old(q), build_cursor, old(q).cursor_data));
        },
    }
}

} // verus!
