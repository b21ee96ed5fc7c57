//! Which stages a pipeline has to have, and where.
//!
//! The laws speak of what the functions return: `call_ensures(f, arguments, r)` is that a call of
//! `f` may return `r`.
use crate::document::{fields_of, fields_of_all, fields_of_opt, Fields, Value};
use crate::query::{
    are_built, is_ordered, is_pinned, unwinds, Built, CursorBuilder, CursorData, JoinStage,
    MongoReadQueryBuilder, OrderByBuilder, OrderData, QueryView, ReadQuery,
};
use crate::query_laws::law_cursor_adds_one_condition;
use bson::Document;
use vstd::prelude::*;

verus! {

/// `{ name: { .. } }`
pub open spec fn stage(name: Seq<char>, content: Fields) -> Fields {
    seq![(name, Value::Doc(content))]
}

/// `{ $match: { $expr: { .. } } }`
pub open spec fn stage_for(expr: Fields) -> Fields {
    seq![("$match"@, Value::Doc(seq![("$expr"@, Value::Doc(expr))]))]
}

/// Whether a stage `a` comes before a stage `b`.
pub open spec fn precedes(stages: Seq<Fields>, a: Fields, b: Fields) -> bool {
    exists|i: int, j: int|
        0 <= i < j < stages.len() && #[trigger] stages[i] == a && #[trigger] stages[j] == b
}

/// One for a thing that is there.
pub open spec fn present<A>(a: Option<A>) -> int {
    if a is Some {
        1
    } else {
        0
    }
}

/// How many of the first `n` joins have a stage that unwinds them.
pub open spec fn unwound(joins: Built, n: int) -> int
    decreases n,
{
    if n <= 0 {
        0
    } else {
        unwound(joins, n - 1) + present(joins[n - 1].1)
    }
}

/// How many stages filter the collection itself.
pub open spec fn filtering(native: Option<Document>, query: Option<Document>) -> int {
    if native is Some || query is Some {
        1
    } else {
        0
    }
}

/// Where the stages end that select documents: the filter on the collection, the lookups, the
/// fields that are computed from them and the filters on what was joined.
pub open spec fn end_of_selection(q: MongoReadQueryBuilder) -> int {
    filtering(q.native_query, q.query) + q.joins@.len() + q.order_joins@.len()
        + q.order_aggregate_projections@.len() + q.join_filters@.len()
}

/// How many stages aggregate, or filter what was aggregated.
pub open spec fn aggregating(q: MongoReadQueryBuilder) -> int {
    (q.aggregations@.len() + q.aggregation_filters@.len()) as int
}

/// Where the stages begin that sort, cut and project: after the aggregations where they apply to
/// groups, and after everything that selects or unwinds documents in any case.
pub open spec fn start_of_result(q: MongoReadQueryBuilder, joins: Built) -> int {
    end_of_selection(q) + (if q.is_group_by_query {
        aggregating(q)
    } else {
        0
    }) + unwound(joins, joins.len() as int)
}

proof fn lemma_unwound(joins: Built)
    ensures
        unwinds(joins).len() == unwound(joins, joins.len() as int),
        forall|i: int|
            0 <= i < joins.len() && (#[trigger] joins[i]).1 is Some ==> 0 <= unwound(joins, i)
                < unwinds(joins).len() && unwinds(joins)[unwound(joins, i)] == fields_of(
                joins[i].1->0,
            ),
    decreases joins.len(),
{
    if joins.len() > 0 {
        let init = joins.drop_last();
        lemma_unwound(init);
        assert forall|i: int| 0 <= i <= init.len() implies #[trigger] unwound(joins, i) == unwound(
            init,
            i,
        ) by {
            lemma_unwound_prefix(joins, i);
        }
        assert forall|i: int| 0 <= i < joins.len() && (#[trigger] joins[i]).1 is Some implies 0
            <= unwound(joins, i) < unwinds(joins).len() && unwinds(joins)[unwound(joins, i)]
            == fields_of(joins[i].1->0) by {
            assert(unwound(joins, i) == unwound(init, i));
            if i < init.len() {
                assert(init[i] == joins[i]);
            }
        }
        assert(unwound(joins, init.len() as int) == unwound(init, init.len() as int));
    }
}

proof fn lemma_unwound_prefix(joins: Built, i: int)
    requires
        joins.len() > 0,
        0 <= i < joins.len(),
    ensures
        unwound(joins, i) == unwound(joins.drop_last(), i),
    decreases i,
{
    if i > 0 {
        lemma_unwound_prefix(joins, i - 1);
    }
}

/// Where the four parts of a pipeline stand.
pub(crate) proof fn lemma_parts(v: QueryView, joins: Built)
    ensures
        ({
            let s = v.pipeline(joins);
            let source = v.source_stages(joins);
            let aggregation = v.aggregation_stages();
            let unwind = unwinds(joins);
            let result = v.result_stages();
            let unwound_at = source.len() + (if v.is_group_by_query {
                aggregation.len() as int
            } else {
                0
            });
            let at = unwound_at + unwind.len();
            let aggregated_at = if v.is_group_by_query {
                source.len() as int
            } else {
                at + result.len()
            };
            &&& s.len() == source.len() + aggregation.len() + unwind.len() + result.len()
            &&& forall|i: int| 0 <= i < source.len() ==> s[i] == #[trigger] source[i]
            &&& forall|i: int| 0 <= i < unwind.len() ==> s[unwound_at + i] == #[trigger] unwind[i]
            &&& forall|i: int| 0 <= i < result.len() ==> s[at + i] == #[trigger] result[i]
            &&& forall|i: int|
                0 <= i < aggregation.len() ==> s[aggregated_at + i] == #[trigger] aggregation[i]
        }),
{
}

/// What the part that selects documents holds.
proof fn lemma_source_parts(v: QueryView, joins: Built)
    ensures
        ({
            let s = v.source_stages(joins);
            let f = if v.native_query is Some || v.query is Some {
                1int
            } else {
                0
            };
            let computed = f + joins.len();
            let joined = computed + v.order_aggregate_projections.len();
            &&& s.len() == joined + v.join_filters.len()
            &&& v.native_query is Some ==> s[0] == stage("$match"@, v.native_query->0)
            &&& v.native_query is None && v.query is Some ==> s[0] == stage_for(v.query->0)
            &&& forall|i: int|
                0 <= i < joins.len() ==> s[f + i] == fields_of((#[trigger] joins[i]).0)
            &&& forall|i: int|
                0 <= i < v.order_aggregate_projections.len() ==> s[computed + i]
                    == #[trigger] v.order_aggregate_projections[i]
            &&& forall|i: int|
                0 <= i < v.join_filters.len() ==> s[joined + i] == stage_for(
                    #[trigger] v.join_filters[i],
                )
        }),
{
}

/// What the part that sorts, cuts and projects holds.
pub(crate) proof fn lemma_result_parts(v: QueryView)
    ensures
        ({
            let s = v.result_stages();
            let skip = present(v.order);
            let limit = skip + present(v.skip);
            let project = limit + present(v.limit);
            &&& s.len() == project + present(v.projection)
            &&& v.order is Some ==> s[0] == stage("$sort"@, v.order->0)
            &&& v.skip is Some ==> s[skip] == seq![("$skip"@, Value::Int64(v.skip->0 as i64))]
            &&& v.limit is Some ==> s[limit] == seq![("$limit"@, Value::Int64(v.limit->0))]
            &&& v.projection is Some ==> s[project] == stage("$project"@, v.projection->0)
        }),
{
}

/// Where each stage of a pipeline stands.
#[verifier::rlimit(50)]
proof fn lemma_layout(q: MongoReadQueryBuilder, joins: Built)
    requires
        joins.len() == q.joins@.len() + q.order_joins@.len(),
    ensures
        ({
            let s = q@.pipeline(joins);
            let f = filtering(q.native_query, q.query);
            let computed = f + joins.len();
            let joined = computed + q.order_aggregate_projections@.len();
            let selected = end_of_selection(q);
            let at = start_of_result(q, joins);
            let skip = at + present(q.order);
            let limit = skip + present(q.skip);
            let project = limit + present(q.limit);
            let end = project + present(q.projection);
            let grouped = if q.is_group_by_query {
                selected
            } else {
                end
            };
            let unwound_at = at - unwound(joins, joins.len() as int);
            &&& s.len() == end + (if q.is_group_by_query {
                0
            } else {
                aggregating(q)
            })
            &&& 0 <= unwound_at <= at
            &&& q.native_query is Some ==> s[0] == stage("$match"@, fields_of(q.native_query->0))
            &&& q.native_query is None && q.query is Some ==> s[0] == stage_for(
                fields_of(q.query->0),
            )
            &&& forall|i: int|
                0 <= i < joins.len() ==> s[f + i] == fields_of((#[trigger] joins[i]).0)
            &&& forall|i: int|
                0 <= i < q.order_aggregate_projections@.len() ==> s[computed + i] == fields_of(
                    #[trigger] q.order_aggregate_projections@[i],
                )
            &&& forall|i: int|
                0 <= i < q.join_filters@.len() ==> s[joined + i] == stage_for(
                    fields_of(#[trigger] q.join_filters@[i]),
                )
            &&& forall|i: int|
                0 <= i < joins.len() && (#[trigger] joins[i]).1 is Some ==> 0 <= unwound(joins, i)
                    < unwound(joins, joins.len() as int) && s[unwound_at + unwound(joins, i)]
                    == fields_of(joins[i].1->0)
            &&& q.order is Some ==> s[at] == stage("$sort"@, fields_of(q.order->0))
            &&& q.skip is Some ==> s[skip] == seq![("$skip"@, Value::Int64(q.skip->0 as i64))]
            &&& q.limit is Some ==> s[limit] == seq![("$limit"@, Value::Int64(q.limit->0))]
            &&& q.projection is Some ==> s[project] == stage(
                "$project"@,
                fields_of(q.projection->0),
            )
            &&& forall|i: int|
                0 <= i < q.aggregations@.len() ==> s[grouped + i] == fields_of(
                    #[trigger] q.aggregations@[i],
                )
            &&& forall|i: int|
                0 <= i < q.aggregation_filters@.len() ==> s[grouped + q.aggregations@.len() + i]
                    == stage_for(fields_of(#[trigger] q.aggregation_filters@[i]))
        }),
{
    lemma_unwound(joins);
    lemma_parts(q@, joins);
    lemma_source_parts(q@, joins);
    lemma_result_parts(q@);
    let s = q@.pipeline(joins);
    let source = q@.source_stages(joins);
    let aggregation = q@.aggregation_stages();
    let result = q@.result_stages();
    let f = filtering(q.native_query, q.query);
    let computed = f + joins.len();
    let joined = computed + q.order_aggregate_projections@.len();
    let at = start_of_result(q, joins);
    let skip = present(q.order);
    let limit = skip + present(q.skip);
    let project = limit + present(q.limit);
    assert(source.len() == end_of_selection(q));
    assert(aggregation.len() == aggregating(q));
    assert(f == 1 ==> s[0] == source[0]);
    assert forall|i: int| 0 <= i < joins.len() implies s[f + i] == fields_of(
        (#[trigger] joins[i]).0,
    ) by {
        assert(s[f + i] == source[f + i]);
    }
    assert forall|i: int| 0 <= i < q.order_aggregate_projections@.len() implies s[computed + i]
        == fields_of(#[trigger] q.order_aggregate_projections@[i]) by {
        assert(s[computed + i] == source[computed + i]);
        assert(q@.order_aggregate_projections[i] == fields_of(q.order_aggregate_projections@[i]));
    }
    assert forall|i: int| 0 <= i < q.join_filters@.len() implies s[joined + i] == stage_for(
        fields_of(#[trigger] q.join_filters@[i]),
    ) by {
        assert(s[joined + i] == source[joined + i]);
        assert(q@.join_filters[i] == fields_of(q.join_filters@[i]));
    }
    assert(q.order is Some ==> s[at] == result[0]);
    assert(q.skip is Some ==> s[at + skip] == result[skip]);
    assert(q.limit is Some ==> s[at + limit] == result[limit]);
    assert(q.projection is Some ==> s[at + project] == result[project]);
    let n = q.aggregations@.len();
    assert forall|i: int| 0 <= i < n implies aggregation[i] == fields_of(
        #[trigger] q.aggregations@[i],
    ) by {}
    assert forall|i: int| 0 <= i < q.aggregation_filters@.len() implies aggregation[n + i]
        == stage_for(fields_of(#[trigger] q.aggregation_filters@[i])) by {}
}

/// The filter on the collection comes first, in native syntax if there is one in it, and nothing
/// that is joined, computed or aggregated can come before it.
pub proof fn law_filter_comes_first<F: Fn(&JoinStage) -> (Document, Option<Document>)>(
    q: MongoReadQueryBuilder,
    build_join: F,
    r: Vec<Document>,
)
    requires
        call_ensures(MongoReadQueryBuilder::into_pipeline_stages::<F>, (q, &build_join), r),
    ensures
        q.native_query is Some ==> r@.len() > 0 && fields_of(r@[0]) == stage(
            "$match"@,
            fields_of(q.native_query->0),
        ),
        q.native_query is None && q.query is Some ==> r@.len() > 0 && fields_of(r@[0])
            == stage_for(fields_of(q.query->0)),
{
    let joins = lemma_stages(q, build_join, r);
    lemma_layout(q, joins);
    if r@.len() > 0 {
        assert(fields_of_all(r@)[0] == fields_of(r@[0]));
    }
}

/// The rendered joins of a pipeline.
pub(crate) proof fn lemma_stages<F: Fn(&JoinStage) -> (Document, Option<Document>)>(
    q: MongoReadQueryBuilder,
    build_join: F,
    r: Vec<Document>,
) -> (joins: Built)
    requires
        call_ensures(MongoReadQueryBuilder::into_pipeline_stages::<F>, (q, &build_join), r),
    ensures
        are_rendered(build_join, q.joins@ + q.order_joins@, joins),
        fields_of_all(r@) == q@.pipeline(joins),
        r@.len() == q@.pipeline(joins).len(),
        forall|i: int|
            0 <= i < r@.len() ==> #[trigger] fields_of_all(r@)[i] == fields_of(r@[i]),
{
    choose|joins: Built| #[trigger]
        are_built(build_join, q.joins@ + q.order_joins@, joins) && fields_of_all(r@)
            == q@.pipeline(joins)
}

/// Whether `rendered` is what the caller's function made of the joins, one for one and in order.
pub open spec fn are_rendered<F: Fn(&JoinStage) -> (Document, Option<Document>)>(
    build_join: F,
    joins: Seq<JoinStage>,
    rendered: Built,
) -> bool {
    &&& rendered.len() == joins.len()
    &&& forall|i: int|
        0 <= i < joins.len() ==> call_ensures(build_join, (&joins[i],), #[trigger] rendered[i])
}

/// The lookups of the query's own joins follow the filter on the collection, then come those of the
/// ordering, then the fields that are computed from them, and then the filters on what was joined.
/// What has to be unwound is unwound later, in the order of the joins and right before the result is
/// sorted and cut.
pub proof fn law_joins_and_what_depends_on_them<
    F: Fn(&JoinStage) -> (Document, Option<Document>),
>(q: MongoReadQueryBuilder, build_join: F, r: Vec<Document>)
    requires
        call_ensures(MongoReadQueryBuilder::into_pipeline_stages::<F>, (q, &build_join), r),
    ensures
        exists|joins: Built|
            {
                let first = filtering(q.native_query, q.query);
                let computed = first + q.joins@.len() + q.order_joins@.len();
                let joined = computed + q.order_aggregate_projections@.len();
                let last = unwound(joins, joins.len() as int);
                let unwinding = start_of_result(q, joins) - last;
                &&& #[trigger] are_rendered(build_join, q.joins@ + q.order_joins@, joins)
                &&& r@.len() >= unwinding + last
                &&& forall|i: int|
                    0 <= i < joins.len() ==> fields_of(r@[first + i]) == fields_of(
                        (#[trigger] joins[i]).0,
                    )
                &&& forall|i: int|
                    0 <= i < q.order_aggregate_projections@.len() ==> fields_of(r@[computed + i])
                        == fields_of(#[trigger] q.order_aggregate_projections@[i])
                &&& forall|i: int|
                    0 <= i < q.join_filters@.len() ==> fields_of(r@[joined + i]) == stage_for(
                        fields_of(#[trigger] q.join_filters@[i]),
                    )
                &&& forall|i: int|
                    0 <= i < joins.len() && (#[trigger] joins[i]).1 is Some ==> 0 <= unwound(
                        joins,
                        i,
                    ) < last && fields_of(r@[unwinding + unwound(joins, i)]) == fields_of(
                        joins[i].1->0,
                    )
            },
{
    let joins = lemma_stages(q, build_join, r);
    lemma_layout(q, joins);
    let s = fields_of_all(r@);
    let first = filtering(q.native_query, q.query);
    let computed = first + q.joins@.len() + q.order_joins@.len();
    let joined = computed + q.order_aggregate_projections@.len();
    let unwinding = start_of_result(q, joins) - unwound(joins, joins.len() as int);
    assert forall|i: int| 0 <= i < joins.len() implies fields_of(r@[first + i]) == fields_of(
        (#[trigger] joins[i]).0,
    ) by {
        assert(s[first + i] == fields_of(r@[first + i]));
    }
    assert forall|i: int| 0 <= i < q.order_aggregate_projections@.len() implies fields_of(
        r@[computed + i],
    ) == fields_of(#[trigger] q.order_aggregate_projections@[i]) by {
        assert(s[computed + i] == fields_of(r@[computed + i]));
    }
    assert forall|i: int| 0 <= i < q.join_filters@.len() implies fields_of(r@[joined + i])
        == stage_for(fields_of(#[trigger] q.join_filters@[i])) by {
        assert(s[joined + i] == fields_of(r@[joined + i]));
    }
    assert forall|i: int| 0 <= i < joins.len() && (#[trigger] joins[i]).1 is Some implies fields_of(
        r@[unwinding + unwound(joins, i)],
    ) == fields_of(joins[i].1->0) by {
        assert(s[unwinding + unwound(joins, i)] == fields_of(r@[unwinding + unwound(joins, i)]));
    }
}

/// The result is sorted first, then its start is skipped, then it is limited and then it is
/// projected, whichever of these there are. All of that follows the selection of the documents.
pub proof fn law_sorted_then_cut<F: Fn(&JoinStage) -> (Document, Option<Document>)>(
    q: MongoReadQueryBuilder,
    build_join: F,
    r: Vec<Document>,
)
    requires
        call_ensures(MongoReadQueryBuilder::into_pipeline_stages::<F>, (q, &build_join), r),
    ensures
        exists|joins: Built|
            {
                let sort = start_of_result(q, joins);
                let skip = sort + present(q.order);
                let limit = skip + present(q.skip);
                let project = limit + present(q.limit);
                &&& #[trigger] are_rendered(build_join, q.joins@ + q.order_joins@, joins)
                &&& end_of_selection(q) <= sort
                &&& project + present(q.projection) <= r@.len()
                &&& q.order is Some ==> fields_of(r@[sort]) == stage(
                    "$sort"@,
                    fields_of(q.order->0),
                )
                &&& q.skip is Some ==> fields_of(r@[skip]) == seq![
                    ("$skip"@, Value::Int64(q.skip->0 as i64)),
                ]
                &&& q.limit is Some ==> fields_of(r@[limit]) == seq![
                    ("$limit"@, Value::Int64(q.limit->0)),
                ]
                &&& q.projection is Some ==> fields_of(r@[project]) == stage(
                    "$project"@,
                    fields_of(q.projection->0),
                )
            },
{
    let joins = lemma_stages(q, build_join, r);
    lemma_layout(q, joins);
    let s = fields_of_all(r@);
    let sort = start_of_result(q, joins);
    let skip = sort + present(q.order);
    let limit = skip + present(q.skip);
    let project = limit + present(q.limit);
    assert(q.order is Some ==> s[sort] == fields_of(r@[sort]));
    assert(q.skip is Some ==> s[skip] == fields_of(r@[skip]));
    assert(q.limit is Some ==> s[limit] == fields_of(r@[limit]));
    assert(q.projection is Some ==> s[project] == fields_of(r@[project]));
}

/// Of any two of sort, skip, limit and projection, the one that is named first here comes first.
#[verifier::rlimit(50)]
pub proof fn law_order_of_result_stages<F: Fn(&JoinStage) -> (Document, Option<Document>)>(
    q: MongoReadQueryBuilder,
    build_join: F,
    r: Vec<Document>,
)
    requires
        call_ensures(MongoReadQueryBuilder::into_pipeline_stages::<F>, (q, &build_join), r),
    ensures
        ({
            let s = fields_of_all(r@);
            let sort = stage("$sort"@, fields_of(q.order->0));
            let skip = seq![("$skip"@, Value::Int64(q.skip->0 as i64))];
            let limit = seq![("$limit"@, Value::Int64(q.limit->0))];
            let project = stage("$project"@, fields_of(q.projection->0));
            &&& q.order is Some && q.skip is Some ==> precedes(s, sort, skip)
            &&& q.order is Some && q.limit is Some ==> precedes(s, sort, limit)
            &&& q.order is Some && q.projection is Some ==> precedes(s, sort, project)
            &&& q.skip is Some && q.limit is Some ==> precedes(s, skip, limit)
            &&& q.skip is Some && q.projection is Some ==> precedes(s, skip, project)
            &&& q.limit is Some && q.projection is Some ==> precedes(s, limit, project)
        }),
{
    let joins = lemma_stages(q, build_join, r);
    lemma_layout(q, joins);
}

/// Aggregations come in their order, with the filters on them after them. They come right after the
/// selection of documents where they make groups, so that the groups are sorted and cut, and last
/// where they do not, so that what was sorted and cut is aggregated.
pub proof fn law_place_of_aggregations<F: Fn(&JoinStage) -> (Document, Option<Document>)>(
    q: MongoReadQueryBuilder,
    build_join: F,
    r: Vec<Document>,
)
    requires
        call_ensures(MongoReadQueryBuilder::into_pipeline_stages::<F>, (q, &build_join), r),
    ensures
        ({
            let at = if q.is_group_by_query {
                end_of_selection(q)
            } else {
                r@.len() - aggregating(q)
            };
            let filtered = at + q.aggregations@.len();
            &&& end_of_selection(q) <= at
            &&& at + aggregating(q) <= r@.len()
            &&& forall|i: int|
                0 <= i < q.aggregations@.len() ==> fields_of(r@[at + i]) == fields_of(
                    #[trigger] q.aggregations@[i],
                )
            &&& forall|i: int|
                0 <= i < q.aggregation_filters@.len() ==> fields_of(r@[filtered + i]) == stage_for(
                    fields_of(#[trigger] q.aggregation_filters@[i]),
                )
        }),
{
    let joins = lemma_stages(q, build_join, r);
    lemma_layout(q, joins);
    let s = fields_of_all(r@);
    let at = if q.is_group_by_query {
        end_of_selection(q)
    } else {
        r@.len() - aggregating(q)
    };
    let filtered = at + q.aggregations@.len();
    assert forall|i: int| 0 <= i < q.aggregations@.len() implies fields_of(r@[at + i]) == fields_of(
        #[trigger] q.aggregations@[i],
    ) by {
        assert(s[at + i] == fields_of(r@[at + i]));
    }
    assert forall|i: int| 0 <= i < q.aggregation_filters@.len() implies fields_of(r@[filtered + i])
        == stage_for(fields_of(#[trigger] q.aggregation_filters@[i])) by {
        assert(s[filtered + i] == fields_of(r@[filtered + i]));
    }
}

/// What is aggregated into groups comes before the groups are sorted, skipped, limited and
/// projected. What is aggregated without groups comes after that.
#[verifier::rlimit(50)]
pub proof fn law_groups_are_cut_and_documents_are_aggregated<
    F: Fn(&JoinStage) -> (Document, Option<Document>),
>(q: MongoReadQueryBuilder, build_join: F, r: Vec<Document>, i: int)
    requires
        call_ensures(MongoReadQueryBuilder::into_pipeline_stages::<F>, (q, &build_join), r),
        0 <= i < q.aggregations@.len(),
    ensures
        ({
            let s = fields_of_all(r@);
            let aggregation = fields_of(q.aggregations@[i]);
            let sort = stage("$sort"@, fields_of(q.order->0));
            let skip = seq![("$skip"@, Value::Int64(q.skip->0 as i64))];
            let limit = seq![("$limit"@, Value::Int64(q.limit->0))];
            let project = stage("$project"@, fields_of(q.projection->0));
            if q.is_group_by_query {
                &&& q.order is Some ==> precedes(s, aggregation, sort)
                &&& q.skip is Some ==> precedes(s, aggregation, skip)
                &&& q.limit is Some ==> precedes(s, aggregation, limit)
                &&& q.projection is Some ==> precedes(s, aggregation, project)
            } else {
                &&& q.order is Some ==> precedes(s, sort, aggregation)
                &&& q.skip is Some ==> precedes(s, skip, aggregation)
                &&& q.limit is Some ==> precedes(s, limit, aggregation)
                &&& q.projection is Some ==> precedes(s, project, aggregation)
            }
        }),
{
    let joins = lemma_stages(q, build_join, r);
    lemma_layout(q, joins);
    let s = fields_of_all(r@);
    let end = start_of_result(q, joins) + present(q.order) + present(q.skip) + present(q.limit)
        + present(q.projection);
    let at = if q.is_group_by_query {
        end_of_selection(q)
    } else {
        end
    };
    assert(s[at + i] == fields_of(q.aggregations@[i]));
}

/// A pipeline has the stages that its parts ask for, and no other.
pub proof fn law_number_of_stages<F: Fn(&JoinStage) -> (Document, Option<Document>)>(
    q: MongoReadQueryBuilder,
    build_join: F,
    r: Vec<Document>,
)
    requires
        call_ensures(MongoReadQueryBuilder::into_pipeline_stages::<F>, (q, &build_join), r),
    ensures
        exists|joins: Built| #[trigger]
            are_rendered(build_join, q.joins@ + q.order_joins@, joins) && r@.len()
                == end_of_selection(q) + aggregating(q) + unwound(joins, joins.len() as int)
                + present(q.order) + present(q.skip) + present(q.limit) + present(q.projection),
{
    let joins = lemma_stages(q, build_join, r);
    lemma_layout(q, joins);
}

/// The stages of a pipeline with a cursor: it finds the cursor document, adds the lookups of the
/// ordering and what is computed from them, and then reads the collection again in a lookup of its
/// own, whose documents take the place of the cursor document.
pub open spec fn starts_from<F: Fn(&JoinStage) -> (Document, Option<Document>)>(
    collection: Seq<char>,
    cursor: CursorData,
    order_joins: Seq<JoinStage>,
    computed: Seq<Fields>,
    build_join: F,
    stages: Seq<Fields>,
    inner: Seq<Fields>,
) -> bool {
    let n = (1 + order_joins.len() + computed.len()) as int;
    &&& stages.len() == n + 3
    &&& stages[0] == stage_for(fields_of(cursor.cursor_filter))
    &&& exists|joins: Built| #[trigger]
        are_rendered(build_join, order_joins, joins) && forall|i: int|
            0 <= i < joins.len() ==> stages[1 + i] == fields_of((#[trigger] joins[i]).0)
    &&& forall|i: int|
        0 <= i < computed.len() ==> stages[1 + order_joins.len() + i] == #[trigger] computed[i]
    &&& stages[n] == stage(
        "$lookup"@,
        seq![
            ("from"@, Value::Text(collection)),
            ("let"@, Value::Doc(fields_of(cursor.bindings))),
            (
                "pipeline"@,
                Value::Array(Seq::new(inner.len(), |i: int| Value::Doc(inner[i]))),
            ),
            ("as"@, Value::Text("cursor_inner"@)),
        ],
    )
    &&& stages[n + 1] == seq![("$unwind"@, Value::Text("$cursor_inner"@))]
    &&& stages[n + 2] == stage("$replaceRoot"@, seq![("newRoot"@, Value::Text("$cursor_inner"@))])
}

proof fn lemma_starts_from<F: Fn(&JoinStage) -> (Document, Option<Document>)>(
    q: QueryView,
    cursor: CursorData,
    build_join: F,
    order_joins: Built,
    joins: Built,
)
    requires
        q.cursor_data == Some(cursor@),
        are_built(build_join, q.order_joins, order_joins),
    ensures
        ({
            let plain = q.pipeline(joins);
            let at = q.source_stages(joins).len() as int;
            &&& 0 <= at <= plain.len()
            &&& starts_from(
                q.collection,
                cursor,
                q.order_joins,
                q.order_aggregate_projections,
                build_join,
                q.cursored_pipeline(order_joins, joins),
                plain.insert(at, stage_for(fields_of(cursor.cursor_condition))),
            )
        }),
{
    let condition = fields_of(cursor.cursor_condition);
    law_cursor_adds_one_condition(q, condition, joins);
    let at = q.source_stages(joins).len() as int;
    let inner = q.pipeline(joins).insert(at, stage_for(condition));
    assert(q.from_cursor(condition).pipeline(joins) == inner);
    assert(inner.map_values(|d: Fields| Value::Doc(d)) =~= Seq::new(
        inner.len(),
        |i: int| Value::Doc(inner[i]),
    ));
    assert(are_rendered(build_join, q.order_joins, order_joins));
}

/// A query with a cursor runs the same query in its inner pipeline: that is the pipeline of the
/// query without its cursor, with exactly one stage more, which is for the cursor condition and
/// stands right after all other stages that select documents.
pub proof fn law_cursor_keeps_the_query<F: Fn(&JoinStage) -> (Document, Option<Document>)>(
    q: MongoReadQueryBuilder,
    build_join: F,
    r: Vec<Document>,
)
    requires
        q.cursor_data is Some,
        call_ensures(MongoReadQueryBuilder::cursored_pipeline_stages::<F>, (q, &build_join), r),
    ensures
        exists|joins: Built| #[trigger]
            are_rendered(build_join, q.joins@ + q.order_joins@, joins) && starts_from(
                q.model.db_name@,
                q.cursor_data->0,
                q.order_joins@,
                fields_of_all(q.order_aggregate_projections@),
                build_join,
                fields_of_all(r@),
                q@.pipeline(joins).insert(
                    end_of_selection(q),
                    stage_for(fields_of(q.cursor_data->0.cursor_condition)),
                ),
            ),
{
    let (order_joins, joins): (Built, Built) = choose|order_joins: Built, joins: Built|
        {
            &&& #[trigger] are_built(build_join, q.order_joins@, order_joins)
            &&& #[trigger] are_built(build_join, q.joins@ + q.order_joins@, joins)
            &&& fields_of_all(r@) == q@.cursored_pipeline(order_joins, joins)
        };
    lemma_starts_from(
        q@,
        q.cursor_data->0,
        build_join,
        order_joins,
        joins,
    );
    assert(are_rendered(build_join, q.joins@ + q.order_joins@, joins));
    assert(q@.source_stages(joins).len() == end_of_selection(q));
}

pub(crate) proof fn lemma_precedes(stages: Seq<Fields>, i: int, j: int)
    requires
        0 <= i < j < stages.len(),
    ensures
        precedes(stages, stages[i], stages[j]),
{
}

/// A stage that is added after the selection of the documents leaves the order of the others.
#[verifier::rlimit(50)]
proof fn lemma_inner_stages(q: MongoReadQueryBuilder, joins: Built, condition: Fields)
    requires
        joins.len() == q.joins@.len() + q.order_joins@.len(),
    ensures
        ({
            let inner = q@.pipeline(joins).insert(end_of_selection(q), condition);
            let sort = stage("$sort"@, fields_of(q.order->0));
            let skip = seq![("$skip"@, Value::Int64(q.skip->0 as i64))];
            let limit = seq![("$limit"@, Value::Int64(q.limit->0))];
            let project = stage("$project"@, fields_of(q.projection->0));
            let native = stage("$match"@, fields_of(q.native_query->0));
            &&& inner.contains(condition)
            &&& q.native_query is Some ==> inner[0] == native
            &&& q.native_query is None && q.query is Some ==> inner[0] == stage_for(
                fields_of(q.query->0),
            )
            &&& q.native_query is Some ==> precedes(inner, native, condition)
            &&& q.order is Some ==> precedes(inner, condition, sort)
            &&& q.skip is Some ==> precedes(inner, condition, skip)
            &&& q.limit is Some ==> precedes(inner, condition, limit)
            &&& q.order is Some && q.skip is Some ==> precedes(inner, sort, skip)
            &&& q.order is Some && q.limit is Some ==> precedes(inner, sort, limit)
            &&& q.skip is Some && q.limit is Some ==> precedes(inner, skip, limit)
            &&& q.limit is Some && q.projection is Some ==> precedes(inner, limit, project)
            &&& q.projection is Some ==> precedes(inner, condition, project)
        }),
{
    lemma_layout(q, joins);
    let at = end_of_selection(q);
    let plain = q@.pipeline(joins);
    let sort = if q.order is Some {
        Some(stage("$sort"@, fields_of(q.order->0)))
    } else {
        None
    };
    let skip = if q.skip is Some {
        Some(seq![("$skip"@, Value::Int64(q.skip->0 as i64))])
    } else {
        None
    };
    let limit = if q.limit is Some {
        Some(seq![("$limit"@, Value::Int64(q.limit->0))])
    } else {
        None
    };
    let project = if q.projection is Some {
        Some(stage("$project"@, fields_of(q.projection->0)))
    } else {
        None
    };
    lemma_one_more(plain, at, condition, start_of_result(q, joins), sort, skip, limit, project);
}

/// Stages that come one after the other, as far as there are, still do with one more before them.
proof fn lemma_one_more(
    plain: Seq<Fields>,
    at: int,
    more: Fields,
    start: int,
    a: Option<Fields>,
    b: Option<Fields>,
    c: Option<Fields>,
    d: Option<Fields>,
)
    requires
        0 <= at <= start,
        start + present(a) + present(b) + present(c) + present(d) <= plain.len(),
        a is Some ==> plain[start] == a->0,
        b is Some ==> plain[start + present(a)] == b->0,
        c is Some ==> plain[start + present(a) + present(b)] == c->0,
        d is Some ==> plain[start + present(a) + present(b) + present(c)] == d->0,
    ensures
        ({
            let inner = plain.insert(at, more);
            &&& inner.contains(more)
            &&& at > 0 ==> inner[0] == plain[0] && precedes(inner, plain[0], more)
            &&& a is Some ==> precedes(inner, more, a->0)
            &&& b is Some ==> precedes(inner, more, b->0)
            &&& c is Some ==> precedes(inner, more, c->0)
            &&& d is Some ==> precedes(inner, more, d->0)
            &&& a is Some && b is Some ==> precedes(inner, a->0, b->0)
            &&& a is Some && c is Some ==> precedes(inner, a->0, c->0)
            &&& b is Some && c is Some ==> precedes(inner, b->0, c->0)
            &&& c is Some && d is Some ==> precedes(inner, c->0, d->0)
        }),
{
    let inner = plain.insert(at, more);
    let i = start + 1;
    let j = i + present(a);
    let k = j + present(b);
    let l = k + present(c);
    assert(inner[at] == more);
    if at > 0 {
        assert(inner[0] == plain[0]);
        lemma_precedes(inner, 0, at);
    }
    if a is Some {
        assert(inner[i] == a->0);
        lemma_precedes(inner, at, i);
    }
    if b is Some {
        assert(inner[j] == b->0);
        lemma_precedes(inner, at, j);
        if a is Some {
            lemma_precedes(inner, i, j);
        }
    }
    if c is Some {
        assert(inner[k] == c->0);
        lemma_precedes(inner, at, k);
        if a is Some {
            lemma_precedes(inner, i, k);
        }
        if b is Some {
            lemma_precedes(inner, j, k);
        }
    }
    if d is Some {
        assert(inner[l] == d->0);
        lemma_precedes(inner, at, l);
        if c is Some {
            lemma_precedes(inner, k, l);
        }
    }
}

/// With a cursor, the query still filters, joins, sorts and cuts: in the inner pipeline, the filter
/// on the collection comes first, the cursor condition comes before the result is sorted, and sort,
/// skip, limit and projection follow in this order.
#[verifier::rlimit(50)]
pub proof fn law_cursored_query_filters_and_cuts<
    F: Fn(&JoinStage) -> (Document, Option<Document>),
>(q: MongoReadQueryBuilder, build_join: F, r: Vec<Document>)
    requires
        q.cursor_data is Some,
        call_ensures(MongoReadQueryBuilder::cursored_pipeline_stages::<F>, (q, &build_join), r),
    ensures
        exists|inner: Seq<Fields>|
            {
                let condition = stage_for(fields_of(q.cursor_data->0.cursor_condition));
                let sort = stage("$sort"@, fields_of(q.order->0));
                let skip = seq![("$skip"@, Value::Int64(q.skip->0 as i64))];
                let limit = seq![("$limit"@, Value::Int64(q.limit->0))];
                let project = stage("$project"@, fields_of(q.projection->0));
                &&& #[trigger] starts_from(
                    q.model.db_name@,
                    q.cursor_data->0,
                    q.order_joins@,
                    fields_of_all(q.order_aggregate_projections@),
                    build_join,
                    fields_of_all(r@),
                    inner,
                )
                &&& inner.contains(condition)
                &&& q.native_query is Some ==> inner[0] == stage(
                    "$match"@,
                    fields_of(q.native_query->0),
                )
                &&& q.native_query is None && q.query is Some ==> inner[0] == stage_for(
                    fields_of(q.query->0),
                )
                &&& q.native_query is Some ==> precedes(
                    inner,
                    stage("$match"@, fields_of(q.native_query->0)),
                    condition,
                )
                &&& q.order is Some ==> precedes(inner, condition, sort)
                &&& q.skip is Some ==> precedes(inner, condition, skip)
                &&& q.limit is Some ==> precedes(inner, condition, limit)
                &&& q.order is Some && q.skip is Some ==> precedes(inner, sort, skip)
                &&& q.order is Some && q.limit is Some ==> precedes(inner, sort, limit)
                &&& q.skip is Some && q.limit is Some ==> precedes(inner, skip, limit)
                &&& q.limit is Some && q.projection is Some ==> precedes(inner, limit, project)
                &&& q.projection is Some ==> precedes(inner, condition, project)
            },
{
    law_cursor_keeps_the_query(q, build_join, r);
    let at = end_of_selection(q);
    let condition = stage_for(fields_of(q.cursor_data->0.cursor_condition));
    let joins = choose|joins: Built| #[trigger]
        are_rendered(build_join, q.joins@ + q.order_joins@, joins) && starts_from(
            q.model.db_name@,
            q.cursor_data->0,
            q.order_joins@,
            fields_of_all(q.order_aggregate_projections@),
            build_join,
            fields_of_all(r@),
            q@.pipeline(joins).insert(at, condition),
        );
    lemma_inner_stages(q, joins, condition);
}

/// The pipeline of a finalized query is the plain one where there is no cursor, and starts from the
/// cursor where there is one.
pub proof fn law_cursor_decides_the_shape<F: Fn(&JoinStage) -> (Document, Option<Document>)>(
    q: MongoReadQueryBuilder,
    build_join: F,
    r: ReadQuery,
)
    requires
        call_ensures(MongoReadQueryBuilder::build_pipeline_query::<F>, (q, &build_join), r),
    ensures
        exists|joins: Built| #[trigger]
            are_rendered(build_join, q.joins@ + q.order_joins@, joins) && match q.cursor_data {
                None => fields_of_all(r.stages@) == q@.pipeline(joins),
                Some(cursor) => starts_from(
                    q.model.db_name@,
                    cursor,
                    q.order_joins@,
                    fields_of_all(q.order_aggregate_projections@),
                    build_join,
                    fields_of_all(r.stages@),
                    q@.pipeline(joins).insert(
                        end_of_selection(q),
                        stage_for(fields_of(cursor.cursor_condition)),
                    ),
                ),
            },
{
    let s = fields_of_all(r.stages@);
    if q.cursor_data is None {
        let joins = choose|joins: Built|
            {
                &&& #[trigger] are_built(build_join, q.joins@ + q.order_joins@, joins)
                &&& s == q@.pipeline(joins)
            };
        assert(are_rendered(build_join, q.joins@ + q.order_joins@, joins));
    } else {
        let (order_joins, joins): (Built, Built) = choose|order_joins: Built, joins: Built|
            {
                &&& #[trigger] are_built(build_join, q.order_joins@, order_joins)
                &&& #[trigger] are_built(build_join, q.joins@ + q.order_joins@, joins)
                &&& s == q@.cursored_pipeline(order_joins, joins)
            };
        lemma_starts_from(q@, q.cursor_data->0, build_join, order_joins, joins);
        assert(are_rendered(build_join, q.joins@ + q.order_joins@, joins));
        assert(q@.source_stages(joins).len() == end_of_selection(q));
    }
}

/// Whether these are the ordering of a query, the fields computed for it and the joins added for
/// it: as the caller's function renders them for this kind of query if there is an ordering to
/// render, and else those that the query has.
pub open spec fn is_ordering<O: FnOnce(OrderByBuilder, bool) -> OrderData>(
    q: MongoReadQueryBuilder,
    build_order: O,
    order: Option<Fields>,
    computed: Seq<Fields>,
    added: Seq<JoinStage>,
) -> bool {
    match q.order_builder {
        Some(b) => exists|data: OrderData|
            {
                &&& #[trigger] call_ensures(build_order, (b, q.is_group_by_query), data)
                &&& order == fields_of_opt(data.order)
                &&& computed == fields_of_all(data.aggregate_projections@)
                &&& added == data.joins@
            },
        None => {
            &&& order == fields_of_opt(q.order)
            &&& computed == fields_of_all(q.order_aggregate_projections@)
            &&& added.len() == 0
        },
    }
}

/// Whether this is the cursor of a query: as the caller's function renders it if there is one to
/// render, and else the one that the query has.
pub open spec fn is_cursor<C: FnOnce(CursorBuilder) -> Result<CursorData, E>, E>(
    q: MongoReadQueryBuilder,
    build_cursor: C,
    cursor: Option<CursorData>,
) -> bool {
    match q.cursor_builder {
        Some(b) => cursor is Some && call_ensures(
            build_cursor,
            (b,),
            Ok::<CursorData, E>(cursor->0),
        ),
        None => cursor == q.cursor_data,
    }
}

/// The query with another ordering.
pub open spec fn reordered(
    q: MongoReadQueryBuilder,
    order: Option<Fields>,
    computed: Seq<Fields>,
    added: Seq<JoinStage>,
) -> QueryView {
    QueryView {
        order,
        order_aggregate_projections: computed,
        order_joins: q.order_joins@ + added,
        ..q@
    }
}

/// A query is built unless its cursor cannot be rendered, in which case the error is handed on. It
/// is built with the ordering and the cursor as rendered, and else as it is: its joins are followed
/// by those of the ordering, and with a cursor it runs in the inner pipeline, with one stage more.
#[verifier::rlimit(50)]
pub proof fn law_built_query<
    O: FnOnce(OrderByBuilder, bool) -> OrderData,
    C: FnOnce(CursorBuilder) -> Result<CursorData, E>,
    F: Fn(&JoinStage) -> (Document, Option<Document>),
    E,
>(
    q: MongoReadQueryBuilder,
    build_order: O,
    build_cursor: C,
    build_join: F,
    r: Result<ReadQuery, E>,
)
    requires
        call_ensures(
            MongoReadQueryBuilder::build::<O, C, F, E>,
            (q, build_order, build_cursor, &build_join),
            r,
        ),
    ensures
        q.cursor_builder is None ==> r is Ok,
        r matches Err(e) ==> q.cursor_builder is Some && call_ensures(
            build_cursor,
            (q.cursor_builder->0,),
            Err::<CursorData, E>(e),
        ),
        r matches Ok(built) ==> exists|
            order: Option<Fields>,
            computed: Seq<Fields>,
            added: Seq<JoinStage>,
            cursor: Option<CursorData>,
            joins: Built,
        |
            {
                let all = q.joins@ + (q.order_joins@ + added);
                let plain = reordered(q, order, computed, added).pipeline(joins);
                &&& #[trigger] is_ordering(q, build_order, order, computed, added)
                &&& #[trigger] is_cursor(q, build_cursor, cursor)
                &&& #[trigger] are_rendered(
                    build_join,
                    q.joins@ + (q.order_joins@ + added),
                    joins,
                )
                &&& match cursor {
                    None => fields_of_all(built.stages@) == plain,
                    Some(cursor) => starts_from(
                        q.model.db_name@,
                        cursor,
                        q.order_joins@ + added,
                        computed,
                        build_join,
                        fields_of_all(built.stages@),
                        plain.insert(
                            filtering(q.native_query, q.query) + all.len() + computed.len()
                                + q.join_filters@.len(),
                            stage_for(fields_of(cursor.cursor_condition)),
                        ),
                    ),
                }
            },
{
    let (ordered, finalized, outcome) = choose|
        ordered: QueryView,
        finalized: QueryView,
        outcome: Result<(), E>,
    |
        {
            &&& #[trigger] is_ordered(q, build_order, ordered)
            &&& #[trigger] is_pinned(q.cursor_builder, ordered, build_cursor, finalized, outcome)
            &&& match outcome {
                Ok(_) => r matches Ok(built) && finalized.is_pipeline(
                    build_join,
                    fields_of_all(built.stages@),
                ),
                Err(e) => r == Err::<ReadQuery, E>(e),
            }
        };
    if let Ok(built) = r {
        let s = fields_of_all(built.stages@);
        let (order, computed, added) = lemma_ordering(q, build_order, ordered);
        let cursor = match q.cursor_builder {
            Some(b) => {
                let data = choose|data: Result<CursorData, E>| #[trigger]
                    call_ensures(build_cursor, (b,), data) && match data {
                        Ok(data) => outcome == Ok::<(), E>(()) && finalized == (QueryView {
                            cursor_builder: None,
                            cursor_data: Some(data@),
                            ..ordered
                        }),
                        Err(e) => outcome == Err::<(), E>(e) && finalized == (QueryView {
                            cursor_builder: None,
                            ..ordered
                        }),
                    };
                Some(data->Ok_0)
            },
            None => q.cursor_data,
        };
        assert(is_cursor(q, build_cursor, cursor));
        let view = reordered(q, order, computed, added);
        let all = q.joins@ + (q.order_joins@ + added);
        if cursor is None {
            let joins = choose|joins: Built|
                {
                    &&& #[trigger] are_built(build_join, finalized.joins + finalized.order_joins, joins)
                    &&& s == finalized.pipeline(joins)
                };
            assert(are_rendered(build_join, all, joins));
            lemma_same_pipeline(finalized, view, joins);
        } else {
            let (order_joins, joins): (Built, Built) = choose|order_joins: Built, joins: Built|
                {
                    &&& #[trigger] are_built(build_join, finalized.order_joins, order_joins)
                    &&& #[trigger] are_built(
                        build_join,
                        finalized.joins + finalized.order_joins,
                        joins,
                    )
                    &&& s == finalized.cursored_pipeline(order_joins, joins)
                };
            lemma_starts_from(finalized, cursor->0, build_join, order_joins, joins);
            assert(are_rendered(build_join, all, joins));
            lemma_same_pipeline(finalized, view, joins);
            assert(finalized.source_stages(joins).len() == filtering(q.native_query, q.query)
                + all.len() + computed.len() + q.join_filters@.len());
        }
    }
}

/// What is still to be rendered, or was, plays no part in a pipeline.
proof fn lemma_same_pipeline(a: QueryView, b: QueryView, joins: Built)
    requires
        a == (QueryView {
            order_builder: a.order_builder,
            cursor_builder: a.cursor_builder,
            cursor_data: a.cursor_data,
            ..b
        }),
    ensures
        a.pipeline(joins) == b.pipeline(joins),
{
    assert(a.source_stages(joins) =~= b.source_stages(joins));
    assert(a.aggregation_stages() =~= b.aggregation_stages());
    assert(a.result_stages() =~= b.result_stages());
}

/// What the ordering of an ordered query is.
pub(crate) proof fn lemma_ordering<O: FnOnce(OrderByBuilder, bool) -> OrderData>(
    q: MongoReadQueryBuilder,
    build_order: O,
    ordered: QueryView,
) -> (r: (Option<Fields>, Seq<Fields>, Seq<JoinStage>))
    requires
        is_ordered(q, build_order, ordered),
    ensures
        is_ordering(q, build_order, r.0, r.1, r.2),
        ordered == (QueryView { order_builder: None, ..reordered(q, r.0, r.1, r.2) }),
{
    match q.order_builder {
        Some(b) => {
            let data = choose|data: OrderData| #[trigger]
                call_ensures(build_order, (b, q.is_group_by_query), data) && ordered == q@.ordered(
                    data,
                );
            let r = (
                fields_of_opt(data.order),
                fields_of_all(data.aggregate_projections@),
                data.joins@,
            );
            assert(is_ordering(q, build_order, r.0, r.1, r.2));
            r
        },
        None => {
            let r = (
                fields_of_opt(q.order),
                fields_of_all(q.order_aggregate_projections@),
                Seq::<JoinStage>::empty(),
            );
            assert(q.order_joins@ + r.2 =~= q.order_joins@);
            assert(ordered =~= (QueryView { order_builder: None, ..reordered(q, r.0, r.1, r.2) }));
            r
        },
    }
}

} // verus!
