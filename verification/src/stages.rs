//! Lists of pipeline stages.
use crate::document::{embedded, fields_of, fields_of_all, single, Fields};
use crate::query::{are_built, lookups, match_expr, unwinds, Built, JoinStage};
use bson::Document;
use vstd::prelude::*;

verus! {

proof fn lemma_fields_of_all_add(a: Seq<Document>, b: Seq<Document>)
    ensures
        fields_of_all(a + b) == fields_of_all(a) + fields_of_all(b),
{
    assert(fields_of_all(a + b) =~= fields_of_all(a) + fields_of_all(b));
}

/// Adds a stage at the end.
pub(crate) fn push_stage(stages: &mut Vec<Document>, stage: Document)
    ensures
        fields_of_all(final(stages)@) == fields_of_all(old(stages)@).push(fields_of(stage)),
{
    let ghost before = stages@;
    stages.push(stage);
    assert(fields_of_all(stages@) =~= fields_of_all(before).push(fields_of(stage)));
}

/// Adds stages at the end.
pub(crate) fn push_stages(stages: &mut Vec<Document>, more: Vec<Document>)
    ensures
        fields_of_all(final(stages)@) == fields_of_all(old(stages)@) + fields_of_all(more@),
{
    let mut more = more;
    proof {
        lemma_fields_of_all_add(stages@, more@);
    }
    stages.append(&mut more);
}

/// Adds a stage at the end for each expression, which keeps the documents for which it holds.
pub(crate) fn push_filters(stages: &mut Vec<Document>, filters: Vec<Document>)
    ensures
        fields_of_all(final(stages)@) == fields_of_all(old(stages)@) + fields_of_all(
            filters@,
        ).map_values(|f: Fields| match_expr(f)),
{
    let ghost before = fields_of_all(stages@);
    let ghost exprs = fields_of_all(filters@).map_values(|f: Fields| match_expr(f));
    assert(before + exprs.take(0) =~= before);
    for filter in it: filters
        invariant
            it.seq() == filters@,
            exprs == fields_of_all(filters@).map_values(|f: Fields| match_expr(f)),
            fields_of_all(stages@) == before + exprs.take(it.index() as int),
    {
        push_stage(stages, match_expr_stage(filter));
        proof {
            let n = it.index() as int;
            assert(before + exprs.take(n + 1) =~= (before + exprs.take(n)).push(exprs[n]));
        }
    }
    assert(exprs.take(exprs.len() as int) =~= exprs);
}

/// The stage that keeps the documents for which an expression holds.
pub(crate) fn match_expr_stage(expr: Document) -> (d: Document)
    ensures
        fields_of(d) == match_expr(fields_of(expr)),
{
    single("$match", embedded(single("$expr", embedded(expr))))
}

/// Renders joins: adds their lookups to `stages` and their unwinds to `unwind_stages`.
pub(crate) fn push_joins<F: Fn(&JoinStage) -> (Document, Option<Document>)>(
    stages: &mut Vec<Document>,
    unwind_stages: &mut Vec<Document>,
    joins: &Vec<JoinStage>,
    build_join: &F,
) -> (built: Ghost<Built>)
    requires
        forall|j: &JoinStage| call_requires(*build_join, (j,)),
    ensures
        are_built(*build_join, joins@, built@),
        fields_of_all(final(stages)@) == fields_of_all(old(stages)@) + lookups(built@),
        fields_of_all(final(unwind_stages)@) == fields_of_all(old(unwind_stages)@) + unwinds(
            built@,
        ),
{
    let ghost stages_before = fields_of_all(stages@);
    let ghost unwinds_before = fields_of_all(unwind_stages@);
    let ghost mut built: Built = Seq::empty();
    assert(stages_before + lookups(built) =~= stages_before);
    assert(unwinds_before + unwinds(built) =~= unwinds_before);
    for n in 0..joins.len()
        invariant
            forall|j: &JoinStage| call_requires(*build_join, (j,)),
            built.len() == n,
            forall|i: int|
                0 <= i < n ==> call_ensures(*build_join, (&joins@[i],), #[trigger] built[i]),
            fields_of_all(stages@) == stages_before + lookups(built),
            fields_of_all(unwind_stages@) == unwinds_before + unwinds(built),
    {
        let (join, unwind) = build_join(&joins[n]);
        let ghost previous = built;
        proof {
            built = built.push((join, unwind));
            assert(built.drop_last() =~= previous);
            assert(stages_before + lookups(built) =~= (stages_before + lookups(previous)).push(
                fields_of(join),
            ));
        }
        if let Some(u) = unwind {
            push_stage(unwind_stages, u);
            assert(unwinds_before + unwinds(built) =~= (unwinds_before + unwinds(previous)).push(
                fields_of(u),
            ));
        }
        push_stage(stages, join);
    }
    Ghost(built)
}

/// The unwinds of joins come in the order of the joins.
pub(crate) proof fn lemma_unwinds_add(a: Built, b: Built)
    ensures
        unwinds(a + b) == unwinds(a) + unwinds(b),
    decreases b.len(),
{
    if b.len() == 0 {
        assert(a + b =~= a);
        assert(unwinds(a) + unwinds(b) =~= unwinds(a));
    } else {
        lemma_unwinds_add(a, b.drop_last());
        assert((a + b).drop_last() =~= a + b.drop_last());
        assert(unwinds(a + b) =~= unwinds(a) + unwinds(b));
    }
}

} // verus!
