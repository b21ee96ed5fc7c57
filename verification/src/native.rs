//! Filters in the native query syntax of MongoDB.
//!
//! Native filters (`{ field: value }`) can stand in a `$match` stage without `$expr`, which lets
//! MongoDB use indexes in place of a scan of the whole collection.
use crate::condition::{
    chars_of, existence, join_field_path, path, presence, scalar_list_native, scalar_native,
    try_scalar_list_to_native, try_scalar_to_native,
};
use crate::document::{
    array_of, documents, extend, fields_of, fields_of_all, fields_of_opt,
    has_key, is_empty, keys, new_document, one, put_all, single, Fields,
};
use crate::filter::{CompositeCondition, Filter};
use bson::Document;
use vstd::hash_set::StringHashSet;
use vstd::prelude::*;

verus! {

/// The filter that holds of every document.
pub open spec fn always() -> Fields {
    Seq::empty()
}

/// The filter that holds of no document.
pub open spec fn never() -> Fields {
    one("$nor"@, array_of(seq![always()]))
}

/// Whether a key of a native filter is an operator, not a field.
pub open spec fn is_operator(key: Seq<char>) -> bool {
    key.len() > 0 && key[0] == '$'
}

/// Whether the documents can be merged into one with no loss: all of their keys are fields, and no
/// field occurs twice.
pub open spec fn flattenable(natives: Seq<Fields>) -> bool {
    let all = natives.flatten();
    &&& forall|i: int| 0 <= i < all.len() ==> !is_operator((#[trigger] all[i]).0)
    &&& forall|i: int, j: int|
        0 <= i < j < all.len() ==> (#[trigger] all[i]).0 != (#[trigger] all[j]).0
}

/// The results, if there is one for each.
pub open spec fn collected(results: Seq<Option<Fields>>) -> Option<Seq<Fields>> {
    if forall|i: int| 0 <= i < results.len() ==> (#[trigger] results[i]) is Some {
        Some(results.map_values(|r: Option<Fields>| r->0))
    } else {
        None
    }
}

/// The native filter that holds if all of `natives` do. Those that always hold are left out.
pub open spec fn conjunction(natives: Seq<Fields>) -> Fields {
    let kept = natives.filter(|d: Fields| d.len() > 0);
    if kept.len() == 0 {
        always()
    } else if kept.len() == 1 {
        kept[0]
    } else if flattenable(kept) {
        kept.flatten()
    } else {
        one("$and"@, array_of(kept))
    }
}

/// The native filter that holds if one of `natives` does.
pub open spec fn disjunction(natives: Seq<Fields>) -> Fields {
    if natives.len() == 0 {
        never()
    } else if exists|i: int| 0 <= i < natives.len() && (#[trigger] natives[i]).len() == 0 {
        always()
    } else if natives.len() == 1 {
        natives[0]
    } else {
        one("$or"@, array_of(natives))
    }
}

/// The native filter that holds if none of `natives` does.
pub open spec fn rejection(natives: Seq<Fields>) -> Fields {
    if natives.len() == 0 {
        always()
    } else {
        one("$nor"@, array_of(natives))
    }
}

/// The native forms of the filters, on fields below the prefix.
pub open spec fn native_each(filters: Seq<Filter>, prefix: Option<Seq<char>>) -> Seq<Option<Fields>>
    decreases filters,
{
    Seq::new(
        filters.len(),
        |i: int|
            if 0 <= i < filters.len() {
                native(filters[i], prefix)
            } else {
                None
            },
    )
}

/// The native form of a filter on fields below the prefix, if it has one.
pub open spec fn native(filter: Filter, prefix: Option<Seq<char>>) -> Option<Fields>
    decreases filter,
{
    match filter {
        Filter::Scalar(sf) => scalar_native(sf, prefix),
        Filter::ScalarList(slf) => scalar_list_native(slf, prefix),
        Filter::And(filters) => match collected(native_each(filters@, prefix)) {
            Some(natives) => Some(conjunction(natives)),
            None => None,
        },
        Filter::Or(filters) => match collected(native_each(filters@, prefix)) {
            Some(natives) => Some(disjunction(natives)),
            None => None,
        },
        Filter::Not(filters) => match collected(native_each(filters@, prefix)) {
            Some(natives) => Some(rejection(natives)),
            None => None,
        },
        Filter::Composite(cf) => {
            let nested = path(prefix, cf.field.db_name@);
            match *cf.condition {
                CompositeCondition::Is(inner) => native(inner, Some(nested)),
                CompositeCondition::IsNot(inner) => match native(inner, Some(nested)) {
                    Some(n) => Some(rejection(seq![n])),
                    None => None,
                },
                CompositeCondition::IsSet(is_set) => Some(presence(nested, is_set)),
                CompositeCondition::Other(_) => None,
            }
        },
        Filter::Empty => Some(always()),
        Filter::Other(_) => None,
    }
}

/// Flattening takes the first documents and then the rest.
proof fn lemma_flatten_split<A>(s: Seq<Seq<A>>, n: int)
    requires
        0 <= n <= s.len(),
    ensures
        s.flatten() == s.take(n).flatten() + s.skip(n).flatten(),
    decreases n,
{
    if n == 0 {
        assert(s.take(0).flatten() =~= Seq::<A>::empty());
        assert(s.skip(0) =~= s);
    } else {
        lemma_flatten_split(s.drop_first(), n - 1);
        assert(s.take(n).drop_first() =~= s.drop_first().take(n - 1));
        assert(s.skip(n) =~= s.drop_first().skip(n - 1));
        assert(s.take(n).first() == s.first());
        assert(s.flatten() =~= s.take(n).flatten() + s.skip(n).flatten());
    }
}

/// One more document adds its fields at the end.
proof fn lemma_flatten_next<A>(s: Seq<Seq<A>>, n: int)
    requires
        0 <= n < s.len(),
    ensures
        s.take(n + 1).flatten() == s.take(n).flatten() + s[n],
{
    lemma_flatten_split(s.take(n + 1), n);
    assert(s.take(n + 1).take(n) =~= s.take(n));
    assert(s.take(n + 1).skip(n) =~= seq![s[n]]);
    seq![s[n]].lemma_flatten_one_element();
}

/// Setting new and distinct keys adds them at the end.
proof fn lemma_put_all_appends(fields: Fields, more: Fields)
    requires
        forall|i: int| 0 <= i < more.len() ==> !has_key(fields, (#[trigger] more[i]).0),
        forall|i: int, j: int|
            0 <= i < j < more.len() ==> (#[trigger] more[i]).0 != (#[trigger] more[j]).0,
    ensures
        put_all(fields, more) == fields + more,
    decreases more.len(),
{
    if more.len() > 0 {
        lemma_put_all_appends(fields, more.drop_last());
        let last = more.last();
        let so_far = fields + more.drop_last();
        assert(!has_key(so_far, last.0)) by {
            if has_key(so_far, last.0) {
                let i = choose|i: int| 0 <= i < so_far.len() && (#[trigger] so_far[i]).0 == last.0;
                if i < fields.len() {
                    assert(fields[i].0 == last.0);
                    assert(!has_key(fields, more[more.len() - 1].0));
                } else {
                    assert(more[i - fields.len()].0 == more[more.len() - 1].0);
                }
            }
        }
        assert(put_all(fields, more) =~= fields + more);
    } else {
        assert(fields + more =~= fields);
    }
}

/// Whether the documents can be merged into one: only if each has keys of its own, and none of
/// them is an operator.
pub fn can_flatten_native_and(natives: &Vec<Document>) -> (r: bool)
    ensures
        r == flattenable(fields_of_all(natives@)),
{
    let mut seen = StringHashSet::new();
    let ghost docs = fields_of_all(natives@);
    let ghost all = docs.flatten();

    for n in 0..natives.len()
        invariant
            docs == fields_of_all(natives@),
            all == docs.flatten(),
            forall|k: Seq<char>| #[trigger]
                seen@.contains(k) <==> has_key(docs.take(n as int).flatten(), k),
            flattenable(docs.take(n as int)),
    {
        let names = keys(&natives[n]);
        let ghost done = docs.take(n as int).flatten();
        let ghost current = docs[n as int];
        proof {
            lemma_flatten_split(docs, n + 1);
            lemma_flatten_next(docs, n as int);
        }
        for m in 0..names.len()
            invariant
                current == fields_of(natives@[n as int]),
                names@.len() == current.len(),
                forall|i: int| 0 <= i < names@.len() ==> (#[trigger] names@[i])@ == current[i].0,
                all == docs.flatten(),
                docs == fields_of_all(natives@),
                all == done + current + docs.skip(n + 1).flatten(),
                forall|k: Seq<char>| #[trigger]
                    seen@.contains(k) <==> has_key(done + current.take(m as int), k),
                forall|i: int|
                    0 <= i < done.len() + m ==> !is_operator((#[trigger] (done + current)[i]).0),
                forall|i: int, j: int|
                    0 <= i < j < done.len() + m ==> (#[trigger] (done + current)[i]).0 != (
                    #[trigger] (done + current)[j]).0,
        {
            let key = names[m].as_str();
            let ghost at = done.len() + m as int;
            assert(all[at] == current[m as int]);
            if key.unicode_len() > 0 && key.get_char(0) == '$' {
                assert(is_operator(all[at].0));
                return false;
            }
            if !seen.insert(key.to_owned()) {
                proof {
                    let before = done + current.take(m as int);
                    let i = choose|i: int|
                        0 <= i < before.len() && (#[trigger] before[i]).0 == key@;
                    assert(all[i].0 == all[at].0);
                }
                return false;
            }
            proof {
                let before = done + current.take(m as int);
                let after = done + current.take(m + 1);
                assert(after =~= before.push(current[m as int]));
                assert forall|k: Seq<char>| #[trigger] seen@.contains(k) <==> has_key(after, k) by {
                    if has_key(before, k) {
                        let i = choose|i: int|
                            0 <= i < before.len() && (#[trigger] before[i]).0 == k;
                        assert(after[i].0 == k);
                    }
                    if k == key@ {
                        assert(after[before.len() as int].0 == k);
                    }
                    if has_key(after, k) && k != key@ {
                        let i = choose|i: int| 0 <= i < after.len() && (#[trigger] after[i]).0 == k;
                        assert(before[i].0 == k);
                    }
                }
                assert forall|i: int, j: int| 0 <= i < j < done.len() + m + 1 implies (#[trigger] (
                done + current)[i]).0 != (#[trigger] (done + current)[j]).0 by {
                    if j == at {
                        assert(before[i] == (done + current)[i]);
                        assert(!has_key(before, key@));
                    }
                }
            }
        }
        assert(current.take(current.len() as int) =~= current);
    }
    assert(docs.take(natives@.len() as int) =~= docs);
    true
}

/// The filter that holds of every document.
pub fn native_true_filter() -> (d: Document)
    ensures
        fields_of(d) == always(),
{
    new_document()
}

/// The filter that holds of no document.
pub fn native_false_filter() -> (d: Document)
    ensures
        fields_of(d) == never(),
{
    let docs = vec![new_document()];
    assert(fields_of_all(docs@) =~= seq![always()]);
    single("$nor", documents(docs))
}

/// Merges documents that have no key in common.
fn merge(natives: Vec<Document>) -> (d: Document)
    requires
        flattenable(fields_of_all(natives@)),
    ensures
        fields_of(d) == fields_of_all(natives@).flatten(),
{
    let ghost docs = fields_of_all(natives@);
    let mut merged = new_document();
    for native in it: natives
        invariant
            it.seq() == natives@,
            docs == fields_of_all(natives@),
            flattenable(docs),
            fields_of(merged) == docs.take(it.index() as int).flatten(),
    {
        proof {
            let n = it.index() as int;
            let all = docs.flatten();
            let done = docs.take(n).flatten();
            lemma_flatten_split(docs, n + 1);
            lemma_flatten_next(docs, n);
            assert forall|i: int| 0 <= i < docs[n].len() implies !has_key(
                done,
                (#[trigger] docs[n][i]).0,
            ) by {
                assert(all[done.len() + i] == docs[n][i]);
                if has_key(done, docs[n][i].0) {
                    let j = choose|j: int|
                        0 <= j < done.len() && (#[trigger] done[j]).0 == docs[n][i].0;
                    assert(all[j] == done[j]);
                }
            }
            assert forall|i: int, j: int| 0 <= i < j < docs[n].len() implies (#[trigger] docs[n][i]).0
                != (#[trigger] docs[n][j]).0 by {
                assert(all[done.len() + i] == docs[n][i]);
                assert(all[done.len() + j] == docs[n][j]);
            }
            lemma_put_all_appends(done, docs[n]);
        }
        extend(&mut merged, native);
    }
    assert(docs.take(docs.len() as int) =~= docs);
    merged
}

/// The filter that holds if all of the given ones do.
fn conjoin(natives: Vec<Document>) -> (d: Document)
    ensures
        fields_of(d) == conjunction(fields_of_all(natives@)),
{
    let ghost docs = fields_of_all(natives@);
    let ghost not_empty = |d: Fields| d.len() > 0;
    let mut kept: Vec<Document> = Vec::new();
    proof {
        reveal(Seq::filter);
        assert(docs.take(0).filter(not_empty) =~= Seq::<Fields>::empty());
        assert(fields_of_all(kept@) =~= Seq::<Fields>::empty());
    }
    for native in it: natives
        invariant
            it.seq() == natives@,
            docs == fields_of_all(natives@),
            not_empty == (|d: Fields| d.len() > 0),
            fields_of_all(kept@) == docs.take(it.index() as int).filter(not_empty),
    {
        proof {
            reveal(Seq::filter);
            let n = it.index() as int;
            assert(docs.take(n + 1).drop_last() =~= docs.take(n));
            assert(docs.take(n + 1).last() == fields_of(native));
        }
        let ghost before = kept@;
        if !is_empty(&native) {
            kept.push(native);
            assert(fields_of_all(kept@) =~= fields_of_all(before).push(fields_of(native)));
        }
    }
    assert(docs.take(docs.len() as int) =~= docs);

    if kept.len() == 0 {
        return native_true_filter();
    }
    if kept.len() == 1 {
        assert(fields_of_all(kept@)[0] == fields_of(kept@[0]));
        return kept.remove(0);
    }
    if can_flatten_native_and(&kept) {
        merge(kept)
    } else {
        single("$and", documents(kept))
    }
}

/// Whether one of the documents has no field.
fn any_empty(natives: &Vec<Document>) -> (r: bool)
    ensures
        r == exists|i: int|
            0 <= i < natives@.len() && (#[trigger] fields_of_all(natives@)[i]).len() == 0,
{
    for n in 0..natives.len()
        invariant
            forall|i: int| 0 <= i < n ==> (#[trigger] fields_of_all(natives@)[i]).len() != 0,
    {
        if is_empty(&natives[n]) {
            assert(fields_of_all(natives@)[n as int].len() == 0);
            return true;
        }
    }
    false
}

/// The filter that holds if one of the given ones does.
fn disjoin(natives: Vec<Document>) -> (d: Document)
    ensures
        fields_of(d) == disjunction(fields_of_all(natives@)),
{
    let mut natives = natives;
    if natives.len() == 0 {
        return native_false_filter();
    }
    if any_empty(&natives) {
        return native_true_filter();
    }
    if natives.len() == 1 {
        assert(fields_of_all(natives@)[0] == fields_of(natives@[0]));
        return natives.remove(0);
    }
    single("$or", documents(natives))
}

/// The filter that holds if none of the given ones does.
fn reject(natives: Vec<Document>) -> (d: Document)
    ensures
        fields_of(d) == rejection(fields_of_all(natives@)),
{
    if natives.len() == 0 {
        return native_true_filter();
    }
    single("$nor", documents(natives))
}

/// Converts all of the filters.
fn try_all_to_native(filters: &Vec<Filter>, path_prefix: Option<&str>) -> (r: Option<Vec<Document>>)
    ensures
        match collected(native_each(filters@, chars_of(path_prefix))) {
            Some(natives) => r is Some && fields_of_all(r->0@) == natives,
            None => r is None,
        },
    decreases filters,
{
    let ghost results = native_each(filters@, chars_of(path_prefix));
    let mut natives: Vec<Document> = Vec::new();
    for n in 0..filters.len()
        invariant
            results == native_each(filters@, chars_of(path_prefix)),
            natives@.len() == n,
            forall|i: int|
                0 <= i < n ==> (#[trigger] results[i]) == Some(fields_of(natives@[i])),
    {
        let native = try_to_native_filter_with_prefix(&filters[n], path_prefix);
        assert(results[n as int] == fields_of_opt(native));
        match native {
            Some(d) => natives.push(d),
            None => return None,
        }
    }
    assert(collected(results)->0 =~= fields_of_all(natives@));
    Some(natives)
}

/// Converts a filter on fields below a prefix to native query syntax.
pub fn try_to_native_filter_with_prefix(filter: &Filter, path_prefix: Option<&str>) -> (r: Option<
    Document,
>)
    ensures
        fields_of_opt(r) == native(*filter, chars_of(path_prefix)),
    decreases filter,
{
    match filter {
        Filter::Scalar(sf) => try_scalar_to_native(sf, path_prefix),
        Filter::ScalarList(slf) => try_scalar_list_to_native(slf, path_prefix),
        Filter::And(filters) => {
            let natives = try_all_to_native(filters, path_prefix)?;
            Some(conjoin(natives))
        },
        Filter::Or(filters) => {
            let natives = try_all_to_native(filters, path_prefix)?;
            Some(disjoin(natives))
        },
        Filter::Not(filters) => {
            let natives = try_all_to_native(filters, path_prefix)?;
            Some(reject(natives))
        },
        Filter::Composite(cf) => {
            let nested_prefix = join_field_path(path_prefix, cf.field.db_name.as_str());
            match &*cf.condition {
                CompositeCondition::Is(inner) => try_to_native_filter_with_prefix(
                    inner,
                    Some(nested_prefix.as_str()),
                ),
                CompositeCondition::IsNot(inner) => {
                    let nested = try_to_native_filter_with_prefix(
                        inner,
                        Some(nested_prefix.as_str()),
                    )?;
                    let natives = vec![nested];
                    assert(fields_of_all(natives@) =~= seq![fields_of(nested)]);
                    Some(reject(natives))
                },
                CompositeCondition::IsSet(is_set) => Some(
                    existence(nested_prefix.as_str(), *is_set),
                ),
                CompositeCondition::Other(_) => None,
            }
        },
        Filter::Empty => Some(native_true_filter()),
        Filter::Other(_) => None,
    }
}

/// Converts a filter to native query syntax.
pub fn try_to_native_filter(filter: &Filter) -> (r: Option<Document>)
    ensures
        fields_of_opt(r) == native(*filter, None),
{
    try_to_native_filter_with_prefix(filter, None)
}

/// Converts a filter to native query syntax, for write queries that share the translation of the
/// read queries.
pub fn try_filter_to_native_mql(filter: &Filter) -> (r: Option<Document>)
    ensures
        fields_of_opt(r) == native(*filter, None),
{
    try_to_native_filter(filter)
}

} // verus!
