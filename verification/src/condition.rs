//! Conditions on single fields in the native query syntax of MongoDB.
use crate::document::{
    array, array_of, boolean, documents, embedded, fields_of, fields_of_all, fields_of_opt,
    insert, int32, null, one, single, text, value_of, Fields, Value,
};
use crate::filter::{
    ConditionListValue, ConditionValue, PrismaValue, QueryMode, ScalarCondition, ScalarFilter,
    ScalarListCondition, ScalarListFilter, ScalarProjection,
};
use crate::pattern::{escape, escaped};
use bson::{Bson, Document};
use vstd::prelude::*;

verus! {

/// The path of a field below a prefix.
pub open spec fn path(prefix: Option<Seq<char>>, name: Seq<char>) -> Seq<char> {
    match prefix {
        Some(p) if p.len() > 0 => p + "."@ + name,
        _ => name,
    }
}

/// The characters of a string, where there is one.
pub open spec fn chars_of(s: Option<&str>) -> Option<Seq<char>> {
    match s {
        Some(s) => Some(s@),
        None => None,
    }
}

/// `{ name: { operator: operand } }`
pub open spec fn op(name: Seq<char>, operator: Seq<char>, operand: Value) -> Fields {
    one(name, Value::Doc(one(operator, operand)))
}

/// `{ name: { $exists: set } }`
pub open spec fn presence(name: Seq<char>, set: bool) -> Fields {
    op(name, "$exists"@, Value::Boolean(set))
}

/// `{ $and: [{ name: { $exists: true } }, { name: value }] }`: the condition on a field that is
/// set. MongoDB's negative operators, and its comparison with null, hold of a missing field as
/// well.
pub open spec fn guarded(name: Seq<char>, value: Value) -> Fields {
    one("$and"@, array_of(seq![presence(name, true), one(name, value)]))
}

/// `{ $regex: pattern }`, with the option that ignores case if asked for.
pub open spec fn regex_filter(pattern: Seq<char>, insensitive: bool) -> Fields {
    if insensitive {
        seq![("$regex"@, Value::Text(pattern)), ("$options"@, Value::Text("i"@))]
    } else {
        one("$regex"@, Value::Text(pattern))
    }
}

/// The regular expression for strings that hold `literal`: anywhere, or only at their start, only
/// at their end or only as a whole.
pub open spec fn anchored(literal: Seq<char>, start: bool, end: bool) -> Seq<char> {
    let head = if start {
        "^"@
    } else {
        Seq::<char>::empty()
    };
    let tail = if end {
        "$"@
    } else {
        Seq::<char>::empty()
    };
    head + escaped(literal) + tail
}

/// The regular expression filter for strings that hold the operand, which has to be a string.
pub open spec fn literal(
    operand: PrismaValue,
    start: bool,
    end: bool,
    insensitive: bool,
) -> Option<Value> {
    match operand.string() {
        Some(s) => Some(Value::Doc(regex_filter(anchored(s, start, end), insensitive))),
        None => None,
    }
}

/// The encodings of all operands, if each has one.
pub open spec fn encoded_all(operands: Seq<PrismaValue>) -> Option<Seq<Value>> {
    if forall|i: int| 0 <= i < operands.len() ==> (#[trigger] operands[i]).encoded() is Some {
        Some(Seq::new(operands.len(), |i: int| operands[i].encoded()->0))
    } else {
        None
    }
}

/// Whether null is among the operands.
pub open spec fn holds_null(operands: Seq<PrismaValue>) -> bool {
    exists|i: int| 0 <= i < operands.len() && (#[trigger] operands[i]) is Null
}

/// `{ operator: encoding }`. Case only matters to a string comparison.
pub open spec fn compared(
    operator: Seq<char>,
    operand: PrismaValue,
    insensitive: bool,
) -> Option<Value> {
    match operand.encoded() {
        Some(v) if !insensitive => Some(Value::Doc(one(operator, v))),
        _ => None,
    }
}

/// `{ operator: [encoding, ...] }`
pub open spec fn compared_all(operator: Seq<char>, operands: Seq<PrismaValue>) -> Option<Value> {
    match encoded_all(operands) {
        Some(vs) => Some(Value::Doc(one(operator, Value::Array(vs)))),
        None => None,
    }
}

/// `{ $not: value }`
pub open spec fn negated(value: Option<Value>) -> Option<Value> {
    match value {
        Some(v) => Some(Value::Doc(one("$not"@, v))),
        None => None,
    }
}

/// The operand list of `$in` and `$nin`. Null in it would hold of missing fields.
pub open spec fn membership(
    operator: Seq<char>,
    operands: Seq<PrismaValue>,
    insensitive: bool,
) -> Option<Value> {
    if insensitive || holds_null(operands) {
        None
    } else {
        compared_all(operator, operands)
    }
}

/// What a condition asks of the value of a field in native syntax, if it can be said there.
pub open spec fn native_test(condition: ScalarCondition, insensitive: bool) -> Option<Value> {
    match condition {
        ScalarCondition::Equals(ConditionValue::Value(v)) => if v is Null {
            Some(Value::Null)
        } else if insensitive {
            literal(v, true, true, true)
        } else {
            v.encoded()
        },
        ScalarCondition::NotEquals(ConditionValue::Value(v)) => if v is Null {
            Some(Value::Doc(one("$ne"@, Value::Null)))
        } else if insensitive {
            negated(literal(v, true, true, true))
        } else {
            compared("$ne"@, v, false)
        },
        ScalarCondition::LessThan(ConditionValue::Value(v)) => compared("$lt"@, v, insensitive),
        ScalarCondition::LessThanOrEquals(ConditionValue::Value(v)) => compared(
            "$lte"@,
            v,
            insensitive,
        ),
        ScalarCondition::GreaterThan(ConditionValue::Value(v)) => compared("$gt"@, v, insensitive),
        ScalarCondition::GreaterThanOrEquals(ConditionValue::Value(v)) => compared(
            "$gte"@,
            v,
            insensitive,
        ),
        ScalarCondition::In(ConditionListValue::List(vs)) => membership("$in"@, vs@, insensitive),
        ScalarCondition::NotIn(ConditionListValue::List(vs)) => membership(
            "$nin"@,
            vs@,
            insensitive,
        ),
        ScalarCondition::StartsWith(ConditionValue::Value(v)) => literal(
            v,
            true,
            false,
            insensitive,
        ),
        ScalarCondition::EndsWith(ConditionValue::Value(v)) => literal(v, false, true, insensitive),
        ScalarCondition::Contains(ConditionValue::Value(v)) => literal(
            v,
            false,
            false,
            insensitive,
        ),
        ScalarCondition::NotStartsWith(ConditionValue::Value(v)) => negated(
            literal(v, true, false, insensitive),
        ),
        ScalarCondition::NotEndsWith(ConditionValue::Value(v)) => negated(
            literal(v, false, true, insensitive),
        ),
        ScalarCondition::NotContains(ConditionValue::Value(v)) => negated(
            literal(v, false, false, insensitive),
        ),
        ScalarCondition::IsSet(set) => Some(Value::Doc(one("$exists"@, Value::Boolean(set)))),
        _ => None,
    }
}

/// Whether the native form of a condition would hold of a missing field, where the condition
/// itself does not.
pub open spec fn needs_guard(condition: ScalarCondition) -> bool {
    match condition {
        ScalarCondition::Equals(ConditionValue::Value(v)) => v is Null,
        ScalarCondition::NotEquals(_)
        | ScalarCondition::NotIn(_)
        | ScalarCondition::NotStartsWith(_)
        | ScalarCondition::NotEndsWith(_)
        | ScalarCondition::NotContains(_) => true,
        _ => false,
    }
}

/// A condition on one field in native syntax.
pub open spec fn condition_native(
    name: Seq<char>,
    condition: ScalarCondition,
    insensitive: bool,
) -> Option<Fields> {
    match native_test(condition, insensitive) {
        Some(test) if needs_guard(condition) => Some(guarded(name, test)),
        Some(test) => Some(one(name, test)),
        None => None,
    }
}

/// A scalar filter in native syntax: only one on a single field, and in a known mode.
pub open spec fn scalar_native(sf: ScalarFilter, prefix: Option<Seq<char>>) -> Option<Fields> {
    match (sf.projection, sf.mode) {
        (ScalarProjection::Single(field), QueryMode::Default) => condition_native(
            path(prefix, field.db_name@),
            sf.condition,
            false,
        ),
        (ScalarProjection::Single(field), QueryMode::Insensitive) => condition_native(
            path(prefix, field.db_name@),
            sf.condition,
            true,
        ),
        _ => None,
    }
}

/// A filter on a list field in native syntax.
pub open spec fn scalar_list_native(
    slf: ScalarListFilter,
    prefix: Option<Seq<char>>,
) -> Option<Fields> {
    let name = path(prefix, slf.field.db_name@);
    match slf.condition {
        ScalarListCondition::Contains(ConditionValue::Value(v)) => match v.encoded() {
            Some(v) => Some(one(name, v)),
            None => None,
        },
        ScalarListCondition::ContainsSome(ConditionListValue::List(vs)) if vs@.len() > 0 =>
            match compared_all("$in"@, vs@) {
                Some(test) => Some(one(name, test)),
                None => None,
            },
        ScalarListCondition::ContainsEvery(ConditionListValue::List(vs)) if vs@.len() > 0 =>
            match compared_all("$all"@, vs@) {
                Some(test) => Some(one(name, test)),
                None => None,
            },
        ScalarListCondition::IsEmpty(true) => Some(op(name, "$size"@, Value::Int32(0))),
        ScalarListCondition::IsEmpty(false) => Some(presence(name + ".0"@, true)),
        _ => None,
    }
}

/// The path of the field `field_name` below `path_prefix`.
pub fn join_field_path(path_prefix: Option<&str>, field_name: &str) -> (r: String)
    ensures
        r@ == path(chars_of(path_prefix), field_name@),
{
    match path_prefix {
        Some(prefix) if !prefix.is_empty() => { prefix.to_owned().concat(".").concat(field_name) },
        _ => field_name.to_owned(),
    }
}

/// The filter for strings that match a regular expression.
pub fn regex_filter_doc(pattern: String, insensitive: bool) -> (d: Document)
    ensures
        fields_of(d) == regex_filter(pattern@, insensitive),
{
    let mut d = single("$regex", text(pattern));
    if insensitive {
        proof {
            reveal_strlit("$regex");
            reveal_strlit("$options");
            assert("$regex"@.len() != "$options"@.len());
        }
        insert(&mut d, "$options".to_owned(), text("i".to_owned()));
    }
    d
}

/// `{ name: { operator: operand } }`
fn operation(name: &str, operator: &str, operand: Bson) -> (d: Document)
    ensures
        fields_of(d) == op(name@, operator@, value_of(operand)),
{
    single(name, embedded(single(operator, operand)))
}

/// `{ name: { $exists: set } }`
pub(crate) fn existence(name: &str, set: bool) -> (d: Document)
    ensures
        fields_of(d) == presence(name@, set),
{
    operation(name, "$exists", boolean(set))
}

/// `{ $and: [{ name: { $exists: true } }, { name: value }] }`
fn guard(name: &str, value: Bson) -> (d: Document)
    ensures
        fields_of(d) == guarded(name@, value_of(value)),
{
    let both = vec![existence(name, true), single(name, value)];
    let d = single("$and", documents(both));
    assert(fields_of_all(both@) =~= seq![
        presence(name@, true),
        one(name@, value_of(value)),
    ]);
    d
}

/// The regular expression filter for strings that hold the operand.
fn literal_test(operand: &PrismaValue, start: bool, end: bool, insensitive: bool) -> (r: Option<
    Bson,
>)
    ensures
        r is Some <==> literal(*operand, start, end, insensitive) is Some,
        r matches Some(b) ==> literal(*operand, start, end, insensitive) == Some(value_of(b)),
{
    let s = operand.as_string()?;
    let mut pattern = String::new();
    if start {
        pattern.append("^");
    }
    pattern.append(escape(s).as_str());
    if end {
        pattern.append("$");
    }
    assert(pattern@ =~= anchored(s@, start, end));
    Some(embedded(regex_filter_doc(pattern, insensitive)))
}

/// The encodings of all operands.
fn encode_all(operands: &Vec<PrismaValue>) -> (r: Option<Vec<Bson>>)
    ensures
        r is Some <==> encoded_all(operands@) is Some,
        r matches Some(bs) ==> encoded_all(operands@) == Some(
            bs@.map_values(|b: Bson| value_of(b)),
        ),
{
    let mut bs: Vec<Bson> = Vec::new();
    for i in 0..operands.len()
        invariant
            bs@.len() == i,
            forall|j: int|
                0 <= j < i ==> (#[trigger] operands@[j]).encoded() == Some(value_of(bs@[j])),
    {
        let b = operands[i].to_bson()?;
        bs.push(b);
    }
    assert(encoded_all(operands@)->0 =~= bs@.map_values(|b: Bson| value_of(b)));
    Some(bs)
}

/// Whether null is among the operands.
fn any_null(operands: &Vec<PrismaValue>) -> (r: bool)
    ensures
        r == holds_null(operands@),
{
    for i in 0..operands.len()
        invariant
            forall|j: int| 0 <= j < i ==> !((#[trigger] operands@[j]) is Null),
    {
        if matches!(operands[i], PrismaValue::Null { .. }) {
            return true;
        }
    }
    false
}

/// `{ name: { operator: encoding } }`, for a comparison in which case plays no part.
fn try_comparison(name: &str, operator: &str, operand: &PrismaValue, insensitive: bool) -> (r:
    Option<Document>)
    ensures
        fields_of_opt(r) == (match compared(operator@, *operand, insensitive) {
            Some(test) => Some(one(name@, test)),
            None => None,
        }),
{
    if insensitive {
        return None;
    }
    let v = operand.to_bson()?;
    Some(operation(name, operator, v))
}

/// `{ operator: [encoding, ...] }`
fn try_list_test(operator: &str, operands: &Vec<PrismaValue>) -> (r: Option<Bson>)
    ensures
        r is Some <==> compared_all(operator@, operands@) is Some,
        r matches Some(b) ==> compared_all(operator@, operands@) == Some(value_of(b)),
{
    let vs = encode_all(operands)?;
    Some(embedded(single(operator, array(vs))))
}

/// `{ $not: test }`
fn negation(test: Bson) -> (b: Bson)
    ensures
        negated(Some(value_of(test))) == Some(value_of(b)),
{
    embedded(single("$not", test))
}

/// Converts a filter on a scalar to native query syntax.
///
/// Handles equality, comparisons, membership, string operations and whether a field is set. There
/// is no native form of conditions that refer to another field, of filters on several fields at
/// once and of other kinds of conditions.
pub fn try_scalar_to_native(sf: &ScalarFilter, path_prefix: Option<&str>) -> (r: Option<Document>)
    ensures
        fields_of_opt(r) == scalar_native(*sf, chars_of(path_prefix)),
{
    let field = match &sf.projection {
        ScalarProjection::Single(f) => f,
        ScalarProjection::Compound(_) => return None,
    };
    let joined = join_field_path(path_prefix, field.db_name.as_str());
    let name = joined.as_str();
    let insensitive = match sf.mode {
        QueryMode::Default => false,
        QueryMode::Insensitive => true,
        QueryMode::Other(_) => return None,
    };

    match &sf.condition {
        ScalarCondition::Equals(ConditionValue::Value(pv)) => {
            if matches!(pv, PrismaValue::Null { .. }) {
                // Null is not the same as missing, which `{ field: null }` would match too.
                return Some(guard(name, null()));
            }
            if insensitive {
                let test = literal_test(pv, true, true, true)?;
                return Some(single(name, test));
            }
            let v = pv.to_bson()?;
            Some(single(name, v))
        },
        ScalarCondition::NotEquals(ConditionValue::Value(pv)) => {
            if matches!(pv, PrismaValue::Null { .. }) {
                return Some(guard(name, embedded(single("$ne", null()))));
            }
            if insensitive {
                let test = literal_test(pv, true, true, true)?;
                return Some(guard(name, negation(test)));
            }
            let v = pv.to_bson()?;
            Some(guard(name, embedded(single("$ne", v))))
        },
        ScalarCondition::LessThan(ConditionValue::Value(pv)) => try_comparison(
            name,
            "$lt",
            pv,
            insensitive,
        ),
        ScalarCondition::LessThanOrEquals(ConditionValue::Value(pv)) => try_comparison(
            name,
            "$lte",
            pv,
            insensitive,
        ),
        ScalarCondition::GreaterThan(ConditionValue::Value(pv)) => try_comparison(
            name,
            "$gt",
            pv,
            insensitive,
        ),
        ScalarCondition::GreaterThanOrEquals(ConditionValue::Value(pv)) => try_comparison(
            name,
            "$gte",
            pv,
            insensitive,
        ),
        ScalarCondition::In(ConditionListValue::List(vals)) => {
            if insensitive || any_null(vals) {
                return None;
            }
            let test = try_list_test("$in", vals)?;
            Some(single(name, test))
        },
        ScalarCondition::NotIn(ConditionListValue::List(vals)) => {
            if insensitive || any_null(vals) {
                return None;
            }
            let test = try_list_test("$nin", vals)?;
            Some(guard(name, test))
        },
        ScalarCondition::StartsWith(ConditionValue::Value(pv)) => {
            let test = literal_test(pv, true, false, insensitive)?;
            Some(single(name, test))
        },
        ScalarCondition::EndsWith(ConditionValue::Value(pv)) => {
            let test = literal_test(pv, false, true, insensitive)?;
            Some(single(name, test))
        },
        ScalarCondition::Contains(ConditionValue::Value(pv)) => {
            let test = literal_test(pv, false, false, insensitive)?;
            Some(single(name, test))
        },
        ScalarCondition::NotStartsWith(ConditionValue::Value(pv)) => {
            let test = literal_test(pv, true, false, insensitive)?;
            Some(guard(name, negation(test)))
        },
        ScalarCondition::NotEndsWith(ConditionValue::Value(pv)) => {
            let test = literal_test(pv, false, true, insensitive)?;
            Some(guard(name, negation(test)))
        },
        ScalarCondition::NotContains(ConditionValue::Value(pv)) => {
            let test = literal_test(pv, false, false, insensitive)?;
            Some(guard(name, negation(test)))
        },
        ScalarCondition::IsSet(is_set) => Some(existence(name, *is_set)),
        _ => None,
    }
}

/// Converts a filter on a list field to native query syntax.
///
/// Handles that the list holds a value, some of several values or all of them, and that it is
/// empty or not.
pub fn try_scalar_list_to_native(slf: &ScalarListFilter, path_prefix: Option<&str>) -> (r: Option<
    Document,
>)
    ensures
        fields_of_opt(r) == scalar_list_native(*slf, chars_of(path_prefix)),
{
    let joined = join_field_path(path_prefix, slf.field.db_name.as_str());
    let name = joined.as_str();

    match &slf.condition {
        ScalarListCondition::Contains(ConditionValue::Value(pv)) => {
            // MongoDB matches if the array holds the element.
            let v = pv.to_bson()?;
            Some(single(name, v))
        },
        ScalarListCondition::ContainsSome(ConditionListValue::List(vals)) if vals.len() > 0 => {
            let test = try_list_test("$in", vals)?;
            Some(single(name, test))
        },
        ScalarListCondition::ContainsEvery(ConditionListValue::List(vals)) if vals.len() > 0 => {
            let test = try_list_test("$all", vals)?;
            Some(single(name, test))
        },
        ScalarListCondition::IsEmpty(true) => Some(operation(name, "$size", int32(0))),
        ScalarListCondition::IsEmpty(false) => {
            // A list is not empty if it has a first element.
            let first = joined.clone().concat(".0");
            Some(existence(first.as_str(), true))
        },
        _ => None,
    }
}

} // verus!
