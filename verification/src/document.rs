//! BSON values and documents: what they hold, and how documents are put together.
use bson::{Bson, Document};
use vstd::prelude::*;

verus! {

/// A BSON value of the `bson` crate. [`value_of`] says what it holds.
#[verifier::external_type_specification]
#[verifier::external_body]
pub struct ExBson(bson::Bson);

/// A BSON document of the `bson` crate. [`fields_of`] says what it holds.
#[verifier::external_type_specification]
#[verifier::external_body]
pub struct ExDocument(bson::Document);

/// What a BSON value holds. A document keeps its fields in order.
pub enum Value {
    Null,
    Boolean(bool),
    Int32(i32),
    Int64(i64),
    Text(Seq<char>),
    Array(Seq<Value>),
    Doc(Seq<(Seq<char>, Value)>),
    /// A value of any other BSON type, told apart by its encoding.
    Other(Seq<u8>),
}

/// The fields of a document, in order.
pub type Fields = Seq<(Seq<char>, Value)>;

/// What a `bson::Bson` holds.
pub uninterp spec fn value_of(b: Bson) -> Value;

/// The fields that a `bson::Document` holds, in order.
pub uninterp spec fn fields_of(d: Document) -> Seq<(Seq<char>, Value)>;

/// What each document of a list holds.
pub open spec fn fields_of_all(ds: Seq<Document>) -> Seq<Fields> {
    ds.map_values(|d: Document| fields_of(d))
}

/// What a document holds, where there is one.
pub open spec fn fields_of_opt(d: Option<Document>) -> Option<Fields> {
    match d {
        Some(d) => Some(fields_of(d)),
        None => None,
    }
}

/// Whether a field of that name is among `fields`.
pub open spec fn has_key(fields: Fields, key: Seq<char>) -> bool {
    exists|i: int| 0 <= i < fields.len() && #[trigger] fields[i].0 == key
}

/// `fields` with `key` set to `value`: in place where the key is present, else at the end.
pub open spec fn put(fields: Fields, key: Seq<char>, value: Value) -> Fields {
    if has_key(fields, key) {
        Seq::new(
            fields.len(),
            |i: int|
                if fields[i].0 == key {
                    (key, value)
                } else {
                    fields[i]
                },
        )
    } else {
        fields.push((key, value))
    }
}

/// `fields` with all of `more` set, one after the other.
pub open spec fn put_all(fields: Fields, more: Fields) -> Fields
    decreases more.len(),
{
    if more.len() == 0 {
        fields
    } else {
        put(put_all(fields, more.drop_last()), more.last().0, more.last().1)
    }
}

/// A document with a single field.
pub open spec fn one(key: Seq<char>, value: Value) -> Fields {
    seq![(key, value)]
}

/// Documents as the elements of an array.
pub open spec fn array_of(docs: Seq<Fields>) -> Value {
    Value::Array(docs.map_values(|d: Fields| Value::Doc(d)))
}

/// `Bson::Null`: the null value.
#[verifier::external_body]
pub(crate) fn null() -> (b: Bson)
    ensures
        value_of(b) == Value::Null,
{
    Bson::Null
}

/// `Bson::Boolean`: the value that holds the given truth value.
#[verifier::external_body]
pub(crate) fn boolean(v: bool) -> (b: Bson)
    ensures
        value_of(b) == Value::Boolean(v),
{
    Bson::Boolean(v)
}

/// `Bson::Int32`: the value that holds the given 32-bit integer.
#[verifier::external_body]
pub(crate) fn int32(v: i32) -> (b: Bson)
    ensures
        value_of(b) == Value::Int32(v),
{
    Bson::Int32(v)
}

/// `Bson::Int64`: the value that holds the given 64-bit integer.
#[verifier::external_body]
pub(crate) fn int64(v: i64) -> (b: Bson)
    ensures
        value_of(b) == Value::Int64(v),
{
    Bson::Int64(v)
}

/// `Bson::String`: the value that holds the given text.
#[verifier::external_body]
pub(crate) fn text(v: String) -> (b: Bson)
    ensures
        value_of(b) == Value::Text(v@),
{
    Bson::String(v)
}

/// `Bson::Array`: the value that holds the given elements, in order.
#[verifier::external_body]
pub(crate) fn array(v: Vec<Bson>) -> (b: Bson)
    ensures
        value_of(b) == Value::Array(v@.map_values(|e: Bson| value_of(e))),
{
    Bson::Array(v)
}

/// `Bson::Document`: the value that holds the given document.
#[verifier::external_body]
pub(crate) fn embedded(d: Document) -> (b: Bson)
    ensures
        value_of(b) == Value::Doc(fields_of(d)),
{
    Bson::Document(d)
}

/// `Bson::clone`: a value that holds the same.
#[verifier::external_body]
pub(crate) fn clone_bson(b: &Bson) -> (r: Bson)
    ensures
        value_of(r) == value_of(*b),
{
    b.clone()
}

/// `Document::new`: a document without fields.
#[verifier::external_body]
pub(crate) fn new_document() -> (d: Document)
    ensures
        fields_of(d) == Seq::<(Seq<char>, Value)>::empty(),
{
    Document::new()
}

/// `Document::clone`: a document with the same fields in the same order.
#[verifier::external_body]
pub(crate) fn clone_document(d: &Document) -> (r: Document)
    ensures
        fields_of(r) == fields_of(*d),
{
    d.clone()
}

/// `Document::insert`: sets one field. A key that is present keeps its place and takes the new
/// value, a new one goes last. The value that it had before is dropped.
#[verifier::external_body]
pub(crate) fn insert(d: &mut Document, key: String, value: Bson)
    ensures
        fields_of(*final(d)) == put(fields_of(*old(d)), key@, value_of(value)),
{
    d.insert(key, value);
}

/// `Document::extend`: inserts the fields of another document, one after the other in their order.
#[verifier::external_body]
pub(crate) fn extend(d: &mut Document, more: Document)
    ensures
        fields_of(*final(d)) == put_all(fields_of(*old(d)), fields_of(more)),
{
    d.extend(more);
}

/// `Document::is_empty`: whether the document has no field.
#[verifier::external_body]
pub(crate) fn is_empty(d: &Document) -> (r: bool)
    ensures
        r == (fields_of(*d).len() == 0),
{
    d.is_empty()
}

/// `Document::keys`: the names of the fields, in order.
#[verifier::external_body]
pub(crate) fn keys(d: &Document) -> (r: Vec<String>)
    ensures
        r@.len() == fields_of(*d).len(),
        forall|i: int| 0 <= i < r@.len() ==> (#[trigger] r@[i])@ == fields_of(*d)[i].0,
{
    d.keys().cloned().collect()
}

/// The document with a single field.
pub(crate) fn single(key: &str, value: Bson) -> (d: Document)
    ensures
        fields_of(d) == one(key@, value_of(value)),
{
    let mut d = new_document();
    insert(&mut d, key.to_owned(), value);
    d
}

/// The array of the given documents.
pub(crate) fn documents(docs: Vec<Document>) -> (b: Bson)
    ensures
        value_of(b) == array_of(fields_of_all(docs@)),
{
    let mut elements: Vec<Bson> = Vec::new();
    for d in it: docs
        invariant
            elements@.len() == it.index(),
            it.seq() == docs@,
            forall|i: int|
                0 <= i < elements@.len() ==> value_of(#[trigger] elements@[i]) == Value::Doc(
                    fields_of(docs@[i]),
                ),
    {
        elements.push(embedded(d));
    }
    let b = array(elements);
    assert(elements@.map_values(|e: Bson| value_of(e)) =~= fields_of_all(docs@).map_values(
        |d: Fields| Value::Doc(d),
    ));
    b
}

/// Copies of the given documents, in order.
pub(crate) fn clone_documents(docs: &Vec<Document>) -> (r: Vec<Document>)
    ensures
        fields_of_all(r@) == fields_of_all(docs@),
{
    let mut r: Vec<Document> = Vec::new();
    for i in 0..docs.len()
        invariant
            r@.len() == i,
            forall|j: int| 0 <= j < i ==> fields_of(#[trigger] r@[j]) == fields_of(docs@[j]),
    {
        r.push(clone_document(&docs[i]));
    }
    assert(fields_of_all(r@) =~= fields_of_all(docs@));
    r
}

} // verus!
