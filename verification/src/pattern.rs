//! Regular expressions that match a given text literally.
use vstd::prelude::*;

verus! {

/// Whether the character has a meaning of its own in a regular expression.
pub open spec fn is_meta(c: char) -> bool {
    seq![
        '\\', '.', '+', '*', '?', '(', ')', '|', '[', ']', '{', '}', '^', '$', '#', '&', '-', '~',
    ].contains(c)
}

/// `text` with a backslash before each character that has a meaning of its own.
pub open spec fn escaped(text: Seq<char>) -> Seq<char>
    decreases text.len(),
{
    if text.len() == 0 {
        text
    } else if is_meta(text.last()) {
        escaped(text.drop_last()).push('\\').push(text.last())
    } else {
        escaped(text.drop_last()).push(text.last())
    }
}

/// `regex::escape`: the text with each of its meta characters escaped by a backslash.
#[verifier::external_body]
pub(crate) fn escape(text: &str) -> (r: String)
    ensures
        r@ == escaped(text@),
{
    regex::escape(text)
}

} // verus!
