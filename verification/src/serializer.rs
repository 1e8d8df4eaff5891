//! CSS serialization of identifiers and strings.

use vstd::prelude::*;

verus! {

/// The text that a name is written as where CSS expects an identifier, with what
/// cannot stand there as it is escaped: what `cssparser::serialize_identifier` writes.
pub uninterp spec fn css_identifier(value: Seq<char>) -> Seq<char>;

/// The text that a value is written as where CSS expects a string: in double quotes,
/// with quotes, backslashes and control characters escaped: what
/// `cssparser::serialize_string` writes.
pub uninterp spec fn css_string(value: Seq<char>) -> Seq<char>;

/// `cssparser::serialize_identifier`: appends `value` to `dest` as a CSS identifier.
/// The text appended depends on `value` alone.
#[verifier::external_body]
pub(crate) fn serialize_identifier(value: &str, dest: &mut String)
    ensures
        final(dest)@ == old(dest)@ + css_identifier(value@),
{
    let _ = cssparser::serialize_identifier(value, dest);
}

/// `cssparser::serialize_string`: appends `value` to `dest` as a double-quoted CSS
/// string. The text appended depends on `value` alone.
#[verifier::external_body]
pub(crate) fn serialize_string(value: &str, dest: &mut String)
    ensures
        final(dest)@ == old(dest)@ + css_string(value@),
{
    let _ = cssparser::serialize_string(value, dest);
}

} // verus!
