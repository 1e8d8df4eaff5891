//! The `@namespace` rule.

use crate::error::Location;
use crate::printer::{with_place, with_text, Output, Printer};
use crate::serializer::{css_identifier, css_string, serialize_identifier, serialize_string};
use vstd::prelude::*;
use vstd::string::*;

verus! {

/// A `@namespace` rule.
#[derive(Debug)]
pub struct NamespaceRule {
    /// An optional namespace prefix to declare, or `None` to declare the default namespace.
    pub prefix: Option<String>,
    /// The url of the namespace.
    pub url: String,
    /// The location of the rule in the source file.
    pub loc: Location,
}

/// The text of a `@namespace` rule: the keyword, the prefix as an identifier where
/// there is one, the url as a string, and a semicolon.
pub open spec fn namespace_text(rule: NamespaceRule) -> Seq<char> {
    "@namespace "@ + (match rule.prefix {
        Some(prefix) => css_identifier(prefix@) + " "@,
        None => Seq::empty(),
    }) + css_string(rule.url@) + ";"@
}

/// The output after a `@namespace` rule was printed: its place is recorded, and its
/// text follows.
pub open spec fn printed_namespace(out: Output, rule: NamespaceRule) -> Output {
    with_text(with_place(out, rule.loc), namespace_text(rule))
}

impl NamespaceRule {
    /// Serializes the rule.
    pub fn to_css(&self, dest: &mut Printer)
        ensures
            final(dest).output() == printed_namespace(old(dest).output(), *self),
            final(dest).css_module == old(dest).css_module,
            final(dest).same_config(old(dest)),
    {
        let ghost start = dest.text();
        dest.add_mapping(self.loc);
        dest.write_str("@namespace ");
        if let Some(prefix) = &self.prefix {
            serialize_identifier(prefix.as_str(), &mut dest.dest);
            dest.write_str(" ");
        }
        serialize_string(self.url.as_str(), &mut dest.dest);
        dest.write_str(";");
        assert(dest.text() =~= start + namespace_text(*self));
    }
}

} // verus!
