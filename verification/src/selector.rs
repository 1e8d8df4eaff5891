//! Selectors, as far as scoping and printing read them.

use crate::css_modules::scope::ExportMap;
use crate::printer::{ident_exports, ident_text, Printer, Scope};
use crate::serializer::{css_identifier, serialize_identifier};
use vstd::prelude::*;
use vstd::string::*;

verus! {

/// How two compound selectors are combined.
#[derive(Clone, Copy, Debug, PartialEq, Eq, Structural)]
pub enum Combinator {
    /// `a > b`
    Child,
    /// `a b`
    Descendant,
    /// `a + b`
    NextSibling,
    /// `a ~ b`
    LaterSibling,
}

/// One component of a selector.
#[derive(Debug)]
pub enum Component {
    /// A class selector, `.name`.
    Class(String),
    /// An id selector, `#name`.
    Id(String),
    /// A type selector, `name`.
    LocalName(String),
    /// The universal selector, `*`.
    Universal,
    /// A combinator between two compound selectors.
    Combinator(Combinator),
    /// Any other component, kept as the text it is written as.
    Other(String),
}

/// A complex selector: its components in source order.
#[derive(Debug)]
pub struct Selector {
    /// The components, first to last.
    pub components: Vec<Component>,
}

/// A list of selectors, as it stands before the block of a style rule.
#[derive(Debug)]
pub struct SelectorList(pub Vec<Selector>);

/// The class that a selector selects, where it is a single class selector and
/// nothing else.
pub open spec fn class_of(selector: Selector) -> Option<Seq<char>> {
    if selector.components@.len() == 1 {
        match selector.components@[0] {
            Component::Class(name) => Some(name@),
            _ => None,
        }
    } else {
        None
    }
}


/// The text of a combinator: its sign, with a space on each side unless the output is
/// minified. The descendant combinator is a single space in either case.
pub open spec fn combinator_text(combinator: Combinator, minify: bool) -> Seq<char> {
    match combinator {
        Combinator::Child => if minify {
            seq!['>']
        } else {
            seq![' ', '>', ' ']
        },
        Combinator::Descendant => seq![' '],
        Combinator::NextSibling => if minify {
            seq!['+']
        } else {
            seq![' ', '+', ' ']
        },
        Combinator::LaterSibling => if minify {
            seq!['~']
        } else {
            seq![' ', '~', ' ']
        },
    }
}

/// The text of a component. Class and id names are printed as identifiers of the
/// style sheet, which CSS modules compile; a type name is only escaped.
pub open spec fn component_text(scope: Scope, component: Component, minify: bool) -> Seq<char> {
    match component {
        Component::Class(name) => seq!['.'] + ident_text(scope, name@),
        Component::Id(name) => seq!['#'] + ident_text(scope, name@),
        Component::LocalName(name) => css_identifier(name@),
        Component::Universal => seq!['*'],
        Component::Combinator(combinator) => combinator_text(combinator, minify),
        Component::Other(text) => text@,
    }
}

/// The export table after a component was printed: a class or an id is declared.
pub open spec fn component_exports(scope: Scope, exports: ExportMap, component: Component) -> ExportMap {
    match component {
        Component::Class(name) => ident_exports(scope, exports, name@),
        Component::Id(name) => ident_exports(scope, exports, name@),
        _ => exports,
    }
}

/// The text of a selector: the texts of its components, in order.
pub open spec fn components_text(scope: Scope, components: Seq<Component>, minify: bool) -> Seq<char>
    decreases components.len(),
{
    if components.len() == 0 {
        Seq::empty()
    } else {
        components_text(scope, components.drop_last(), minify) + component_text(
            scope,
            components.last(),
            minify,
        )
    }
}

/// The export table after the components were printed, one after the other.
pub open spec fn components_exports(
    scope: Scope,
    exports: ExportMap,
    components: Seq<Component>,
) -> ExportMap
    decreases components.len(),
{
    if components.len() == 0 {
        exports
    } else {
        component_exports(
            scope,
            components_exports(scope, exports, components.drop_last()),
            components.last(),
        )
    }
}

/// What stands between two selectors of a list: a comma, and a space unless the
/// output is minified.
pub open spec fn list_separator(minify: bool) -> Seq<char> {
    if minify {
        seq![',']
    } else {
        seq![',', ' ']
    }
}

/// The text of a selector list: the texts of its selectors, separated by commas.
pub open spec fn selectors_text(scope: Scope, selectors: Seq<Selector>, minify: bool) -> Seq<char>
    decreases selectors.len(),
{
    if selectors.len() == 0 {
        Seq::empty()
    } else {
        selectors_text(scope, selectors.drop_last(), minify) + (if selectors.len() > 1 {
            list_separator(minify)
        } else {
            Seq::empty()
        }) + components_text(scope, selectors.last().components@, minify)
    }
}

/// The export table after the selectors were printed, one after the other.
pub open spec fn selectors_exports(scope: Scope, exports: ExportMap, selectors: Seq<Selector>) -> ExportMap
    decreases selectors.len(),
{
    if selectors.len() == 0 {
        exports
    } else {
        components_exports(
            scope,
            selectors_exports(scope, exports, selectors.drop_last()),
            selectors.last().components@,
        )
    }
}

/// Printing components keeps every entry, and declares each class among them.
pub proof fn lemma_components_grow(scope: Scope, exports: ExportMap, components: Seq<Component>)
    requires
        scope is Some,
    ensures
        forall|name: Seq<char>|
            exports.contains_key(name) ==> #[trigger] components_exports(
                scope,
                exports,
                components,
            ).contains_key(name),
        forall|i: int|
            0 <= i < components.len() ==> (#[trigger] components[i] matches Component::Class(name)
                ==> components_exports(scope, exports, components).contains_key(name@)),
    decreases components.len(),
{
    if components.len() > 0 {
        let front = components.drop_last();
        lemma_components_grow(scope, exports, front);
        let before = components_exports(scope, exports, front);
        let after = components_exports(scope, exports, components);
        assert(after == component_exports(scope, before, components.last()));
        assert forall|name: Seq<char>| exports.contains_key(name) implies after.contains_key(
            name,
        ) by {
            assert(before.contains_key(name));
        }
        assert forall|i: int| 0 <= i < components.len() implies (
        #[trigger] components[i] matches Component::Class(name) ==> components_exports(
            scope,
            exports,
            components,
        ).contains_key(name@)) by {
            if i < front.len() {
                assert(front[i] == components[i]);
            }
        }
    }
}

impl Combinator {
    /// Serializes the combinator.
    pub fn to_css(&self, dest: &mut Printer)
        ensures
            final(dest).text() == old(dest).text() + combinator_text(*self, old(dest).minify),
            final(dest).css_module == old(dest).css_module,
            final(dest).same_setup(old(dest)),
    {
        let ghost start = dest.text();
        proof {
            reveal_strlit(">");
            reveal_strlit("+");
            reveal_strlit("~");
            reveal_strlit(" ");
        }
        match self {
            Combinator::Descendant => {
                dest.write_str(" ");
                assert(" "@ =~= seq![' ']);
            },
            _ => {
                let sign = match self {
                    Combinator::Child => ">",
                    Combinator::NextSibling => "+",
                    _ => "~",
                };
                dest.whitespace();
                dest.write_str(sign);
                dest.whitespace();
                assert(dest.text() =~= start + combinator_text(*self, dest.minify));
            },
        }
    }
}

impl Component {
    /// Serializes the component. Under CSS modules a class or an id is compiled and
    /// declared in the export table.
    pub fn to_css(&self, dest: &mut Printer)
        requires
            old(dest).well_formed(),
        ensures
            final(dest).well_formed(),
            final(dest).text() == old(dest).text() + component_text(
                old(dest).scope(),
                *self,
                old(dest).minify,
            ),
            final(dest).exports() == component_exports(old(dest).scope(), old(dest).exports(), *self),
            final(dest).same_setup(old(dest)),
    {
        let ghost start = dest.text();
        let ghost scope = dest.scope();
        proof {
            reveal_strlit(".");
            reveal_strlit("#");
            reveal_strlit("*");
        }
        match self {
            Component::Class(name) => {
                dest.write_str(".");
                dest.write_ident(name.as_str());
                assert(dest.text() =~= start + (seq!['.'] + ident_text(scope, name@)));
            },
            Component::Id(name) => {
                dest.write_str("#");
                dest.write_ident(name.as_str());
                assert(dest.text() =~= start + (seq!['#'] + ident_text(scope, name@)));
            },
            Component::LocalName(name) => {
                serialize_identifier(name.as_str(), &mut dest.dest);
            },
            Component::Universal => {
                dest.write_str("*");
                assert("*"@ =~= seq!['*']);
            },
            Component::Combinator(combinator) => {
                combinator.to_css(dest);
            },
            Component::Other(text) => {
                dest.write_str(text.as_str());
            },
        }
    }
}

impl Selector {
    /// The number of components.
    pub fn len(&self) -> (n: usize)
        ensures
            n == self.components@.len(),
    {
        self.components.len()
    }

    /// The class name, where the selector is a single class selector and nothing else.
    pub fn class_name(&self) -> (class: Option<&String>)
        ensures
            match class {
                Some(name) => class_of(*self) == Some(name@),
                None => class_of(*self) is None,
            },
    {
        if self.components.len() == 1 {
            match &self.components[0] {
                Component::Class(name) => Some(name),
                _ => None,
            }
        } else {
            None
        }
    }

    /// Serializes the selector: its components, in order.
    pub fn to_css(&self, dest: &mut Printer)
        requires
            old(dest).well_formed(),
        ensures
            final(dest).well_formed(),
            final(dest).text() == old(dest).text() + components_text(
                old(dest).scope(),
                self.components@,
                old(dest).minify,
            ),
            final(dest).exports() == components_exports(
                old(dest).scope(),
                old(dest).exports(),
                self.components@,
            ),
            final(dest).same_setup(old(dest)),
    {
        let ghost start = dest.text();
        let ghost scope = dest.scope();
        let ghost minify = dest.minify;
        let ghost exports = dest.exports();
        let n = self.components.len();
        let mut i: usize = 0;
        assert(self.components@.take(0) =~= Seq::<Component>::empty());
        assert(start + Seq::<char>::empty() =~= start);
        while i < n
            invariant
                n == self.components@.len(),
                i <= n,
                dest.well_formed(),
                dest.same_setup(old(dest)),
                scope == old(dest).scope(),
                minify == old(dest).minify,
                start == old(dest).text(),
                exports == old(dest).exports(),
                dest.text() == start + components_text(scope, self.components@.take(i as int), minify),
                dest.exports() == components_exports(scope, exports, self.components@.take(i as int)),
            decreases n - i,
        {
            let ghost done = components_text(scope, self.components@.take(i as int), minify);
            let ghost piece = component_text(scope, self.components@[i as int], minify);
            assert(self.components@.take(i + 1).drop_last() =~= self.components@.take(i as int));
            assert(start + (done + piece) =~= (start + done) + piece);
            self.components[i].to_css(dest);
            i += 1;
        }
        assert(self.components@.take(n as int) =~= self.components@);
    }
}

impl SelectorList {
    /// Serializes the list: its selectors, separated by commas.
    pub fn to_css(&self, dest: &mut Printer)
        requires
            old(dest).well_formed(),
        ensures
            final(dest).well_formed(),
            final(dest).text() == old(dest).text() + selectors_text(
                old(dest).scope(),
                self.0@,
                old(dest).minify,
            ),
            final(dest).exports() == selectors_exports(old(dest).scope(), old(dest).exports(), self.0@),
            final(dest).same_setup(old(dest)),
    {
        let ghost start = dest.text();
        let ghost scope = dest.scope();
        let ghost minify = dest.minify;
        let ghost exports = dest.exports();
        let n = self.0.len();
        let mut i: usize = 0;
        assert(self.0@.take(0) =~= Seq::<Selector>::empty());
        assert(start + Seq::<char>::empty() =~= start);
        while i < n
            invariant
                n == self.0@.len(),
                i <= n,
                dest.well_formed(),
                dest.same_setup(old(dest)),
                scope == old(dest).scope(),
                minify == old(dest).minify,
                start == old(dest).text(),
                exports == old(dest).exports(),
                dest.text() == start + selectors_text(scope, self.0@.take(i as int), minify),
                dest.exports() == selectors_exports(scope, exports, self.0@.take(i as int)),
            decreases n - i,
        {
            let ghost done = selectors_text(scope, self.0@.take(i as int), minify);
            let ghost piece = components_text(scope, self.0@[i as int].components@, minify);
            assert(self.0@.take(i + 1).drop_last() =~= self.0@.take(i as int));
            if i > 0 {
                dest.write_str(",");
                dest.whitespace();
                proof {
                    reveal_strlit(",");
                    assert(dest.text() =~= start + done + list_separator(minify));
                    assert(start + (done + list_separator(minify) + piece) =~= (start + done
                        + list_separator(minify)) + piece);
                }
            } else {
                assert(start + (done + Seq::<char>::empty() + piece) =~= (start + done) + piece);
            }
            self.0[i].to_css(dest);
            i += 1;
        }
        assert(self.0@.take(n as int) =~= self.0@);
    }
}

} // verus!
