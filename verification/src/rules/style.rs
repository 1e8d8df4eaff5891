//! Style rules.

use crate::css_modules::exports::CssModuleReferenceView;
use crate::css_modules::scope::{
    classes_of, composed_references, leading_classes, lemma_leading_are_classes,
    lemma_reference_marks, with_composes_on_all, with_reference, ExportMap, Naming,
};
use crate::error::{Location, PrinterError, PrinterErrorKind};
use crate::printer::{is_error_at, with_place, Output, Printer, Scope};
use crate::properties::{
    block_text, entries_text, entry_text, is_printed, printed_count, space, BlockStyle, Composes,
    CustomIdent, DeclarationBlock, Property,
};
use crate::selector::{class_of, selectors_exports, selectors_text, Selector, SelectorList};
use vstd::prelude::*;
use vstd::string::*;

verus! {

/// A CSS style rule: selectors and the declarations that hold for what they select.
#[derive(Debug)]
pub struct StyleRule {
    /// The selectors for the style rule.
    pub selectors: SelectorList,
    /// The declarations within the style rule.
    pub declarations: DeclarationBlock,
    /// The location of the rule in the source file.
    pub loc: Location,
}

/// The mathematical value of a [`StyleRule`].
pub struct StyleRuleView {
    pub selectors: Seq<Selector>,
    pub declarations: Seq<Property>,
    pub important_declarations: Seq<Property>,
    pub loc: Location,
}

impl View for StyleRule {
    type V = StyleRuleView;

    open spec fn view(&self) -> StyleRuleView {
        StyleRuleView {
            selectors: self.selectors.0@,
            declarations: self.declarations.declarations@,
            important_declarations: self.declarations.important_declarations@,
            loc: self.loc,
        }
    }
}

/// What closes the block of a rule.
pub open spec fn block_end(style: BlockStyle, minify: bool) -> Seq<char> {
    if minify {
        "}"@
    } else if style == BlockStyle::Nested {
        "\n  }"@
    } else {
        "\n}"@
    }
}

/// The text of a style rule: the selectors, and the declarations in braces.
pub open spec fn style_text(scope: Scope, rule: StyleRuleView, minify: bool, style: BlockStyle) -> Seq<
    char,
> {
    selectors_text(scope, rule.selectors, minify) + space(minify) + "{"@ + block_text(
        style,
        minify,
        scope is Some,
        rule.declarations,
        rule.important_declarations,
    ) + block_end(style, minify)
}

/// The table after each of `names` was referred to, one after the other.
pub open spec fn with_references(
    exports: ExportMap,
    naming: Naming,
    names: Seq<CustomIdent>,
) -> ExportMap
    decreases names.len(),
{
    if names.len() == 0 {
        exports
    } else {
        with_reference(
            with_references(exports, naming, names.drop_last()),
            naming,
            names.last().0@,
        )
    }
}

/// The table after a `composes` declaration of a rule with the selectors `selectors`
/// was resolved: names composed from the same file count as referred to, and the
/// references are composed onto the entry of each leading class.
pub open spec fn composes_exports(
    naming: Naming,
    exports: ExportMap,
    selectors: Seq<Selector>,
    composes: Composes,
) -> ExportMap {
    with_composes_on_all(
        if composes.from is None {
            with_references(exports, naming, composes.names@)
        } else {
            exports
        },
        classes_of(selectors, leading_classes(selectors)),
        composed_references(naming, composes),
    )
}

/// The table after the `composes` declarations among `items` were resolved, in order.
pub open spec fn entries_exports(
    naming: Naming,
    exports: ExportMap,
    selectors: Seq<Selector>,
    items: Seq<Property>,
) -> ExportMap
    decreases items.len(),
{
    if items.len() == 0 {
        exports
    } else {
        let before = entries_exports(naming, exports, selectors, items.drop_last());
        match items.last() {
            Property::Composes(composes) => composes_exports(
                naming,
                before,
                selectors,
                composes,
            ),
            _ => before,
        }
    }
}

/// The table after a style rule was printed: under CSS modules the classes and ids of
/// its selectors are declared, and its `composes` declarations are resolved.
pub open spec fn style_exports(scope: Scope, exports: ExportMap, rule: StyleRuleView) -> ExportMap {
    match scope {
        Some(naming) => entries_exports(
            naming,
            entries_exports(
                naming,
                selectors_exports(scope, exports, rule.selectors),
                rule.selectors,
                rule.declarations,
            ),
            rule.selectors,
            rule.important_declarations,
        ),
        None => exports,
    }
}

/// The output after a style rule was printed.
pub open spec fn printed_style(
    scope: Scope,
    minify: bool,
    style: BlockStyle,
    out: Output,
    rule: StyleRuleView,
) -> Output {
    Output {
        text: out.text + style_text(scope, rule, minify, style),
        places: with_place(out, rule.loc).places,
        exports: style_exports(scope, out.exports, rule),
    }
}

/// The place of the first `composes` declaration among `items`.
pub open spec fn first_composes(items: Seq<Property>) -> Option<Location>
    decreases items.len(),
{
    if items.len() == 0 {
        None
    } else {
        match items[0] {
            Property::Composes(composes) => Some(composes.loc),
            _ => first_composes(items.drop_first()),
        }
    }
}

/// Whether a rule cannot be printed under CSS modules: it composes, and one of its
/// selectors is no single class selector.
pub open spec fn style_fails(scope: Scope, rule: StyleRuleView) -> bool {
    &&& scope is Some
    &&& first_composes(rule.declarations + rule.important_declarations) is Some
    &&& leading_classes(rule.selectors) != rule.selectors.len()
}

/// Whether every single class selector among `selectors` has an entry in `exports`.
pub open spec fn classes_declared(exports: ExportMap, selectors: Seq<Selector>) -> bool {
    forall|i: int|
        0 <= i < selectors.len() && class_of(#[trigger] selectors[i]) is Some
            ==> exports.contains_key(class_of(selectors[i])->0)
}

/// The first `composes` declaration of two lists is that of the first list, or else
/// that of the second.
pub proof fn lemma_first_composes_concat(front: Seq<Property>, back: Seq<Property>)
    ensures
        first_composes(front + back) == (if first_composes(front) is Some {
            first_composes(front)
        } else {
            first_composes(back)
        }),
    decreases front.len(),
{
    if front.len() == 0 {
        assert(front + back =~= back);
    } else {
        assert((front + back).drop_first() =~= front.drop_first() + back);
        lemma_first_composes_concat(front.drop_first(), back);
    }
}

/// Where no `composes` declaration stands among the first `k` of `items`, the first
/// one of `items` is the first one after them.
pub proof fn lemma_first_composes_skip(items: Seq<Property>, k: int)
    requires
        0 <= k <= items.len(),
        forall|j: int| 0 <= j < k ==> !(items[j] is Composes),
    ensures
        first_composes(items) == first_composes(items.skip(k)),
    decreases k,
{
    if k == 0 {
        assert(items.skip(0) =~= items);
    } else {
        assert(items.drop_first().skip(k - 1) =~= items.skip(k));
        lemma_first_composes_skip(items.drop_first(), k - 1);
    }
}

/// Printing the selectors declares every class among them.
pub proof fn lemma_selectors_declare_classes(scope: Scope, exports: ExportMap, selectors: Seq<Selector>)
    requires
        scope is Some,
    ensures
        classes_declared(selectors_exports(scope, exports, selectors), selectors),
        forall|name: Seq<char>|
            exports.contains_key(name) ==> #[trigger] selectors_exports(
                scope,
                exports,
                selectors,
            ).contains_key(name),
    decreases selectors.len(),
{
    if selectors.len() > 0 {
        let front = selectors.drop_last();
        lemma_selectors_declare_classes(scope, exports, front);
        let before = selectors_exports(scope, exports, front);
        let after = selectors_exports(scope, exports, selectors);
        assert(selectors.last().components@.drop_last() =~= selectors.last().components@.take(
            selectors.last().components@.len() - 1,
        ));
        crate::selector::lemma_components_grow(scope, before, selectors.last().components@);
        assert forall|i: int|
            0 <= i < selectors.len() && class_of(#[trigger] selectors[i]) is Some implies after.contains_key(
            class_of(selectors[i])->0,
        ) by {
            if i < front.len() {
                assert(front[i] == selectors[i]);
            }
        }
    }
}

/// Referring to names keeps every entry that the table holds.
pub proof fn lemma_references_grow(
    exports: ExportMap,
    naming: Naming,
    names: Seq<CustomIdent>,
)
    ensures
        forall|name: Seq<char>|
            exports.contains_key(name) ==> #[trigger] with_references(
                exports,
                naming,
                names,
            ).contains_key(name),
    decreases names.len(),
{
    if names.len() > 0 {
        lemma_references_grow(exports, naming, names.drop_last());
        lemma_reference_marks(
            with_references(exports, naming, names.drop_last()),
            naming,
            names.last().0@,
        );
    }
}

/// The place of the first `composes` declaration of a rule.
pub open spec fn rule_composes(rule: StyleRuleView) -> Option<Location> {
    first_composes(rule.declarations + rule.important_declarations)
}

/// The place of the first `composes` declaration among `items`.
fn find_composes(items: &Vec<Property>) -> (found: Option<Location>)
    ensures
        found == first_composes(items@),
{
    let mut i: usize = 0;
    while i < items.len()
        invariant
            i <= items.len(),
            forall|j: int| 0 <= j < i ==> !(items@[j] is Composes),
        decreases items.len() - i,
    {
        if let Property::Composes(composes) = &items[i] {
            proof {
                lemma_first_composes_skip(items@, i as int);
                assert(items@.skip(i as int)[0] == items@[i as int]);
            }
            return Some(composes.loc);
        }
        i += 1;
    }
    proof {
        lemma_no_composes(items@);
    }
    None
}

impl StyleRule {
    /// The place of the first `composes` declaration of the rule, if it has one.
    pub fn first_composes(&self) -> (found: Option<Location>)
        ensures
            found == rule_composes(self@),
    {
        proof {
            lemma_first_composes_concat(
                self.declarations.declarations@,
                self.declarations.important_declarations@,
            );
        }
        match find_composes(&self.declarations.declarations) {
            Some(loc) => Some(loc),
            None => find_composes(&self.declarations.important_declarations),
        }
    }

    /// Serializes the rule, its block laid out in `style`.
    ///
    /// Under CSS modules the classes and ids of the selectors are compiled and declared,
    /// and each `composes` declaration is resolved into the export table instead of
    /// being printed; names that it composes from the same file count as referred to.
    /// A rule that composes under a selector that is no single class selector is
    /// rejected with `InvalidComposesSelector`, at the place of its first `composes`.
    pub fn to_css(&self, dest: &mut Printer, style: BlockStyle) -> (result: Result<(), PrinterError>)
        requires
            old(dest).well_formed(),
        ensures
            final(dest).well_formed(),
            final(dest).same_config(old(dest)),
            result is Err <==> style_fails(old(dest).scope(), self@),
            result matches Err(error) ==> rule_composes(self@) is Some && is_error_at(
                error,
                PrinterErrorKind::InvalidComposesSelector,
                old(dest).sources,
                rule_composes(self@)->0,
            ),
            result is Ok ==> final(dest).output() == printed_style(
                old(dest).scope(),
                old(dest).minify,
                style,
                old(dest).output(),
                self@,
            ),
    {
        let ghost start = dest.text();
        let ghost minify = dest.minify;
        let ghost scope = dest.scope();
        self.write_head(dest);
        let ghost head = dest.text();
        match self.write_body(dest, style) {
            Ok(_) => {},
            Err(error) => {
                return Err(error);
            },
        }
        let ghost body = dest.text();
        if dest.minify {
            dest.write_str("}");
        } else {
            match style {
                BlockStyle::Nested => {
                    dest.write_str("\n  }");
                },
                _ => {
                    dest.write_str("\n}");
                },
            }
        }
        assert(dest.text() == body + block_end(style, minify));
        assert(dest.text() =~= start + style_text(scope, self@, minify, style));
        Ok(())
    }

    /// Records the place of the rule and serializes its selectors and the opening brace.
    fn write_head(&self, dest: &mut Printer)
        requires
            old(dest).well_formed(),
        ensures
            final(dest).well_formed(),
            final(dest).same_config(old(dest)),
            final(dest).places() == with_place(old(dest).output(), self.loc).places,
            final(dest).text() == old(dest).text() + (selectors_text(
                old(dest).scope(),
                self.selectors.0@,
                old(dest).minify,
            ) + space(old(dest).minify) + "{"@),
            final(dest).exports() == selectors_exports(
                old(dest).scope(),
                old(dest).exports(),
                self.selectors.0@,
            ),
            final(dest).scope() is Some ==> classes_declared(final(dest).exports(), self.selectors.0@),
    {
        let ghost start = dest.text();
        let ghost minify = dest.minify;
        let ghost scope = dest.scope();
        let ghost exports = dest.exports();
        dest.add_mapping(self.loc);
        self.selectors.to_css(dest);
        dest.whitespace();
        dest.write_str("{");
        proof {
            reveal_strlit(" ");
            assert(dest.text() =~= start + (selectors_text(scope, self.selectors.0@, minify) + space(
                minify,
            ) + "{"@));
            if scope is Some {
                lemma_selectors_declare_classes(scope, exports, self.selectors.0@);
            }
        }
    }

    /// Resolves or serializes the declarations of the rule, the `!important` ones last.
    fn write_body(&self, dest: &mut Printer, style: BlockStyle) -> (result: Result<(), PrinterError>)
        requires
            old(dest).well_formed(),
            old(dest).scope() is Some ==> classes_declared(old(dest).exports(), self.selectors.0@),
        ensures
            final(dest).well_formed(),
            final(dest).same_config(old(dest)),
            final(dest).places() == old(dest).places(),
            result is Err <==> style_fails(old(dest).scope(), self@),
            result matches Err(error) ==> rule_composes(self@) is Some && is_error_at(
                error,
                PrinterErrorKind::InvalidComposesSelector,
                old(dest).sources,
                rule_composes(self@)->0,
            ),
            result is Ok ==> final(dest).text() == old(dest).text() + block_text(
                style,
                old(dest).minify,
                old(dest).scope() is Some,
                self.declarations.declarations@,
                self.declarations.important_declarations@,
            ),
            result is Ok ==> (old(dest).scope() matches Some(naming) ==> final(dest).exports()
                == entries_exports(
                naming,
                entries_exports(
                    naming,
                    old(dest).exports(),
                    self.selectors.0@,
                    self.declarations.declarations@,
                ),
                self.selectors.0@,
                self.declarations.important_declarations@,
            )),
            result is Ok ==> (old(dest).scope() is None ==> final(dest).exports() == old(
                dest,
            ).exports()),
    {
        let ghost start = dest.text();
        let ghost minify = dest.minify;
        let ghost scoped = dest.scope() is Some;
        proof {
            lemma_first_composes_concat(
                self.declarations.declarations@,
                self.declarations.important_declarations@,
            );
        }
        let any = match self.write_rule_entries(
            &self.declarations.declarations,
            dest,
            false,
            style,
            false,
        ) {
            Ok(any) => any,
            Err(error) => {
                return Err(error);
            },
        };
        let ghost first = entries_text(
            style,
            minify,
            scoped,
            self.declarations.declarations@,
            false,
            false,
        );
        match self.write_rule_entries(
            &self.declarations.important_declarations,
            dest,
            true,
            style,
            any,
        ) {
            Ok(_) => {},
            Err(error) => {
                return Err(error);
            },
        }
        let ghost second = entries_text(
            style,
            minify,
            scoped,
            self.declarations.important_declarations@,
            true,
            any,
        );
        assert(start + first + second =~= start + (first + second));
        Ok(())
    }

    /// Resolves or serializes the declarations `items` of the rule. Under CSS modules a
    /// `composes` declaration is resolved into the export table and not printed.
    fn write_rule_entries(
        &self,
        items: &Vec<Property>,
        dest: &mut Printer,
        important: bool,
        style: BlockStyle,
        any_before: bool,
    ) -> (result: Result<bool, PrinterError>)
        requires
            old(dest).well_formed(),
            old(dest).scope() is Some ==> classes_declared(old(dest).exports(), self.selectors.0@),
        ensures
            final(dest).well_formed(),
            final(dest).same_config(old(dest)),
            final(dest).places() == old(dest).places(),
            result is Err <==> old(dest).scope() is Some && first_composes(items@) is Some
                && leading_classes(self.selectors.0@) != self.selectors.0@.len(),
            result matches Err(error) ==> first_composes(items@) is Some && is_error_at(
                error,
                PrinterErrorKind::InvalidComposesSelector,
                old(dest).sources,
                first_composes(items@)->0,
            ),
            result matches Ok(any) ==> {
                &&& any == (any_before || printed_count(old(dest).scope() is Some, items@) > 0)
                &&& final(dest).text() == old(dest).text() + entries_text(
                    style,
                    old(dest).minify,
                    old(dest).scope() is Some,
                    items@,
                    important,
                    any_before,
                )
                &&& old(dest).scope() matches Some(naming) ==> final(dest).exports()
                    == entries_exports(naming, old(dest).exports(), self.selectors.0@, items@)
                &&& old(dest).scope() is None ==> final(dest).exports() == old(dest).exports()
                &&& final(dest).scope() is Some ==> classes_declared(
                    final(dest).exports(),
                    self.selectors.0@,
                )
            },
    {
        let ghost start = dest.text();
        let ghost minify = dest.minify;
        let ghost scope = dest.scope();
        let ghost scoped = dest.scope() is Some;
        let ghost exports = dest.exports();
        let ghost selectors = self.selectors.0@;
        let n = items.len();
        let mut i: usize = 0;
        let mut any = any_before;
        assert(items@.take(0) =~= Seq::<Property>::empty());
        assert(start + Seq::<char>::empty() =~= start);
        while i < n
            invariant
                n == items@.len(),
                i <= n,
                dest.well_formed(),
                dest.same_config(old(dest)),
                dest.places() == old(dest).places(),
                start == old(dest).text(),
                minify == old(dest).minify,
                scope == old(dest).scope(),
                scoped == (scope is Some),
                exports == old(dest).exports(),
                selectors == self.selectors.0@,
                scoped ==> classes_declared(dest.exports(), selectors),
                scoped && leading_classes(selectors) != selectors.len() ==> forall|j: int|
                    0 <= j < i ==> !(items@[j] is Composes),
                any == (any_before || printed_count(scoped, items@.take(i as int)) > 0),
                dest.text() == start + entries_text(
                    style,
                    minify,
                    scoped,
                    items@.take(i as int),
                    important,
                    any_before,
                ),
                scope matches Some(naming) ==> dest.exports() == entries_exports(
                    naming,
                    exports,
                    selectors,
                    items@.take(i as int),
                ),
                scope is None ==> dest.exports() == exports,
            decreases n - i,
        {
            let ghost done = entries_text(
                style,
                minify,
                scoped,
                items@.take(i as int),
                important,
                any_before,
            );
            assert(items@.take(i + 1).drop_last() =~= items@.take(i as int));
            assert(items@.take(i + 1).last() == items@[i as int]);
            let mut resolved = false;
            let mut failed: Option<Location> = None;
            if let Property::Composes(composes) = &items[i] {
                if let Some(module) = &mut dest.css_module {
                    resolved = true;
                    let ghost naming = module.naming();
                    let ghost before = module.exports@;
                    if composes.from.is_none() {
                        let m = composes.names.len();
                        let mut k: usize = 0;
                        assert(composes.names@.take(0) =~= Seq::<CustomIdent>::empty());
                        while k < m
                            invariant
                                m == composes.names@.len(),
                                k <= m,
                                module.exports.well_formed(),
                                module.naming() == naming,
                                module.config == old(dest).css_module->0.config,
                                module.exports@ == with_references(
                                    before,
                                    naming,
                                    composes.names@.take(k as int),
                                ),
                            decreases m - k,
                        {
                            assert(composes.names@.take(k + 1).drop_last() =~= composes.names@.take(
                                k as int,
                            ));
                            module.reference(composes.names[k].0.as_str());
                            k += 1;
                        }
                        assert(composes.names@.take(m as int) =~= composes.names@);
                    }
                    let ghost marked = module.exports@;
                    proof {
                        lemma_references_grow(before, naming, composes.names@);
                        assert forall|j: int| 0 <= j < leading_classes(selectors) implies marked.contains_key(
                            #[trigger] class_of(selectors[j])->0,
                        ) by {
                            lemma_leading_are_classes(selectors, j);
                            assert(before.contains_key(class_of(selectors[j])->0));
                        }
                    }
                    match module.handle_composes(&self.selectors, composes) {
                        Ok(_) => {
                            proof {
                                assert forall|j: int|
                                    0 <= j < selectors.len() && class_of(
                                        #[trigger] selectors[j],
                                    ) is Some implies module.exports@.contains_key(
                                    class_of(selectors[j])->0,
                                ) by {
                                    assert(before.contains_key(class_of(selectors[j])->0));
                                    assert(marked.contains_key(class_of(selectors[j])->0));
                                    assert(module.exports@.dom().contains(class_of(selectors[j])->0));
                                }
                            }
                        },
                        Err(_) => {
                            failed = Some(composes.loc);
                        },
                    }
                }
            }
            if let Some(loc) = failed {
                proof {
                    lemma_first_composes_skip(items@, i as int);
                    assert(items@.skip(i as int)[0] == items@[i as int]);
                }
                return Err(dest.error(PrinterErrorKind::InvalidComposesSelector, loc));
            }
            if !resolved {
                assert(is_printed(scoped, items@[i as int]));
                let ghost piece = entry_text(style, minify, !any, items@[i as int], important);
                assert(start + (done + piece) =~= (start + done) + piece);
                items[i].write_entry(dest, important, style, !any);
                any = true;
            } else {
                assert(!is_printed(scoped, items@[i as int]));
                assert(start + (done + Seq::<char>::empty()) =~= start + done);
            }
            i += 1;
        }
        proof {
            assert(items@.take(n as int) =~= items@);
            if scoped && leading_classes(selectors) != selectors.len() {
                lemma_no_composes(items@);
            }
        }
        Ok(any)
    }
}

/// Where no declaration of `items` is a `composes` declaration, there is no first one.
pub proof fn lemma_no_composes(items: Seq<Property>)
    requires
        forall|j: int| 0 <= j < items.len() ==> !(items[j] is Composes),
    ensures
        first_composes(items) is None,
    decreases items.len(),
{
    if items.len() > 0 {
        lemma_no_composes(items.drop_first());
    }
}

} // verus!
