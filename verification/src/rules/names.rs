//! What printing under CSS modules leaves in the export table: for every name its
//! compiled name, which is also what is printed in its place.

use crate::css_modules::exports::CssModuleReferenceView;
use crate::css_modules::scope::{
    classes_of, composed_references, leading_classes, lemma_composing_all_holds,
    lemma_leading_are_classes, with_composes, with_composes_on_all, with_reference, ExportMap,
    Naming,
};
use crate::printer::{ident_exports, ident_text, with_place, with_text, Output};
use crate::properties::{space, CustomIdent, Property};
use crate::rules::media::{printed_nested, query_text, MediaRuleView};
use crate::rules::style::{
    classes_declared, composes_exports, entries_exports, lemma_selectors_declare_classes,
    style_exports, with_references, StyleRuleView,
};
use crate::rules::{printed_rule, printed_rules, rule_separator, CssRuleView};
use crate::selector::{class_of, components_exports, selectors_exports, Component, Selector};
use crate::serializer::css_identifier;
use vstd::prelude::*;

verus! {

/// Whether every entry of a table holds the compiled name of the name that it stands
/// under.
pub open spec fn names_are_compiled(naming: Naming, exports: ExportMap) -> bool {
    forall|key: Seq<char>| #[trigger]
        exports.contains_key(key) ==> exports[key].name == naming.compile(key)
}

/// Under CSS modules an identifier is printed as the name that the export table gives
/// for it, escaped as CSS asks: the compiled name stands in place of the identifier.
pub proof fn lemma_ident_is_exported_name(naming: Naming, exports: ExportMap, ident: Seq<char>)
    requires
        names_are_compiled(naming, exports),
    ensures
        ident_exports(Some(naming), exports, ident).contains_key(ident),
        ident_text(Some(naming), ident) == css_identifier(
            ident_exports(Some(naming), exports, ident)[ident].name,
        ),
        names_are_compiled(naming, ident_exports(Some(naming), exports, ident)),
        forall|key: Seq<char>|
            exports.contains_key(key) ==> #[trigger] ident_exports(
                Some(naming),
                exports,
                ident,
            ).contains_key(key),
{
}

/// A reference keeps the names compiled.
pub proof fn lemma_reference_keeps_names(naming: Naming, exports: ExportMap, name: Seq<char>)
    requires
        names_are_compiled(naming, exports),
    ensures
        names_are_compiled(naming, with_reference(exports, naming, name)),
        forall|key: Seq<char>|
            exports.contains_key(key) ==> #[trigger] with_reference(
                exports,
                naming,
                name,
            ).contains_key(key),
{
}

/// References to several names keep the names compiled.
pub proof fn lemma_references_keep_names(naming: Naming, exports: ExportMap, names: Seq<CustomIdent>)
    requires
        names_are_compiled(naming, exports),
    ensures
        names_are_compiled(naming, with_references(exports, naming, names)),
        forall|key: Seq<char>|
            exports.contains_key(key) ==> #[trigger] with_references(
                exports,
                naming,
                names,
            ).contains_key(key),
    decreases names.len(),
{
    if names.len() > 0 {
        lemma_references_keep_names(naming, exports, names.drop_last());
        lemma_reference_keeps_names(
            naming,
            with_references(exports, naming, names.drop_last()),
            names.last().0@,
        );
    }
}

/// Composing onto classes that have entries keeps the names compiled and the entries
/// in place.
pub proof fn lemma_composes_keep_names(
    naming: Naming,
    exports: ExportMap,
    classes: Seq<Seq<char>>,
    references: Seq<CssModuleReferenceView>,
)
    requires
        names_are_compiled(naming, exports),
        forall|k: int| 0 <= k < classes.len() ==> exports.contains_key(#[trigger] classes[k]),
    ensures
        names_are_compiled(naming, with_composes_on_all(exports, classes, references)),
        with_composes_on_all(exports, classes, references).dom() == exports.dom(),
    decreases classes.len(),
{
    if classes.len() > 0 {
        let front = classes.drop_last();
        assert forall|k: int| 0 <= k < front.len() implies exports.contains_key(
            #[trigger] front[k],
        ) by {
            assert(front[k] == classes[k]);
        }
        lemma_composes_keep_names(naming, exports, front, references);
        let before = with_composes_on_all(exports, front, references);
        let last = classes[classes.len() - 1];
        assert(exports.contains_key(last));
        assert(before.dom().contains(last));
        lemma_composing_all_holds(before[last], references);
        let after = with_composes(before, last, references);
        assert(after.dom() =~= before.dom());
        assert forall|key: Seq<char>| #[trigger] after.contains_key(key) implies after[key].name
            == naming.compile(key) by {
            assert(before.contains_key(key));
        }
    }
}

/// Printing components keeps the names compiled.
pub proof fn lemma_components_keep_names(
    naming: Naming,
    exports: ExportMap,
    components: Seq<Component>,
)
    requires
        names_are_compiled(naming, exports),
    ensures
        names_are_compiled(naming, components_exports(Some(naming), exports, components)),
    decreases components.len(),
{
    if components.len() > 0 {
        lemma_components_keep_names(naming, exports, components.drop_last());
    }
}

/// Printing selectors keeps the names compiled.
pub proof fn lemma_selectors_keep_names(naming: Naming, exports: ExportMap, selectors: Seq<Selector>)
    requires
        names_are_compiled(naming, exports),
    ensures
        names_are_compiled(naming, selectors_exports(Some(naming), exports, selectors)),
    decreases selectors.len(),
{
    if selectors.len() > 0 {
        lemma_selectors_keep_names(naming, exports, selectors.drop_last());
        lemma_components_keep_names(
            naming,
            selectors_exports(Some(naming), exports, selectors.drop_last()),
            selectors.last().components@,
        );
    }
}

/// Resolving the `composes` declarations of a rule whose classes are declared keeps
/// the names compiled and the classes declared.
pub proof fn lemma_entries_keep_names(
    naming: Naming,
    exports: ExportMap,
    selectors: Seq<Selector>,
    items: Seq<Property>,
)
    requires
        names_are_compiled(naming, exports),
        classes_declared(exports, selectors),
    ensures
        names_are_compiled(naming, entries_exports(naming, exports, selectors, items)),
        classes_declared(entries_exports(naming, exports, selectors, items), selectors),
    decreases items.len(),
{
    if items.len() > 0 {
        lemma_entries_keep_names(naming, exports, selectors, items.drop_last());
        let before = entries_exports(naming, exports, selectors, items.drop_last());
        if let Property::Composes(composes) = items.last() {
            lemma_references_keep_names(naming, before, composes.names@);
            let marked = if composes.from is None {
                with_references(before, naming, composes.names@)
            } else {
                before
            };
            let classes = classes_of(selectors, leading_classes(selectors));
            assert forall|k: int| 0 <= k < classes.len() implies marked.contains_key(
                #[trigger] classes[k],
            ) by {
                lemma_leading_are_classes(selectors, k);
                assert(before.contains_key(class_of(selectors[k])->0));
            }
            lemma_composes_keep_names(
                naming,
                marked,
                classes,
                composed_references(naming, composes),
            );
            let after = composes_exports(naming, before, selectors, composes);
            assert forall|i: int|
                0 <= i < selectors.len() && class_of(
                    #[trigger] selectors[i],
                ) is Some implies after.contains_key(class_of(selectors[i])->0) by {
                assert(before.contains_key(class_of(selectors[i])->0));
                assert(marked.contains_key(class_of(selectors[i])->0));
                assert(after.dom().contains(class_of(selectors[i])->0));
            }
        }
    }
}

/// Printing a style rule keeps the names compiled.
pub proof fn lemma_style_keeps_names(naming: Naming, exports: ExportMap, rule: StyleRuleView)
    requires
        names_are_compiled(naming, exports),
    ensures
        names_are_compiled(naming, style_exports(Some(naming), exports, rule)),
{
    lemma_selectors_keep_names(naming, exports, rule.selectors);
    let declared = selectors_exports(Some(naming), exports, rule.selectors);
    lemma_selectors_declare_classes(Some(naming), exports, rule.selectors);
    lemma_entries_keep_names(naming, declared, rule.selectors, rule.declarations);
    lemma_entries_keep_names(
        naming,
        entries_exports(naming, declared, rule.selectors, rule.declarations),
        rule.selectors,
        rule.important_declarations,
    );
}

/// Printing the rules inside a rule keeps the names compiled.
pub proof fn lemma_nested_keep_names(
    naming: Naming,
    minify: bool,
    out: Output,
    rules: Seq<StyleRuleView>,
)
    requires
        names_are_compiled(naming, out.exports),
    ensures
        names_are_compiled(naming, printed_nested(Some(naming), minify, out, rules).exports),
    decreases rules.len(),
{
    if rules.len() > 0 {
        lemma_nested_keep_names(naming, minify, out, rules.drop_last());
        lemma_style_keeps_names(
            naming,
            printed_nested(Some(naming), minify, out, rules.drop_last()).exports,
            rules.last(),
        );
    }
}

/// Printing a rule keeps the names compiled.
pub proof fn lemma_rule_keeps_names(naming: Naming, minify: bool, out: Output, rule: CssRuleView)
    requires
        names_are_compiled(naming, out.exports),
    ensures
        names_are_compiled(naming, printed_rule(Some(naming), minify, out, rule).exports),
{
    match rule {
        CssRuleView::Style(style) => {
            lemma_style_keeps_names(naming, out.exports, style);
        },
        CssRuleView::Media(media) => {
            let head = printed_media_head(minify, out, media);
            lemma_nested_keep_names(naming, minify, head, media.rules);
        },
        _ => {},
    }
}

/// The output after the keyword, the query and the opening brace of a `@media` rule
/// were printed.
pub open spec fn printed_media_head(minify: bool, out: Output, rule: MediaRuleView) -> Output {
    with_text(with_place(out, rule.loc), "@media "@ + query_text(rule.query) + space(minify) + "{"@)
}

/// Printing a style sheet under CSS modules leaves in the export table, for every name
/// that it holds, the compiled name of that name: different names of one source get
/// names compiled by the same pattern, hash and base name.
pub proof fn lemma_rules_keep_names(
    naming: Naming,
    minify: bool,
    out: Output,
    rules: Seq<CssRuleView>,
    any_before: bool,
)
    requires
        names_are_compiled(naming, out.exports),
    ensures
        names_are_compiled(
            naming,
            printed_rules(Some(naming), minify, out, rules, any_before).exports,
        ),
    decreases rules.len(),
{
    if rules.len() > 0 {
        lemma_rules_keep_names(naming, minify, out, rules.drop_last(), any_before);
        let before = printed_rules(Some(naming), minify, out, rules.drop_last(), any_before);
        lemma_rule_keeps_names(naming, minify, before, rules.last());
        lemma_rule_keeps_names(
            naming,
            minify,
            with_text(before, rule_separator(minify)),
            rules.last(),
        );
    }
}

} // verus!
