//! Minification of rules: what a pass removes, merges and resolves.

use crate::context::{CustomMediaLookup, MinifyContext, MinifyView, SymbolSet};
use crate::error::{MinifyError, MinifyErrorKind};
use crate::properties::{
    is_deduplicated, keep_last, lemma_keep_last_deduplicated, lemma_keep_last_fixed,
    lemma_keep_last_members, supersedes, Property,
};
use crate::rules::media::{
    style_views, MediaQuery, MediaQueryView, MediaRule, MediaRuleView,
};
use crate::rules::style::{StyleRule, StyleRuleView};
use crate::rules::{rule_views, CssRule, CssRuleList, CssRuleView};
use crate::selector::{Component, Selector, SelectorList};
use vstd::prelude::*;
use vstd::string::*;

verus! {

/// Whether a component names a symbol that is known to be unused.
pub open spec fn component_unused(unused: Set<Seq<char>>, component: Component) -> bool {
    match component {
        Component::Class(name) => unused.contains(name@),
        Component::Id(name) => unused.contains(name@),
        _ => false,
    }
}

/// Whether a selector can select nothing: it asks for a class or an id that is unused.
pub open spec fn selector_unused(unused: Set<Seq<char>>, selector: Selector) -> bool {
    exists|i: int|
        0 <= i < selector.components@.len() && component_unused(
            unused,
            #[trigger] selector.components@[i],
        )
}

/// Whether a rule with the selectors `selectors` can select nothing: some symbols are
/// known to be unused, and every selector asks for one of them.
pub open spec fn selectors_unused(unused: Set<Seq<char>>, selectors: Seq<Selector>) -> bool {
    !unused.is_empty() && forall|i: int|
        0 <= i < selectors.len() ==> selector_unused(unused, #[trigger] selectors[i])
}

/// A style rule with its declarations minified.
pub open spec fn with_kept_declarations(rule: StyleRuleView) -> StyleRuleView {
    StyleRuleView {
        declarations: keep_last(rule.declarations),
        important_declarations: keep_last(rule.important_declarations),
        ..rule
    }
}

/// What a style rule is minified to, or `None` where it is removed: a rule that can
/// select nothing goes, and so does a rule that declares nothing.
pub open spec fn minified_style(unused: Set<Seq<char>>, rule: StyleRuleView) -> Option<StyleRuleView> {
    if selectors_unused(unused, rule.selectors) || (rule.declarations.len() == 0
        && rule.important_declarations.len() == 0) {
        None
    } else {
        Some(with_kept_declarations(rule))
    }
}

/// What the rules inside a rule are minified to: each on its own, those removed left out.
pub open spec fn minified_styles(unused: Set<Seq<char>>, rules: Seq<StyleRuleView>) -> Seq<StyleRuleView>
    decreases rules.len(),
{
    if rules.len() == 0 {
        Seq::empty()
    } else {
        match minified_style(unused, rules[0]) {
            Some(rule) => seq![rule] + minified_styles(unused, rules.drop_first()),
            None => minified_styles(unused, rules.drop_first()),
        }
    }
}

/// Whether two lists hold the same declarations in the same order, none of them a
/// `composes` declaration.
pub open spec fn same_entries(a: Seq<Property>, b: Seq<Property>) -> bool {
    a.len() == b.len() && forall|i: int| 0 <= i < a.len() ==> supersedes(#[trigger] a[i], b[i])
}

/// Whether a style rule can be merged into the one before it: both declare the same.
pub open spec fn can_merge(prev: StyleRuleView, next: StyleRuleView) -> bool {
    same_entries(prev.declarations, next.declarations) && same_entries(
        prev.important_declarations,
        next.important_declarations,
    )
}

/// Two style rules merged: the selectors of both, before the declarations of the first.
pub open spec fn merged(prev: StyleRuleView, next: StyleRuleView) -> StyleRuleView {
    StyleRuleView { selectors: prev.selectors + next.selectors, ..prev }
}

/// The query with a custom media query replaced by the text that it stands for, where
/// custom media queries are to be resolved and the name is defined.
pub open spec fn resolved_query(
    lookup: Option<Map<Seq<char>, Seq<char>>>,
    query: MediaQueryView,
) -> MediaQueryView {
    match (lookup, query) {
        (Some(queries), MediaQueryView::Custom(name)) => if queries.contains_key(name) {
            MediaQueryView::Raw(queries[name])
        } else {
            query
        },
        _ => query,
    }
}

/// The name of the custom media query that a query refers to without the name being
/// defined, where custom media queries are to be resolved.
pub open spec fn unresolved_name(
    lookup: Option<Map<Seq<char>, Seq<char>>>,
    query: MediaQueryView,
) -> Option<Seq<char>> {
    match (lookup, query) {
        (Some(queries), MediaQueryView::Custom(name)) => if queries.contains_key(name) {
            None
        } else {
            Some(name)
        },
        _ => None,
    }
}

/// What a `@media` rule is minified to, or `None` where it is removed because no rule
/// is left inside.
pub open spec fn minified_media(context: MinifyView, rule: MediaRuleView) -> Option<MediaRuleView> {
    let inner = minified_styles(context.unused, rule.rules);
    if inner.len() == 0 {
        None
    } else {
        Some(
            MediaRuleView {
                query: resolved_query(context.custom_media, rule.query),
                rules: inner,
                loc: rule.loc,
            },
        )
    }
}

/// The rules minified so far with a style rule put after them: merged into the last of
/// them where that is a style rule that declares the same.
pub open spec fn absorb_style(out: Seq<CssRuleView>, rule: StyleRuleView) -> Seq<CssRuleView> {
    if out.len() > 0 && out.last() is Style && can_merge(out.last()->Style_0, rule) {
        out.drop_last().push(CssRuleView::Style(merged(out.last()->Style_0, rule)))
    } else {
        out.push(CssRuleView::Style(rule))
    }
}

/// The rules minified so far with the next rule taken in.
///
/// A removed rule is dropped. A `@custom-media` rule is dropped where custom media
/// queries are resolved, for then no rule refers to it any more. A `@namespace` rule
/// stays as it is.
pub open spec fn minify_rule(context: MinifyView, out: Seq<CssRuleView>, rule: CssRuleView) -> Seq<
    CssRuleView,
> {
    match rule {
        CssRuleView::Ignored => out,
        CssRuleView::Namespace(_) => out.push(rule),
        CssRuleView::CustomMedia(_) => if context.custom_media is Some {
            out
        } else {
            out.push(rule)
        },
        CssRuleView::Style(style) => match minified_style(context.unused, style) {
            Some(kept) => absorb_style(out, kept),
            None => out,
        },
        CssRuleView::Media(media) => match minified_media(context, media) {
            Some(kept) => out.push(CssRuleView::Media(kept)),
            None => out,
        },
    }
}

/// What a list of rules is minified to: the rules taken in one after the other.
pub open spec fn minified(context: MinifyView, rules: Seq<CssRuleView>) -> Seq<CssRuleView>
    decreases rules.len(),
{
    if rules.len() == 0 {
        Seq::empty()
    } else {
        minify_rule(context, minified(context, rules.drop_last()), rules.last())
    }
}

/// The name that a rule refers to without its being defined, if there is one.
pub open spec fn rule_unresolved(
    lookup: Option<Map<Seq<char>, Seq<char>>>,
    rule: CssRuleView,
) -> Option<Seq<char>> {
    match rule {
        CssRuleView::Media(media) => unresolved_name(lookup, media.query),
        _ => None,
    }
}

/// The position of the first rule that refers to an undefined custom media query.
pub open spec fn first_unresolved(
    lookup: Option<Map<Seq<char>, Seq<char>>>,
    rules: Seq<CssRuleView>,
) -> Option<int>
    decreases rules.len(),
{
    if rules.len() == 0 {
        None
    } else {
        match first_unresolved(lookup, rules.drop_last()) {
            Some(i) => Some(i),
            None => if rule_unresolved(lookup, rules.last()) is Some {
                Some(rules.len() - 1)
            } else {
                None
            },
        }
    }
}

/// A first unresolved rule found among the first `k` rules is that of the whole list.
pub proof fn lemma_first_unresolved_stays(
    lookup: Option<Map<Seq<char>, Seq<char>>>,
    rules: Seq<CssRuleView>,
    k: int,
    i: int,
)
    requires
        0 <= k <= rules.len(),
        first_unresolved(lookup, rules.take(k)) == Some(i),
    ensures
        first_unresolved(lookup, rules) == Some(i),
    decreases rules.len() - k,
{
    if k == rules.len() {
        assert(rules.take(k) =~= rules);
    } else {
        assert(rules.take(k + 1).drop_last() =~= rules.take(k));
        lemma_first_unresolved_stays(lookup, rules, k + 1, i);
    }
}

impl Selector {
    /// Whether the selector asks for a class or an id that is known to be unused.
    pub fn is_unused(&self, unused: &SymbolSet) -> (known: bool)
        ensures
            known == selector_unused(unused@, *self),
    {
        let mut i: usize = 0;
        while i < self.components.len()
            invariant
                i <= self.components@.len(),
                forall|j: int| 0 <= j < i ==> !component_unused(unused@, self.components@[j]),
            decreases self.components.len() - i,
        {
            let found = match &self.components[i] {
                Component::Class(name) => unused.contains(name.as_str()),
                Component::Id(name) => unused.contains(name.as_str()),
                _ => false,
            };
            if found {
                return true;
            }
            i += 1;
        }
        false
    }
}

impl SelectorList {
    /// Whether a rule with these selectors can select nothing.
    pub fn is_unused(&self, unused: &SymbolSet) -> (known: bool)
        ensures
            known == selectors_unused(unused@, self.0@),
    {
        if unused.is_empty() {
            return false;
        }
        let mut i: usize = 0;
        while i < self.0.len()
            invariant
                i <= self.0@.len(),
                forall|j: int| 0 <= j < i ==> selector_unused(unused@, self.0@[j]),
            decreases self.0.len() - i,
        {
            if !self.0[i].is_unused(unused) {
                return false;
            }
            i += 1;
        }
        true
    }
}

/// Whether two lists hold the same declarations in the same order, none of them a
/// `composes` declaration.
fn entries_match(a: &Vec<Property>, b: &Vec<Property>) -> (same: bool)
    ensures
        same == same_entries(a@, b@),
{
    if a.len() != b.len() {
        return false;
    }
    let mut i: usize = 0;
    while i < a.len()
        invariant
            a@.len() == b@.len(),
            i <= a@.len(),
            forall|j: int| 0 <= j < i ==> supersedes(a@[j], b@[j]),
        decreases a.len() - i,
    {
        if !a[i].supersedes(&b[i]) {
            return false;
        }
        i += 1;
    }
    true
}

impl StyleRule {
    /// Minifies the rule, and says whether it is to be removed: it can select nothing,
    /// or it declares nothing.
    pub fn minify(&mut self, context: &MinifyContext) -> (remove: bool)
        ensures
            remove <==> minified_style(context@.unused, old(self)@) is None,
            !remove ==> final(self)@ == minified_style(context@.unused, old(self)@)->0,
    {
        if self.selectors.is_unused(context.unused_symbols) {
            return true;
        }
        if self.declarations.is_empty() {
            return true;
        }
        self.declarations.minify();
        false
    }

    /// Whether the rule declares the same as `other`, so that the two can be merged.
    pub fn declares_same(&self, other: &StyleRule) -> (same: bool)
        ensures
            same == can_merge(self@, other@),
    {
        entries_match(&self.declarations.declarations, &other.declarations.declarations)
            && entries_match(
            &self.declarations.important_declarations,
            &other.declarations.important_declarations,
        )
    }
}

impl MediaQuery {
    /// Replaces a custom media query by the text that it stands for, where custom media
    /// queries are to be resolved and the name is defined.
    pub fn resolve(&mut self, lookup: &Option<CustomMediaLookup>)
        ensures
            final(self)@ == resolved_query(
                match *lookup {
                    Some(queries) => Some(queries@),
                    None => None,
                },
                old(self)@,
            ),
    {
        let mut replacement: Option<String> = None;
        if let Some(queries) = lookup {
            if let MediaQuery::Custom(name) = &*self {
                if let Some(text) = queries.get(name.as_str()) {
                    replacement = Some(text.clone());
                }
            }
        }
        if let Some(text) = replacement {
            *self = MediaQuery::Raw(text);
        }
    }

    /// The name of the custom media query that the query refers to without the name
    /// being defined, where custom media queries are to be resolved.
    pub fn unresolved(&self, lookup: &Option<CustomMediaLookup>) -> (name: Option<&String>)
        ensures
            match name {
                Some(n) => unresolved_name(
                    match *lookup {
                        Some(queries) => Some(queries@),
                        None => None,
                    },
                    self@,
                ) == Some(n@),
                None => unresolved_name(
                    match *lookup {
                        Some(queries) => Some(queries@),
                        None => None,
                    },
                    self@,
                ) is None,
            },
    {
        if let Some(queries) = lookup {
            if let MediaQuery::Custom(name) = self {
                if queries.get(name.as_str()).is_none() {
                    return Some(name);
                }
            }
        }
        None
    }
}

impl MediaRule {
    /// Minifies the rule, and says whether it is to be removed because no rule is left
    /// inside. The rules inside are minified each on its own.
    pub fn minify(&mut self, context: &MinifyContext) -> (remove: bool)
        ensures
            remove <==> minified_media(context@, old(self)@) is None,
            !remove ==> final(self)@ == minified_media(context@, old(self)@)->0,
    {
        self.query.resolve(&context.custom_media);
        minify_styles(&mut self.rules, context);
        self.rules.len() == 0
    }
}

/// Minifies each of `rules` on its own and removes those that are to be removed.
fn minify_styles(rules: &mut Vec<StyleRule>, context: &MinifyContext)
    ensures
        style_views(final(rules)@) == minified_styles(context@.unused, style_views(old(rules)@)),
{
    let ghost unused = context@.unused;
    let ghost target = minified_styles(unused, style_views(rules@));
    let mut i: usize = 0;
    proof {
        let views = style_views(rules@);
        assert(views.skip(0) =~= views);
        assert(views.take(0) + minified_styles(unused, views.skip(0)) =~= target);
    }
    while i < rules.len()
        invariant
            i <= rules@.len(),
            unused == context@.unused,
            target == style_views(rules@).take(i as int) + minified_styles(
                unused,
                style_views(rules@).skip(i as int),
            ),
        decreases rules.len() - i,
    {
        let ghost before = style_views(rules@);
        let ghost rest = before.skip(i as int);
        assert(rest[0] == before[i as int]);
        assert(rest.drop_first() =~= before.skip(i + 1));
        let remove = rules[i].minify(context);
        let ghost changed = style_views(rules@);
        assert(changed.take(i as int) =~= before.take(i as int));
        assert(changed.skip(i + 1) =~= before.skip(i + 1));
        if remove {
            let _ = rules.remove(i);
            let ghost after = style_views(rules@);
            assert(after.take(i as int) =~= before.take(i as int));
            assert(after.skip(i as int) =~= before.skip(i + 1));
        } else {
            assert(changed.take(i + 1) =~= before.take(i as int) + seq![changed[i as int]]);
            assert(before.take(i as int) + (seq![changed[i as int]] + minified_styles(
                unused,
                before.skip(i + 1),
            )) =~= changed.take(i + 1) + minified_styles(unused, changed.skip(i + 1)));
            i += 1;
        }
    }
    proof {
        let views = style_views(rules@);
        assert(views.skip(views.len() as int) =~= Seq::<StyleRuleView>::empty());
        assert(views.take(views.len() as int) =~= views);
        assert(views + Seq::<StyleRuleView>::empty() =~= views);
    }
}

/// Takes the next rule into the rules minified so far.
fn absorb(out: &mut Vec<CssRule>, rule: CssRule, context: &MinifyContext)
    ensures
        rule_views(final(out)@) == minify_rule(context@, rule_views(old(out)@), rule@),
{
    let ghost before = rule_views(out@);
    match rule {
        CssRule::Ignored => {},
        CssRule::Namespace(namespace) => {
            out.push(CssRule::Namespace(namespace));
            assert(rule_views(out@) =~= before.push(rule@));
        },
        CssRule::CustomMedia(custom) => {
            if context.custom_media.is_none() {
                out.push(CssRule::CustomMedia(custom));
                assert(rule_views(out@) =~= before.push(rule@));
            }
        },
        CssRule::Media(media) => {
            let mut media = media;
            if !media.minify(context) {
                let ghost kept = media@;
                out.push(CssRule::Media(media));
                assert(rule_views(out@) =~= before.push(CssRuleView::Media(kept)));
            }
        },
        CssRule::Style(style) => {
            let mut style = style;
            if !style.minify(context) {
                absorb_style_rule(out, style);
            }
        },
    }
}

/// Puts a minified style rule after the rules minified so far, merging it into the
/// last of them where that is a style rule that declares the same.
fn absorb_style_rule(out: &mut Vec<CssRule>, style: StyleRule)
    ensures
        rule_views(final(out)@) == absorb_style(rule_views(old(out)@), style@),
{
    let ghost before = rule_views(out@);
    let ghost next = style@;
    let mut style = style;
    let n = out.len();
    let mut merge = false;
    if n > 0 {
        if let CssRule::Style(prev) = &out[n - 1] {
            merge = prev.declares_same(&style);
        }
    }
    if merge {
        let ghost prev = before[n - 1]->Style_0;
        let mut last = out.pop();
        if let Some(CssRule::Style(mut target)) = last {
            target.selectors.0.append(&mut style.selectors.0);
            assert(target@ == merged(prev, next));
            out.push(CssRule::Style(target));
            assert(rule_views(out@) =~= before.drop_last().push(
                CssRuleView::Style(merged(prev, next)),
            ));
        }
    } else {
        out.push(CssRule::Style(style));
        assert(rule_views(out@) =~= before.push(CssRuleView::Style(next)));
    }
}

impl CssRuleList {
    /// The first rule that refers to a custom media query that is not defined, where
    /// custom media queries are to be resolved: its position.
    pub fn find_unresolved(&self, context: &MinifyContext) -> (found: Option<usize>)
        ensures
            match found {
                Some(i) => first_unresolved(context@.custom_media, self@) == Some(i as int) && i
                    < self@.len() && rule_unresolved(context@.custom_media, self@[i as int]) is Some,
                None => first_unresolved(context@.custom_media, self@) is None,
            },
    {
        let ghost lookup = context@.custom_media;
        let ghost views = self@;
        let mut i: usize = 0;
        assert(views.take(0) =~= Seq::<CssRuleView>::empty());
        while i < self.0.len()
            invariant
                i <= self.0@.len(),
                views == self@,
                lookup == context@.custom_media,
                first_unresolved(lookup, views.take(i as int)) is None,
            decreases self.0.len() - i,
        {
            assert(views.take(i + 1).drop_last() =~= views.take(i as int));
            assert(views.take(i + 1).last() == views[i as int]);
            if let CssRule::Media(media) = &self.0[i] {
                if media.query.unresolved(&context.custom_media).is_some() {
                    proof {
                        lemma_first_unresolved_stays(lookup, views, i + 1, i as int);
                    }
                    return Some(i);
                }
            }
            i += 1;
        }
        assert(views.take(views.len() as int) =~= views);
        None
    }

    /// Minifies the rules in one pass.
    ///
    /// A style rule that can select nothing or declares nothing is removed, and so is a
    /// `@media` rule that is left empty. Of declarations that say the same only the last
    /// stays. A style rule that declares the same as the style rule before it is merged
    /// into that rule. Where custom media queries are to be resolved, each reference to
    /// one is replaced by its definition and the `@custom-media` rules are removed.
    ///
    /// A reference to a custom media query that is not defined is an error, found
    /// before any rule is touched.
    pub fn minify(&mut self, context: &MinifyContext) -> (result: Result<(), MinifyError>)
        ensures
            result is Err <==> first_unresolved(context@.custom_media, old(self)@) is Some,
            result matches Err(error) ==> {
                &&& *final(self) == *old(self)
                &&& first_unresolved(context@.custom_media, old(self)@) matches Some(i)
                &&& 0 <= i < old(self)@.len()
                &&& old(self)@[i] matches CssRuleView::Media(media)
                &&& error.loc == media.loc
                &&& error.kind matches MinifyErrorKind::CustomMediaNotDefined { name }
                &&& Some(name@) == rule_unresolved(context@.custom_media, old(self)@[i])
            },
            result is Ok ==> final(self)@ == minified(context@, old(self)@),
    {
        if let Some(i) = self.find_unresolved(context) {
            if let CssRule::Media(media) = &self.0[i] {
                if let Some(name) = media.query.unresolved(&context.custom_media) {
                    return Err(
                        MinifyError {
                            kind: MinifyErrorKind::CustomMediaNotDefined { name: name.clone() },
                            loc: media.loc,
                        },
                    );
                }
            }
        }
        let ghost views = self@;
        let mut rules: Vec<CssRule> = Vec::new();
        core::mem::swap(&mut rules, &mut self.0);
        let ghost taken = rules@;
        assert(rule_views(taken) == views);
        assert(views.take(0) =~= Seq::<CssRuleView>::empty());
        assert(rule_views(self.0@) =~= Seq::<CssRuleView>::empty());
        for rule in it: rules.into_iter()
            invariant
                it.seq() == taken,
                views == rule_views(taken),
                rule_views(self.0@) == minified(context@, views.take(it.index() as int)),
        {
            let ghost i = it.index() as int;
            assert(views.take(i + 1).drop_last() =~= views.take(i));
            assert(views.take(i + 1).last() == rule@);
            absorb(&mut self.0, rule, context);
        }
        assert(views.take(views.len() as int) =~= views);
        Ok(())
    }
}

/// Whether a style rule is as minification leaves it: it can select something, it
/// declares something, and none of its declarations is made void by a later one.
pub open spec fn style_is_minimal(unused: Set<Seq<char>>, rule: StyleRuleView) -> bool {
    &&& !selectors_unused(unused, rule.selectors)
    &&& rule.declarations.len() > 0 || rule.important_declarations.len() > 0
    &&& is_deduplicated(rule.declarations)
    &&& is_deduplicated(rule.important_declarations)
}

/// Whether each of the rules inside a rule is as minification leaves it.
pub open spec fn styles_are_minimal(unused: Set<Seq<char>>, rules: Seq<StyleRuleView>) -> bool {
    forall|i: int| 0 <= i < rules.len() ==> style_is_minimal(unused, #[trigger] rules[i])
}

/// Whether a rule is as minification leaves it.
pub open spec fn rule_is_minimal(context: MinifyView, rule: CssRuleView) -> bool {
    match rule {
        CssRuleView::Ignored => false,
        CssRuleView::Namespace(_) => true,
        CssRuleView::CustomMedia(_) => context.custom_media is None,
        CssRuleView::Style(style) => style_is_minimal(context.unused, style),
        CssRuleView::Media(media) => {
            &&& media.rules.len() > 0
            &&& styles_are_minimal(context.unused, media.rules)
            &&& resolved_query(context.custom_media, media.query) == media.query
        },
    }
}

/// Whether the rule at position `i` is a style rule that could be merged into the
/// style rule before it.
pub open spec fn mergeable_at(rules: Seq<CssRuleView>, i: int) -> bool {
    &&& rules[i - 1] is Style
    &&& rules[i] is Style
    &&& can_merge(rules[i - 1]->Style_0, rules[i]->Style_0)
}

/// Whether a list of rules is as minification leaves it: each rule is, and no style
/// rule declares the same as the style rule before it.
pub open spec fn is_minimal(context: MinifyView, rules: Seq<CssRuleView>) -> bool {
    &&& forall|i: int| 0 <= i < rules.len() ==> rule_is_minimal(context, #[trigger] rules[i])
    &&& forall|i: int| 0 < i < rules.len() ==> !#[trigger] mergeable_at(rules, i)
}

/// A minimal style rule is minified to itself.
pub proof fn lemma_minimal_style_fixed(unused: Set<Seq<char>>, rule: StyleRuleView)
    requires
        style_is_minimal(unused, rule),
    ensures
        minified_style(unused, rule) == Some(rule),
{
    lemma_keep_last_fixed(rule.declarations);
    lemma_keep_last_fixed(rule.important_declarations);
}

/// What a style rule is minified to is minimal.
pub proof fn lemma_minified_style_minimal(unused: Set<Seq<char>>, rule: StyleRuleView)
    requires
        minified_style(unused, rule) is Some,
    ensures
        style_is_minimal(unused, minified_style(unused, rule)->0),
{
    lemma_keep_last_deduplicated(rule.declarations);
    lemma_keep_last_deduplicated(rule.important_declarations);
    lemma_keep_last_members(rule.declarations);
    lemma_keep_last_members(rule.important_declarations);
}

/// Minimal rules inside a rule are minified to themselves.
pub proof fn lemma_minimal_styles_fixed(unused: Set<Seq<char>>, rules: Seq<StyleRuleView>)
    requires
        styles_are_minimal(unused, rules),
    ensures
        minified_styles(unused, rules) == rules,
    decreases rules.len(),
{
    if rules.len() > 0 {
        let rest = rules.drop_first();
        assert forall|i: int| 0 <= i < rest.len() implies style_is_minimal(
            unused,
            #[trigger] rest[i],
        ) by {
            assert(rest[i] == rules[i + 1]);
        }
        lemma_minimal_styles_fixed(unused, rest);
        lemma_minimal_style_fixed(unused, rules[0]);
        assert(seq![rules[0]] + rest =~= rules);
    }
}

/// What the rules inside a rule are minified to is minimal.
pub proof fn lemma_minified_styles_minimal(unused: Set<Seq<char>>, rules: Seq<StyleRuleView>)
    ensures
        styles_are_minimal(unused, minified_styles(unused, rules)),
    decreases rules.len(),
{
    if rules.len() > 0 {
        let rest = rules.drop_first();
        lemma_minified_styles_minimal(unused, rest);
        let tail = minified_styles(unused, rest);
        let all = minified_styles(unused, rules);
        match minified_style(unused, rules[0]) {
            Some(kept) => {
                lemma_minified_style_minimal(unused, rules[0]);
                assert forall|i: int| 0 <= i < all.len() implies style_is_minimal(
                    unused,
                    #[trigger] all[i],
                ) by {
                    if i > 0 {
                        assert(all[i] == tail[i - 1]);
                    }
                }
            },
            None => {},
        }
    }
}

/// The rules that one more rule is taken into stay minimal.
pub proof fn lemma_minify_rule_minimal(context: MinifyView, out: Seq<CssRuleView>, rule: CssRuleView)
    requires
        is_minimal(context, out),
    ensures
        is_minimal(context, minify_rule(context, out, rule)),
{
    let after = minify_rule(context, out, rule);
    match rule {
        CssRuleView::Ignored => {},
        CssRuleView::Namespace(_) => {
            lemma_pushed_minimal(context, out, rule);
        },
        CssRuleView::CustomMedia(_) => {
            if context.custom_media is None {
                lemma_pushed_minimal(context, out, rule);
            }
        },
        CssRuleView::Media(media) => {
            if let Some(kept) = minified_media(context, media) {
                lemma_minified_styles_minimal(context.unused, media.rules);
                lemma_pushed_minimal(context, out, CssRuleView::Media(kept));
            }
        },
        CssRuleView::Style(style) => {
            if let Some(kept) = minified_style(context.unused, style) {
                lemma_minified_style_minimal(context.unused, style);
                if out.len() > 0 && out.last() is Style && can_merge(out.last()->Style_0, kept) {
                    let prev = out.last()->Style_0;
                    let joined = merged(prev, kept);
                    assert(rule_is_minimal(context, out[out.len() - 1]));
                    assert(!selectors_unused(context.unused, joined.selectors)) by {
                        if selectors_unused(context.unused, joined.selectors) {
                            assert forall|i: int| 0 <= i < prev.selectors.len() implies selector_unused(
                                context.unused,
                                #[trigger] prev.selectors[i],
                            ) by {
                                assert(joined.selectors[i] == prev.selectors[i]);
                            }
                        }
                    }
                    assert forall|i: int| 0 <= i < after.len() implies rule_is_minimal(
                        context,
                        #[trigger] after[i],
                    ) by {
                        if i < out.len() - 1 {
                            assert(after[i] == out[i]);
                        }
                    }
                    assert forall|i: int| 0 < i < after.len() implies !#[trigger] mergeable_at(
                        after,
                        i,
                    ) by {
                        if i < out.len() - 1 {
                            assert(after[i] == out[i]);
                            assert(after[i - 1] == out[i - 1]);
                            assert(!mergeable_at(out, i));
                        } else {
                            assert(after[i - 1] == out[i - 1]);
                            assert(!mergeable_at(out, i));
                        }
                    }
                } else {
                    lemma_pushed_minimal(context, out, CssRuleView::Style(kept));
                }
            }
        },
    }
}

/// Minimal rules with a minimal rule put after them are minimal, unless that rule is
/// a style rule that could be merged into the last of them.
pub proof fn lemma_pushed_minimal(context: MinifyView, out: Seq<CssRuleView>, rule: CssRuleView)
    requires
        is_minimal(context, out),
        rule_is_minimal(context, rule),
        !(out.len() > 0 && out.last() is Style && rule is Style && can_merge(
            out.last()->Style_0,
            rule->Style_0,
        )),
    ensures
        is_minimal(context, out.push(rule)),
{
    let after = out.push(rule);
    assert forall|i: int| 0 <= i < after.len() implies rule_is_minimal(context, #[trigger] after[i]) by {
        if i < out.len() {
            assert(after[i] == out[i]);
        }
    }
    assert forall|i: int| 0 < i < after.len() implies !#[trigger] mergeable_at(after, i) by {
        if i < out.len() {
            assert(after[i] == out[i]);
            assert(after[i - 1] == out[i - 1]);
            assert(!mergeable_at(out, i));
        } else {
            assert(after[i - 1] == out.last());
        }
    }
}

/// What a list of rules is minified to is minimal.
pub proof fn lemma_minified_minimal(context: MinifyView, rules: Seq<CssRuleView>)
    ensures
        is_minimal(context, minified(context, rules)),
    decreases rules.len(),
{
    if rules.len() > 0 {
        lemma_minified_minimal(context, rules.drop_last());
        lemma_minify_rule_minimal(context, minified(context, rules.drop_last()), rules.last());
    }
}

/// Minification is a no-op on rules that are minimal already.
pub proof fn lemma_minimal_fixed(context: MinifyView, rules: Seq<CssRuleView>)
    requires
        is_minimal(context, rules),
    ensures
        minified(context, rules) == rules,
    decreases rules.len(),
{
    if rules.len() > 0 {
        let front = rules.drop_last();
        let last = rules.last();
        assert forall|i: int| 0 <= i < front.len() implies rule_is_minimal(
            context,
            #[trigger] front[i],
        ) by {
            assert(front[i] == rules[i]);
        }
        assert forall|i: int| 0 < i < front.len() implies !#[trigger] mergeable_at(front, i) by {
            assert(front[i] == rules[i]);
            assert(front[i - 1] == rules[i - 1]);
            assert(!mergeable_at(rules, i));
        }
        lemma_minimal_fixed(context, front);
        assert(rule_is_minimal(context, rules[rules.len() - 1]));
        match last {
            CssRuleView::Style(style) => {
                lemma_minimal_style_fixed(context.unused, style);
                if front.len() > 0 {
                    assert(front.last() == rules[rules.len() - 2]);
                    assert(!mergeable_at(rules, rules.len() - 1));
                }
            },
            CssRuleView::Media(media) => {
                lemma_minimal_styles_fixed(context.unused, media.rules);
            },
            _ => {},
        }
        assert(front.push(last) =~= rules);
    }
}

/// Minifying twice gives what minifying once gives.
pub proof fn lemma_minify_idempotent(context: MinifyView, rules: Seq<CssRuleView>)
    ensures
        minified(context, minified(context, rules)) == minified(context, rules),
{
    lemma_minified_minimal(context, rules);
    lemma_minimal_fixed(context, minified(context, rules));
}

} // verus!
