//! The `@media` rule and the `@custom-media` rule.

use crate::error::{Location, PrinterError, PrinterErrorKind};
use crate::printer::{is_error_at, with_place, with_text, Output, Printer, Scope};
use crate::properties::{space, BlockStyle};
use crate::rules::style::{
    block_end, printed_style, rule_composes, style_fails, StyleRule, StyleRuleView,
};
use vstd::prelude::*;
use vstd::string::*;

verus! {

/// A media query, as far as minification reads it.
#[derive(Debug)]
pub enum MediaQuery {
    /// A reference to a custom media query by its name, dashes included: `(--name)`.
    Custom(String),
    /// Any other query, as CSS text.
    Raw(String),
}

/// A `@custom-media` rule: a name for a media query.
#[derive(Debug)]
pub struct CustomMediaRule {
    /// The name of the query, dashes included.
    pub name: String,
    /// The media query that the name stands for, as CSS text.
    pub query: String,
    /// The location of the rule in the source file.
    pub loc: Location,
}

/// A `@media` rule.
#[derive(Debug)]
pub struct MediaRule {
    /// The media query.
    pub query: MediaQuery,
    /// The style rules within the `@media` rule.
    pub rules: Vec<StyleRule>,
    /// The location of the rule in the source file.
    pub loc: Location,
}

/// The mathematical value of a [`MediaQuery`].
pub enum MediaQueryView {
    Custom(Seq<char>),
    Raw(Seq<char>),
}

impl View for MediaQuery {
    type V = MediaQueryView;

    open spec fn view(&self) -> MediaQueryView {
        match *self {
            MediaQuery::Custom(name) => MediaQueryView::Custom(name@),
            MediaQuery::Raw(text) => MediaQueryView::Raw(text@),
        }
    }
}

/// The mathematical value of a [`MediaRule`].
pub struct MediaRuleView {
    pub query: MediaQueryView,
    pub rules: Seq<StyleRuleView>,
    pub loc: Location,
}

/// The views of a sequence of style rules.
pub open spec fn style_views(rules: Seq<StyleRule>) -> Seq<StyleRuleView> {
    Seq::new(rules.len(), |i: int| rules[i]@)
}

impl View for MediaRule {
    type V = MediaRuleView;

    open spec fn view(&self) -> MediaRuleView {
        MediaRuleView { query: self.query@, rules: style_views(self.rules@), loc: self.loc }
    }
}

/// The text of a media query.
pub open spec fn query_text(query: MediaQueryView) -> Seq<char> {
    match query {
        MediaQueryView::Custom(name) => "("@ + name + ")"@,
        MediaQueryView::Raw(text) => text,
    }
}

/// The text of a `@custom-media` rule.
pub open spec fn custom_media_text(rule: CustomMediaRule) -> Seq<char> {
    "@custom-media "@ + rule.name@ + " "@ + rule.query@ + ";"@
}

/// The output after a `@custom-media` rule was printed.
pub open spec fn printed_custom_media(out: Output, rule: CustomMediaRule) -> Output {
    with_text(with_place(out, rule.loc), custom_media_text(rule))
}

/// What stands before a rule inside another rule; `first` says whether it is the first.
pub open spec fn nested_before(minify: bool, first: bool) -> Seq<char> {
    if minify {
        Seq::empty()
    } else if first {
        "\n  "@
    } else {
        "\n\n  "@
    }
}

/// The output after the rules inside a `@media` rule were printed, one after the other.
pub open spec fn printed_nested(scope: Scope, minify: bool, out: Output, rules: Seq<StyleRuleView>) -> Output
    decreases rules.len(),
{
    if rules.len() == 0 {
        out
    } else {
        printed_style(
            scope,
            minify,
            BlockStyle::Nested,
            with_text(
                printed_nested(scope, minify, out, rules.drop_last()),
                nested_before(minify, rules.len() == 1),
            ),
            rules.last(),
        )
    }
}

/// The output after a `@media` rule was printed: the keyword and the query, and the
/// rules in braces.
pub open spec fn printed_media(scope: Scope, minify: bool, out: Output, rule: MediaRuleView) -> Output {
    with_text(
        printed_nested(
            scope,
            minify,
            with_text(
                with_place(out, rule.loc),
                "@media "@ + query_text(rule.query) + space(minify) + "{"@,
            ),
            rule.rules,
        ),
        block_end(BlockStyle::Block, minify),
    )
}

/// The place of the first `composes` declaration among the rules inside a rule.
pub open spec fn nested_composes(rules: Seq<StyleRuleView>) -> Option<Location>
    decreases rules.len(),
{
    if rules.len() == 0 {
        None
    } else if rule_composes(rules[0]) is Some {
        rule_composes(rules[0])
    } else {
        nested_composes(rules.drop_first())
    }
}

/// Whether a `@media` rule cannot be printed: under CSS modules `composes` cannot be
/// used by a rule inside another rule.
pub open spec fn media_fails(scope: Scope, rule: MediaRuleView) -> bool {
    scope is Some && nested_composes(rule.rules) is Some
}

/// Where none of the first `k` rules composes, the first place among all is the first
/// place among the others.
pub proof fn lemma_nested_composes_skip(rules: Seq<StyleRuleView>, k: int)
    requires
        0 <= k <= rules.len(),
        forall|j: int| 0 <= j < k ==> rule_composes(rules[j]) is None,
    ensures
        nested_composes(rules) == nested_composes(rules.skip(k)),
    decreases k,
{
    if k == 0 {
        assert(rules.skip(0) =~= rules);
    } else {
        assert(rules.drop_first().skip(k - 1) =~= rules.skip(k));
        lemma_nested_composes_skip(rules.drop_first(), k - 1);
    }
}

impl MediaQuery {
    /// Serializes the query.
    pub fn to_css(&self, dest: &mut Printer)
        ensures
            final(dest).text() == old(dest).text() + query_text(self@),
            final(dest).css_module == old(dest).css_module,
            final(dest).same_setup(old(dest)),
    {
        let ghost start = dest.text();
        match self {
            MediaQuery::Custom(name) => {
                dest.write_str("(");
                dest.write_str(name.as_str());
                dest.write_str(")");
                assert(dest.text() =~= start + ("("@ + name@ + ")"@));
            },
            MediaQuery::Raw(text) => {
                dest.write_str(text.as_str());
            },
        }
    }
}

impl CustomMediaRule {
    /// Serializes the rule.
    pub fn to_css(&self, dest: &mut Printer)
        ensures
            final(dest).output() == printed_custom_media(old(dest).output(), *self),
            final(dest).css_module == old(dest).css_module,
            final(dest).same_config(old(dest)),
    {
        let ghost start = dest.text();
        dest.add_mapping(self.loc);
        dest.write_str("@custom-media ");
        dest.write_str(self.name.as_str());
        dest.write_str(" ");
        dest.write_str(self.query.as_str());
        dest.write_str(";");
        assert(dest.text() =~= start + custom_media_text(*self));
    }
}

impl MediaRule {
    /// The place of the first `composes` declaration among the rules inside, if any.
    pub fn nested_composes(&self) -> (found: Option<Location>)
        ensures
            found == nested_composes(self@.rules),
    {
        let ghost views = self@.rules;
        let mut i: usize = 0;
        while i < self.rules.len()
            invariant
                i <= self.rules@.len(),
                views == style_views(self.rules@),
                forall|j: int| 0 <= j < i ==> rule_composes(views[j]) is None,
            decreases self.rules.len() - i,
        {
            let found = self.rules[i].first_composes();
            if found.is_some() {
                proof {
                    lemma_nested_composes_skip(views, i as int);
                    assert(views.skip(i as int)[0] == views[i as int]);
                }
                return found;
            }
            i += 1;
        }
        proof {
            lemma_nested_composes_skip(views, views.len() as int);
            assert(views.skip(views.len() as int) =~= Seq::<StyleRuleView>::empty());
        }
        None
    }

    /// Serializes the rule. Under CSS modules a rule inside that composes is rejected
    /// with `InvalidComposesNesting`, at the place of its `composes` declaration, before
    /// anything is written.
    pub fn to_css(&self, dest: &mut Printer) -> (result: Result<(), PrinterError>)
        requires
            old(dest).well_formed(),
        ensures
            final(dest).well_formed(),
            final(dest).same_config(old(dest)),
            result is Err <==> media_fails(old(dest).scope(), self@),
            result matches Err(error) ==> nested_composes(self@.rules) is Some && is_error_at(
                error,
                PrinterErrorKind::InvalidComposesNesting,
                old(dest).sources,
                nested_composes(self@.rules)->0,
            ) && final(dest).output() == old(dest).output(),
            result is Ok ==> final(dest).output() == printed_media(
                old(dest).scope(),
                old(dest).minify,
                old(dest).output(),
                self@,
            ),
    {
        let ghost scope = dest.scope();
        let ghost minify = dest.minify;
        let ghost views = self@.rules;
        let composing = self.nested_composes();
        if dest.css_module.is_some() {
            if let Some(loc) = composing {
                return Err(dest.error(PrinterErrorKind::InvalidComposesNesting, loc));
            }
        }
        dest.add_mapping(self.loc);
        dest.write_str("@media ");
        self.query.to_css(dest);
        dest.whitespace();
        dest.write_str("{");
        proof {
            reveal_strlit(" ");
        }
        let ghost head = dest.output();
        assert(head.text =~= old(dest).text() + ("@media "@ + query_text(self.query@) + space(minify)
            + "{"@));
        assert(head == with_text(
            with_place(old(dest).output(), self.loc),
            "@media "@ + query_text(self.query@) + space(minify) + "{"@,
        ));
        let n = self.rules.len();
        let mut i: usize = 0;
        assert(views.take(0) =~= Seq::<StyleRuleView>::empty());
        while i < n
            invariant
                n == self.rules@.len(),
                i <= n,
                views == style_views(self.rules@),
                dest.well_formed(),
                dest.same_config(old(dest)),
                scope == old(dest).scope(),
                minify == old(dest).minify,
                scope is Some ==> nested_composes(views) is None,
                dest.output() == printed_nested(scope, minify, head, views.take(i as int)),
            decreases n - i,
        {
            assert(views.take(i + 1).drop_last() =~= views.take(i as int));
            assert(views.take(i + 1).last() == self.rules@[i as int]@);
            let ghost before = dest.output();
            if !dest.minify {
                if i == 0 {
                    dest.write_str("\n  ");
                } else {
                    dest.write_str("\n\n  ");
                }
            } else {
                assert(dest.text() + Seq::<char>::empty() =~= dest.text());
            }
            assert(dest.output() == with_text(before, nested_before(minify, i == 0)));
            proof {
                if scope is Some {
                    lemma_nested_none(views, i as int);
                }
            }
            match self.rules[i].to_css(dest, BlockStyle::Nested) {
                Ok(_) => {},
                Err(error) => {
                    return Err(error);
                },
            }
            i += 1;
        }
        assert(views.take(n as int) =~= views);
        if dest.minify {
            dest.write_str("}");
        } else {
            dest.write_str("\n}");
        }
        Ok(())
    }
}

/// Where no rule inside composes at all, none of them does.
pub proof fn lemma_nested_none(rules: Seq<StyleRuleView>, i: int)
    requires
        0 <= i < rules.len(),
        nested_composes(rules) is None,
    ensures
        rule_composes(rules[i]) is None,
    decreases rules.len(),
{
    if i > 0 {
        assert(rules.drop_first()[i - 1] == rules[i]);
        lemma_nested_none(rules.drop_first(), i - 1);
    }
}

} // verus!
