//! CSS rules.

pub mod media;
pub mod minify;
pub mod names;
pub mod namespace;
pub mod style;

use crate::error::{Location, PrinterError, PrinterErrorKind};
use crate::printer::{is_error_at, with_text, Output, Printer, Scope};
use crate::properties::BlockStyle;
use crate::rules::media::{
    media_fails, nested_composes, printed_custom_media, printed_media, CustomMediaRule, MediaRule,
    MediaRuleView,
};
use crate::rules::namespace::{printed_namespace, NamespaceRule};
use crate::rules::style::{printed_style, rule_composes, style_fails, StyleRule, StyleRuleView};
use vstd::prelude::*;
use vstd::string::*;

verus! {

/// A CSS rule.
#[derive(Debug)]
pub enum CssRule {
    /// A `@media` rule.
    Media(MediaRule),
    /// A style rule.
    Style(StyleRule),
    /// A `@namespace` rule.
    Namespace(NamespaceRule),
    /// A `@custom-media` rule.
    CustomMedia(CustomMediaRule),
    /// A placeholder for a rule that was removed.
    Ignored,
}

/// The mathematical value of a [`CssRule`].
pub enum CssRuleView {
    Media(MediaRuleView),
    Style(StyleRuleView),
    Namespace(NamespaceRule),
    CustomMedia(CustomMediaRule),
    Ignored,
}

impl View for CssRule {
    type V = CssRuleView;

    open spec fn view(&self) -> CssRuleView {
        match *self {
            CssRule::Media(rule) => CssRuleView::Media(rule@),
            CssRule::Style(rule) => CssRuleView::Style(rule@),
            CssRule::Namespace(rule) => CssRuleView::Namespace(rule),
            CssRule::CustomMedia(rule) => CssRuleView::CustomMedia(rule),
            CssRule::Ignored => CssRuleView::Ignored,
        }
    }
}

/// A list of CSS rules.
#[derive(Debug)]
pub struct CssRuleList(pub Vec<CssRule>);

/// The views of a sequence of rules.
pub open spec fn rule_views(rules: Seq<CssRule>) -> Seq<CssRuleView> {
    Seq::new(rules.len(), |i: int| rules[i]@)
}

impl View for CssRuleList {
    type V = Seq<CssRuleView>;

    open spec fn view(&self) -> Seq<CssRuleView> {
        rule_views(self.0@)
    }
}

/// Why a rule cannot be printed, and where.
pub struct Failure {
    pub kind: PrinterErrorKind,
    pub loc: Location,
}

/// Why a rule cannot be printed, and where, if it cannot.
pub open spec fn rule_failure(scope: Scope, rule: CssRuleView) -> Option<Failure> {
    match rule {
        CssRuleView::Style(style) => if style_fails(scope, style) {
            Some(Failure { kind: PrinterErrorKind::InvalidComposesSelector, loc: rule_composes(style)->0 })
        } else {
            None
        },
        CssRuleView::Media(media) => if media_fails(scope, media) {
            Some(
                Failure {
                    kind: PrinterErrorKind::InvalidComposesNesting,
                    loc: nested_composes(media.rules)->0,
                },
            )
        } else {
            None
        },
        _ => None,
    }
}

/// The output after a rule was printed. A removed rule leaves no trace.
pub open spec fn printed_rule(scope: Scope, minify: bool, out: Output, rule: CssRuleView) -> Output {
    match rule {
        CssRuleView::Media(media) => printed_media(scope, minify, out, media),
        CssRuleView::Style(style) => printed_style(scope, minify, BlockStyle::Block, out, style),
        CssRuleView::Namespace(namespace) => printed_namespace(out, namespace),
        CssRuleView::CustomMedia(custom) => printed_custom_media(out, custom),
        CssRuleView::Ignored => out,
    }
}

/// What stands between two rules of a list: an empty line, unless the output is
/// minified.
pub open spec fn rule_separator(minify: bool) -> Seq<char> {
    if minify {
        Seq::empty()
    } else {
        "\n\n"@
    }
}

/// The output after the rules of a list were printed, one after the other. A rule that
/// was removed is passed over; any other rule but the first printed follows a separator.
pub open spec fn printed_rules(
    scope: Scope,
    minify: bool,
    out: Output,
    rules: Seq<CssRuleView>,
    any_before: bool,
) -> Output
    decreases rules.len(),
{
    if rules.len() == 0 {
        out
    } else {
        let before = printed_rules(scope, minify, out, rules.drop_last(), any_before);
        if rules.last() is Ignored {
            before
        } else if any_before || printed_any(rules.drop_last()) {
            printed_rule(scope, minify, with_text(before, rule_separator(minify)), rules.last())
        } else {
            printed_rule(scope, minify, before, rules.last())
        }
    }
}

/// Whether any rule among `rules` is printed.
pub open spec fn printed_any(rules: Seq<CssRuleView>) -> bool {
    exists|i: int| 0 <= i < rules.len() && !(#[trigger] rules[i] is Ignored)
}

/// The first rule of a list that cannot be printed: its position.
pub open spec fn first_failure(scope: Scope, rules: Seq<CssRuleView>) -> Option<int>
    decreases rules.len(),
{
    if rules.len() == 0 {
        None
    } else {
        match first_failure(scope, rules.drop_last()) {
            Some(i) => Some(i),
            None => if rule_failure(scope, rules.last()) is Some {
                Some(rules.len() - 1)
            } else {
                None
            },
        }
    }
}

impl CssRule {
    /// Serializes the rule.
    pub fn to_css(&self, dest: &mut Printer) -> (result: Result<(), PrinterError>)
        requires
            old(dest).well_formed(),
        ensures
            final(dest).well_formed(),
            final(dest).same_config(old(dest)),
            result is Err <==> rule_failure(old(dest).scope(), self@) is Some,
            result matches Err(error) ==> rule_failure(old(dest).scope(), self@) is Some
                && is_error_at(
                error,
                rule_failure(old(dest).scope(), self@)->0.kind,
                old(dest).sources,
                rule_failure(old(dest).scope(), self@)->0.loc,
            ),
            result is Ok ==> final(dest).output() == printed_rule(
                old(dest).scope(),
                old(dest).minify,
                old(dest).output(),
                self@,
            ),
    {
        match self {
            CssRule::Media(media) => media.to_css(dest),
            CssRule::Style(style) => style.to_css(dest, BlockStyle::Block),
            CssRule::Namespace(namespace) => {
                namespace.to_css(dest);
                Ok(())
            },
            CssRule::CustomMedia(custom) => {
                custom.to_css(dest);
                Ok(())
            },
            CssRule::Ignored => Ok(()),
        }
    }
}

impl CssRuleList {
    /// Serializes the rules, one after the other. The first rule that cannot be printed
    /// ends the pass with its error.
    pub fn to_css(&self, dest: &mut Printer) -> (result: Result<(), PrinterError>)
        requires
            old(dest).well_formed(),
        ensures
            final(dest).well_formed(),
            final(dest).same_config(old(dest)),
            result is Err <==> first_failure(old(dest).scope(), self@) is Some,
            result matches Err(error) ==> first_failure(old(dest).scope(), self@) matches Some(i)
                && 0 <= i < self@.len() && rule_failure(old(dest).scope(), self@[i]) is Some
                && is_error_at(
                error,
                rule_failure(old(dest).scope(), self@[i])->0.kind,
                old(dest).sources,
                rule_failure(old(dest).scope(), self@[i])->0.loc,
            ),
            result is Ok ==> final(dest).output() == printed_rules(
                old(dest).scope(),
                old(dest).minify,
                old(dest).output(),
                self@,
                false,
            ),
    {
        let ghost scope = dest.scope();
        let ghost minify = dest.minify;
        let ghost start = dest.output();
        let ghost views = self@;
        let n = self.0.len();
        let mut i: usize = 0;
        let mut any = false;
        assert(views.take(0) =~= Seq::<CssRuleView>::empty());
        while i < n
            invariant
                n == self.0@.len(),
                i <= n,
                views == self@,
                dest.well_formed(),
                dest.same_config(old(dest)),
                scope == old(dest).scope(),
                minify == old(dest).minify,
                start == old(dest).output(),
                any == printed_any(views.take(i as int)),
                first_failure(scope, views.take(i as int)) is None,
                dest.output() == printed_rules(scope, minify, start, views.take(i as int), false),
            decreases n - i,
        {
            let ghost done = views.take(i as int);
            let ghost next = views.take(i + 1);
            assert(next.drop_last() =~= done);
            assert(next.last() == self.0@[i as int]@);
            let ghost before = dest.output();
            if let CssRule::Ignored = &self.0[i] {
            } else {
                if any {
                    if !dest.minify {
                        dest.write_str("\n\n");
                    } else {
                        assert(dest.text() + Seq::<char>::empty() =~= dest.text());
                    }
                    assert(dest.output() == with_text(before, rule_separator(minify)));
                }
                match self.0[i].to_css(dest) {
                    Ok(_) => {},
                    Err(error) => {
                        proof {
                            lemma_first_failure_found(scope, views, i as int);
                        }
                        return Err(error);
                    },
                }
            }
            proof {
                if !(views[i as int] is Ignored) {
                    assert(next[i as int] == views[i as int]);
                    assert(printed_any(next));
                } else {
                    if printed_any(next) {
                        let j = choose|j: int| 0 <= j < next.len() && !(#[trigger] next[j] is Ignored);
                        assert(done[j] == next[j]);
                    }
                    if printed_any(done) {
                        let j = choose|j: int| 0 <= j < done.len() && !(#[trigger] done[j] is Ignored);
                        assert(next[j] == done[j]);
                    }
                }
            }
            any = any || !matches!(self.0[i], CssRule::Ignored);
            i += 1;
        }
        assert(views.take(n as int) =~= views);
        Ok(())
    }
}

/// Where no rule before position `i` fails and the rule at `i` does, `i` is the first
/// failure of the whole list.
pub proof fn lemma_first_failure_found(scope: Scope, rules: Seq<CssRuleView>, i: int)
    requires
        0 <= i < rules.len(),
        first_failure(scope, rules.take(i)) is None,
        rule_failure(scope, rules[i]) is Some,
    ensures
        first_failure(scope, rules) == Some(i),
    decreases rules.len() - i,
{
    assert(rules.take(i + 1).drop_last() =~= rules.take(i));
    assert(rules.take(i + 1).last() == rules[i]);
    assert(first_failure(scope, rules.take(i + 1)) == Some(i));
    lemma_first_failure_stays(scope, rules, i + 1, i);
}

/// A first failure found among the first `k` rules is the first failure of the list.
pub proof fn lemma_first_failure_stays(scope: Scope, rules: Seq<CssRuleView>, k: int, i: int)
    requires
        0 <= k <= rules.len(),
        first_failure(scope, rules.take(k)) == Some(i),
    ensures
        first_failure(scope, rules) == Some(i),
    decreases rules.len() - k,
{
    if k == rules.len() {
        assert(rules.take(k) =~= rules);
    } else {
        assert(rules.take(k + 1).drop_last() =~= rules.take(k));
        lemma_first_failure_stays(scope, rules, k + 1, i);
    }
}

} // verus!
