//! CSS style sheets and style attributes.
//!
//! A [StyleSheet](StyleSheet) represents a `.css` file or `<style>` element in HTML.
//! A [StyleAttribute](StyleAttribute) represents an inline `style` attribute in HTML.

use crate::context::{CustomMediaLookup, MinifyContext, MinifyView, SymbolSet};
use crate::css_modules::exports::{CssModuleExports, CssModuleReferences};
use crate::css_modules::hash::{hash, hash_spec};
use crate::css_modules::pattern::{base_name, base_name_of, Config};
use crate::css_modules::scope::{CssModule, ExportMap, Naming};
use crate::dependencies::Dependency;
use crate::error::{
    located, Error, ErrorLocation, MinifyErrorKind, ParseError, ParserError, PrinterError,
};
use crate::printer::{is_error_at, Mapping, Output, Printer, PrinterOptions, Scope};
use crate::properties::{block_text, keep_last, BlockStyle, DeclarationBlock};
use crate::rules::names::{lemma_rules_keep_names, names_are_compiled};
use crate::rules::minify::{
    first_unresolved, is_minimal, lemma_minified_minimal, lemma_minify_idempotent,
    lemma_minimal_fixed, minified, rule_unresolved,
};
use crate::rules::{
    first_failure, printed_rules, rule_failure, rule_views, CssRule, CssRuleList, CssRuleView,
};
use crate::targets::{Browsers, Feature};
use parcel_sourcemap::{SourceMap, SourceMapError};
use vstd::prelude::*;
use vstd::string::*;

verus! {

/// `parcel_sourcemap::SourceMap`: a source map. Nothing is known of what it holds.
#[verifier::external_type_specification]
#[verifier::external_body]
pub struct ExSourceMap(SourceMap);

/// `parcel_sourcemap::SourceMapError`: why a source map could not be read.
#[verifier::external_type_specification]
#[verifier::external_body]
pub struct ExSourceMapError(SourceMapError);

/// Whether `data_url` is a `data:` url that holds a source map as JSON which can be
/// read, with `project_root` as the directory that its sources are relative to: whether
/// `SourceMap::from_data_url` succeeds on the two.
pub uninterp spec fn reads_as_source_map(project_root: Seq<char>, data_url: Seq<char>) -> bool;

/// `SourceMap::from_data_url`: reads a source map from a `data:` url that holds it as
/// JSON. Whether it succeeds depends on the project root and the url alone; nothing is
/// said of which urls can be read, nor of what the source map holds.
pub assume_specification[ SourceMap::from_data_url ](
    project_root: &str,
    data_url: &str,
) -> (result: Result<SourceMap, SourceMapError>)
    ensures
        result is Ok <==> reads_as_source_map(project_root@, data_url@),
;

/// Options by which a style sheet is parsed.
#[derive(Debug)]
pub struct ParserOptions<'o> {
    /// The name of the source: what its rules and errors are located in.
    pub filename: String,
    /// Whether to enable CSS modules, and how.
    pub css_modules: Option<Config<'o>>,
    /// Whether `@custom-media` rules are read.
    pub custom_media: bool,
    /// Whether a rule that cannot be read is passed over with a warning instead of
    /// ending the parse with an error.
    pub error_recovery: bool,
    /// The warnings collected while parsing.
    pub warnings: Vec<Error<ParserError>>,
}

impl<'o> ParserOptions<'o> {
    /// Records a rule that could not be read.
    pub fn warn(&mut self, err: ParseError)
        ensures
            final(self).warnings@ == old(self).warnings@.push(located(err, old(self).filename)),
            final(self).filename == old(self).filename,
            final(self).css_modules == old(self).css_modules,
            final(self).custom_media == old(self).custom_media,
            final(self).error_recovery == old(self).error_recovery,
    {
        self.warnings.push(Error::from(err, self.filename.clone()));
    }
}

impl<'o> Default for ParserOptions<'o> {
    /// No file name, nothing switched on, no warnings.
    fn default() -> (options: Self)
        ensures
            options.filename@ == Seq::<char>::empty(),
            options.css_modules is None,
            !options.custom_media,
            !options.error_recovery,
            options.warnings@.len() == 0,
    {
        ParserOptions {
            filename: String::new(),
            css_modules: None,
            custom_media: false,
            error_recovery: false,
            warnings: Vec::new(),
        }
    }
}

/// A CSS style sheet, representing a `.css` file or inline `<style>` element.
///
/// A style sheet is built from parsed rules or from scratch. It can then be minified
/// and transformed for a set of target browsers, and serialized to a string.
#[derive(Debug)]
pub struct StyleSheet<'o> {
    /// A list of top-level rules within the style sheet.
    pub rules: CssRuleList,
    /// A list of file names for all source files included within the style sheet.
    /// Sources are referenced by index in the `loc` property of each rule.
    pub sources: Vec<String>,
    /// The source map URL extracted from each source file, by source index.
    pub source_map_urls: Vec<Option<String>>,
    /// The options the style sheet was originally parsed with.
    pub options: ParserOptions<'o>,
}

/// Options for the `minify` function of a [StyleSheet](StyleSheet)
/// or [StyleAttribute](StyleAttribute).
pub struct MinifyOptions {
    /// Browser targets to compile the CSS for.
    pub targets: Option<Browsers>,
    /// A list of known unused symbols, including CSS class names and ids.
    /// The declarations of these will be removed.
    pub unused_symbols: SymbolSet,
}

impl Default for MinifyOptions {
    /// No targets, no unused symbols.
    fn default() -> (options: Self)
        ensures
            options.targets is None,
            options.unused_symbols@ == Set::<Seq<char>>::empty(),
    {
        MinifyOptions { targets: None, unused_symbols: SymbolSet::new() }
    }
}

/// A result returned from `to_css`, including the serialized CSS
/// and other metadata depending on the input options.
pub struct ToCssResult {
    /// Serialized CSS code.
    pub code: String,
    /// A map of CSS module exports, if the `css_modules` option was
    /// enabled during parsing.
    pub exports: Option<CssModuleExports>,
    /// A map of CSS module references, if the pattern asks for dashed identifiers to
    /// be looked up. No configuration of this library does, so there is none.
    pub references: Option<CssModuleReferences>,
    /// A list of dependencies (e.g. `@import` or `url()`) found in
    /// the style sheet, if the `analyze_dependencies` option is enabled.
    pub dependencies: Option<Vec<Dependency>>,
    /// The places where the rules begin in the code, if a source map was asked for.
    pub mappings: Option<Vec<Mapping>>,
}

/// What the rule parser produced for one rule of a source.
pub type ParsedRule = Result<CssRule, ParseError>;

/// The rules that stay of what was parsed: those that were read and are no placeholders.
pub open spec fn kept_rules(outcomes: Seq<ParsedRule>) -> Seq<CssRule>
    decreases outcomes.len(),
{
    if outcomes.len() == 0 {
        Seq::empty()
    } else {
        match outcomes.last() {
            Ok(rule) => if rule is Ignored {
                kept_rules(outcomes.drop_last())
            } else {
                kept_rules(outcomes.drop_last()).push(rule)
            },
            Err(_) => kept_rules(outcomes.drop_last()),
        }
    }
}

/// The warnings for the rules that could not be read, in the order of the rules.
pub open spec fn warnings_of(outcomes: Seq<ParsedRule>, filename: String) -> Seq<Error<ParserError>>
    decreases outcomes.len(),
{
    if outcomes.len() == 0 {
        Seq::empty()
    } else {
        match outcomes.last() {
            Ok(_) => warnings_of(outcomes.drop_last(), filename),
            Err(err) => warnings_of(outcomes.drop_last(), filename).push(located(err, filename)),
        }
    }
}

/// The error of the first rule that could not be read.
pub open spec fn first_error(outcomes: Seq<ParsedRule>) -> Option<ParseError>
    decreases outcomes.len(),
{
    if outcomes.len() == 0 {
        None
    } else {
        match first_error(outcomes.drop_last()) {
            Some(err) => Some(err),
            None => match outcomes.last() {
                Ok(_) => None,
                Err(err) => Some(err),
            },
        }
    }
}

/// A first error found among the first `k` outcomes is the first error of all.
pub proof fn lemma_first_error_stays(outcomes: Seq<ParsedRule>, k: int)
    requires
        0 <= k <= outcomes.len(),
        first_error(outcomes.take(k)) is Some,
    ensures
        first_error(outcomes) == first_error(outcomes.take(k)),
    decreases outcomes.len() - k,
{
    if k == outcomes.len() {
        assert(outcomes.take(k) =~= outcomes);
    } else {
        assert(outcomes.take(k + 1).drop_last() =~= outcomes.take(k));
        lemma_first_error_stays(outcomes, k + 1);
    }
}

/// Whether custom media queries are to be resolved: the style sheet reads them, the
/// target browsers are known, and they do not support them.
pub open spec fn resolves_custom_media(enabled: bool, targets: Option<Browsers>) -> bool {
    enabled && targets is Some && !targets->0.custom_media_queries
}

/// The custom media queries that the top-level rules define, by name. Of two
/// definitions of one name the later one holds.
pub open spec fn custom_media_map(rules: Seq<CssRuleView>) -> Map<Seq<char>, Seq<char>>
    decreases rules.len(),
{
    if rules.len() == 0 {
        Map::empty()
    } else {
        match rules.last() {
            CssRuleView::CustomMedia(rule) => custom_media_map(rules.drop_last()).insert(
                rule.name@,
                rule.query@,
            ),
            _ => custom_media_map(rules.drop_last()),
        }
    }
}

/// What a printer has produced before it writes anything.
pub open spec fn blank_output(options: PrinterOptions) -> Output {
    Output {
        text: Seq::empty(),
        places: if options.source_map {
            Some(Seq::empty())
        } else {
            None
        },
        exports: ExportMap::empty(),
    }
}

/// The places of a result, as a sequence.
pub open spec fn result_places(result: ToCssResult) -> Option<Seq<Mapping>> {
    match result.mappings {
        Some(places) => Some(places@),
        None => None,
    }
}

impl<'o> StyleSheet<'o> {
    /// Creates a new style sheet with the given source filenames and rules.
    pub fn new(sources: Vec<String>, rules: CssRuleList, options: ParserOptions<'o>) -> (sheet:
        StyleSheet<'o>)
        ensures
            sheet.sources == sources,
            sheet.rules == rules,
            sheet.options == options,
            sheet.source_map_urls@.len() == 0,
    {
        StyleSheet { sources, source_map_urls: Vec::new(), rules, options }
    }

    /// Builds the style sheet of one source from what the rule parser produced for it:
    /// for each rule of the source either the rule or the error, in source order, and
    /// the source map URL found in a trailing comment, if there was one.
    ///
    /// A placeholder is passed over. A rule that could not be read is passed over with
    /// a warning where error recovery is enabled; otherwise the first such rule ends
    /// the parse with its error, located in the source.
    pub fn parse(
        outcomes: Vec<ParsedRule>,
        source_map_url: Option<String>,
        options: ParserOptions<'o>,
    ) -> (result: Result<StyleSheet<'o>, Error<ParserError>>)
        ensures
            result is Err <==> !options.error_recovery && first_error(outcomes@) is Some,
            result matches Err(error) ==> error == located(
                first_error(outcomes@)->0,
                options.filename,
            ),
            result matches Ok(sheet) ==> {
                &&& sheet.rules.0@ == kept_rules(outcomes@)
                &&& sheet.sources@ == seq![options.filename]
                &&& sheet.source_map_urls@ == seq![source_map_url]
                &&& sheet.options.filename == options.filename
                &&& sheet.options.css_modules == options.css_modules
                &&& sheet.options.custom_media == options.custom_media
                &&& sheet.options.error_recovery == options.error_recovery
                &&& sheet.options.warnings@ == options.warnings@ + warnings_of(
                    outcomes@,
                    options.filename,
                )
            },
    {
        let ghost given = options;
        let mut current = options;
        let ghost all = outcomes@;
        let mut rules: Vec<CssRule> = Vec::new();
        assert(all.take(0) =~= Seq::<ParsedRule>::empty());
        assert(given.warnings@ + Seq::<Error<ParserError>>::empty() =~= given.warnings@);
        for outcome in it: outcomes.into_iter()
            invariant
                it.seq() == all,
                all == outcomes@,
                given == options,
                current.filename == given.filename,
                current.css_modules == given.css_modules,
                current.custom_media == given.custom_media,
                current.error_recovery == given.error_recovery,
                rules@ == kept_rules(all.take(it.index() as int)),
                current.warnings@ == given.warnings@ + warnings_of(
                    all.take(it.index() as int),
                    given.filename,
                ),
                !current.error_recovery ==> first_error(all.take(it.index() as int)) is None,
        {
            let ghost i = it.index() as int;
            assert(all.take(i + 1).drop_last() =~= all.take(i));
            assert(all.take(i + 1).last() == outcome);
            match outcome {
                Ok(CssRule::Ignored) => {},
                Ok(rule) => {
                    rules.push(rule);
                },
                Err(err) => {
                    if current.error_recovery {
                        let ghost before = current.warnings@;
                        current.warn(err);
                        assert(given.warnings@ + warnings_of(all.take(i), given.filename).push(
                            located(err, given.filename),
                        ) =~= before.push(located(err, given.filename)));
                    } else {
                        proof {
                            assert(first_error(all.take(i + 1)) == Some(err));
                            lemma_first_error_stays(all, i + 1);
                        }
                        return Err(Error::from(err, current.filename.clone()));
                    }
                },
            }
        }
        assert(all.take(all.len() as int) =~= all);
        let mut sources: Vec<String> = Vec::new();
        sources.push(current.filename.clone());
        let mut source_map_urls: Vec<Option<String>> = Vec::new();
        source_map_urls.push(source_map_url);
        assert(sources@ =~= seq![given.filename]);
        assert(source_map_urls@ =~= seq![source_map_url]);
        Ok(StyleSheet { sources, source_map_urls, rules: CssRuleList(rules), options: current })
    }

    /// The source map URL of the source at the given index, as a sequence of characters.
    pub open spec fn spec_source_map_url(&self, source_index: int) -> Option<String> {
        if 0 <= source_index < self.source_map_urls@.len() {
            self.source_map_urls@[source_index]
        } else {
            None
        }
    }

    /// Returns the source map URL for the source at the given index.
    pub fn source_map_url(&self, source_index: usize) -> (url: Option<&String>)
        ensures
            match url {
                Some(found) => self.spec_source_map_url(source_index as int) == Some(*found),
                None => self.spec_source_map_url(source_index as int) is None,
            },
    {
        if source_index < self.source_map_urls.len() {
            self.source_map_urls[source_index].as_ref()
        } else {
            None
        }
    }

    /// Returns the inline source map associated with the source at the given index:
    /// the one that its source map URL holds, read with `/` as the project root. There
    /// is none where the source has no source map URL or the URL cannot be read.
    pub fn source_map(&self, source_index: usize) -> (map: Option<SourceMap>)
        ensures
            map is Some <==> (self.spec_source_map_url(source_index as int) matches Some(url)
                && reads_as_source_map("/"@, url@)),
    {
        match self.source_map_url(source_index) {
            Some(url) => Self::read_source_map(SourceMap::from_data_url("/", url.as_str())),
            None => None,
        }
    }

    /// What reading a source map URL comes to: the source map, or nothing where the URL
    /// could not be read.
    pub fn read_source_map(outcome: Result<SourceMap, SourceMapError>) -> (map: Option<SourceMap>)
        ensures
            map == (match outcome {
                Ok(read) => Some(read),
                Err(_) => None,
            }),
    {
        match outcome {
            Ok(read) => Some(read),
            Err(_) => None,
        }
    }

    /// The inline source maps of all sources, by source index: for each source what
    /// [`StyleSheet::source_map`] gives for it.
    pub fn source_maps(&self) -> (maps: Vec<Option<SourceMap>>)
        ensures
            maps@.len() == self.sources@.len(),
            forall|i: int|
                0 <= i < maps@.len() ==> ((#[trigger] maps@[i]) is Some <==> (
                self.spec_source_map_url(i) matches Some(url) && reads_as_source_map("/"@, url@))),
    {
        let mut maps: Vec<Option<SourceMap>> = Vec::new();
        let mut i: usize = 0;
        while i < self.sources.len()
            invariant
                i <= self.sources@.len(),
                maps@.len() == i,
                forall|j: int|
                    0 <= j < i ==> ((#[trigger] maps@[j]) is Some <==> (self.spec_source_map_url(
                        j,
                    ) matches Some(url) && reads_as_source_map("/"@, url@))),
            decreases self.sources.len() - i,
        {
            maps.push(self.source_map(i));
            i += 1;
        }
        maps
    }

    /// What a minification pass over this style sheet works with under `options`.
    pub open spec fn minify_view(&self, options: MinifyOptions) -> MinifyView {
        MinifyView {
            unused: options.unused_symbols@,
            custom_media: if resolves_custom_media(self.options.custom_media, options.targets) {
                Some(custom_media_map(self.rules@))
            } else {
                None
            },
        }
    }

    /// The custom media queries that the top-level rules define. A `@custom-media` rule
    /// may stand after the rules that refer to it, so the table is made before the pass.
    pub fn custom_media(&self) -> (lookup: CustomMediaLookup)
        ensures
            lookup@ == custom_media_map(self.rules@),
    {
        let ghost views = self.rules@;
        let mut lookup = CustomMediaLookup::new();
        let mut i: usize = 0;
        assert(views.take(0) =~= Seq::<CssRuleView>::empty());
        while i < self.rules.0.len()
            invariant
                i <= self.rules.0@.len(),
                views == self.rules@,
                lookup@ == custom_media_map(views.take(i as int)),
            decreases self.rules.0.len() - i,
        {
            assert(views.take(i + 1).drop_last() =~= views.take(i as int));
            assert(views.take(i + 1).last() == views[i as int]);
            if let CssRule::CustomMedia(rule) = &self.rules.0[i] {
                lookup.insert(rule.name.as_str(), rule.query.as_str());
            }
            i += 1;
        }
        assert(views.take(views.len() as int) =~= views);
        lookup
    }

    /// Minify and transform the style sheet for the provided browser targets.
    ///
    /// Where the style sheet reads custom media queries and the target browsers are
    /// known not to support them, the definitions are collected first and resolved in
    /// the pass. Then the rules are minified in one pass. An error is located in the
    /// source of the rule that it occurred in, and leaves the style sheet as it was.
    /// What the pass leaves is minimal: the same pass over it changes nothing.
    pub fn minify(&mut self, options: MinifyOptions) -> (result: Result<(), Error<MinifyErrorKind>>)
        requires
            resolves_custom_media(old(self).options.custom_media, options.targets) ==> (
            first_unresolved(Some(custom_media_map(old(self).rules@)), old(self).rules@) matches Some(
                i,
            ) ==> 0 <= i < old(self).rules@.len() && (old(self).rules@[i] matches CssRuleView::Media(
                media,
            ) ==> media.loc.source_index < old(self).sources@.len())),
        ensures
            result is Err <==> first_unresolved(
                old(self).minify_view(options).custom_media,
                old(self).rules@,
            ) is Some,
            result matches Err(error) ==> {
                &&& *final(self) == *old(self)
                &&& first_unresolved(
                    old(self).minify_view(options).custom_media,
                    old(self).rules@,
                ) matches Some(i)
                &&& old(self).rules@[i] matches CssRuleView::Media(media)
                &&& error.kind matches MinifyErrorKind::CustomMediaNotDefined { name }
                &&& Some(name@) == rule_unresolved(
                    old(self).minify_view(options).custom_media,
                    old(self).rules@[i],
                )
                &&& error.loc matches Some(place)
                &&& place.filename == old(self).sources@[media.loc.source_index as int]
                &&& place.line == media.loc.line
                &&& place.column == media.loc.column
            },
            !resolves_custom_media(old(self).options.custom_media, options.targets) ==> result is Ok,
            result is Ok ==> {
                &&& final(self).rules@ == minified(old(self).minify_view(options), old(self).rules@)
                &&& is_minimal(old(self).minify_view(options), final(self).rules@)
                &&& minified(old(self).minify_view(options), final(self).rules@) == final(self).rules@
                &&& final(self).sources == old(self).sources
                &&& final(self).source_map_urls == old(self).source_map_urls
                &&& final(self).options == old(self).options
            },
    {
        let custom_media = if self.options.custom_media && options.targets.is_some()
            && !Feature::CustomMediaQueries.is_compatible(options.targets.unwrap()) {
            Some(self.custom_media())
        } else {
            None
        };
        let context = MinifyContext {
            targets: &options.targets,
            unused_symbols: &options.unused_symbols,
            custom_media,
            css_modules: self.options.css_modules.is_some(),
        };
        assert(context@ == old(self).minify_view(options));
        proof {
            if !resolves_custom_media(self.options.custom_media, options.targets) {
                lemma_nothing_unresolved(self.rules@);
            }
            lemma_minified_minimal(context@, self.rules@);
            lemma_minify_idempotent(context@, self.rules@);
        }
        match self.rules.minify(&context) {
            Ok(_) => Ok(()),
            Err(error) => Err(
                Error {
                    kind: error.kind,
                    loc: Some(
                        ErrorLocation::new(
                            error.loc,
                            self.sources[error.loc.source_index as usize].clone(),
                        ),
                    ),
                },
            ),
        }
    }

    /// How the names of this style sheet are compiled: by the pattern of the
    /// configuration, with the hash and the base name of the first source.
    pub open spec fn scope(&self) -> Scope {
        match self.options.css_modules {
            Some(config) => Some(
                Naming {
                    pattern: config.pattern@,
                    hash: hash_spec(self.sources@[0]@),
                    name: base_name_of(self.sources@[0]@),
                },
            ),
            None => None,
        }
    }

    /// What printing the rules of this style sheet produces.
    pub open spec fn printed(&self, options: PrinterOptions) -> Output {
        printed_rules(self.scope(), options.minify, blank_output(options), self.rules@, false)
    }

    /// Serialize the style sheet to a CSS string.
    ///
    /// The rules are printed in one pass, and a new line is written after them. With
    /// CSS modules the names are compiled by the pattern, with the hash and the base
    /// name of the first source, and the export table filled in the pass is handed
    /// over in the result.
    pub fn to_css(&self, options: PrinterOptions) -> (result: Result<ToCssResult, PrinterError>)
        requires
            self.options.css_modules is Some ==> self.sources@.len() > 0,
        ensures
            result is Err <==> first_failure(self.scope(), self.rules@) is Some,
            result matches Err(error) ==> first_failure(self.scope(), self.rules@) matches Some(i)
                && 0 <= i < self.rules@.len() && rule_failure(self.scope(), self.rules@[i]) is Some
                && is_error_at(
                error,
                rule_failure(self.scope(), self.rules@[i])->0.kind,
                Some(&self.sources),
                rule_failure(self.scope(), self.rules@[i])->0.loc,
            ),
            result matches Ok(output) ==> {
                &&& output.code@ == self.printed(options).text + "\n"@
                &&& result_places(output) == self.printed(options).places
                &&& output.exports is Some <==> self.options.css_modules is Some
                &&& output.exports matches Some(exports) ==> exports.well_formed() && exports@
                    == self.printed(options).exports && names_are_compiled(
                    self.scope()->0,
                    exports@,
                )
                &&& output.references is None
                &&& output.dependencies is Some <==> options.analyze_dependencies
                &&& output.dependencies matches Some(found) ==> found@.len() == 0
            },
    {
        let mut printer = Printer::new(options);
        printer.sources = Some(&self.sources);
        if let Some(config) = &self.options.css_modules {
            let source = self.sources[0].as_str();
            printer.css_module = Some(
                CssModule::new(config, String::from_str(base_name(source)), hash(source)),
            );
        }
        assert(printer.output() == blank_output(options));
        assert(printer.scope() == self.scope());
        proof {
            if let Some(naming) = self.scope() {
                lemma_rules_keep_names(
                    naming,
                    options.minify,
                    blank_output(options),
                    self.rules@,
                    false,
                );
            }
        }
        match self.rules.to_css(&mut printer) {
            Ok(_) => {},
            Err(error) => {
                return Err(error);
            },
        }
        printer.write_str("\n");
        let Printer { dest, css_module, dependencies, mappings, .. } = printer;
        match css_module {
            Some(module) => Ok(
                ToCssResult {
                    code: dest,
                    exports: Some(module.into_exports()),
                    references: None,
                    dependencies,
                    mappings,
                },
            ),
            None => Ok(
                ToCssResult { code: dest, exports: None, references: None, dependencies, mappings },
            ),
        }
    }
}

/// An inline style attribute, as in HTML or SVG.
///
/// Style attributes can be minified and transformed for a set of target browsers,
/// and serialized to a string.
#[derive(Debug)]
pub struct StyleAttribute {
    /// The declarations in the style attribute.
    pub declarations: DeclarationBlock,
    /// The file names of the sources: the one that the attribute was parsed from.
    pub sources: Vec<String>,
}

impl StyleAttribute {
    /// Builds a style attribute from what the declaration parser produced: the
    /// declarations, or the error. An error is reported without a file name.
    pub fn parse(parsed: Result<DeclarationBlock, ParseError>, options: ParserOptions<'_>) -> (result:
        Result<StyleAttribute, Error<ParserError>>)
        ensures
            result is Ok <==> parsed is Ok,
            result matches Ok(attribute) ==> attribute.declarations == parsed->Ok_0
                && attribute.sources@ == seq![options.filename],
            result matches Err(error) ==> {
                &&& error.kind == parsed->Err_0.kind
                &&& error.loc matches Some(place)
                &&& place.filename@ == Seq::<char>::empty()
                &&& place.line == parsed->Err_0.line
                &&& place.column == parsed->Err_0.column
            },
    {
        match parsed {
            Ok(declarations) => {
                let mut sources: Vec<String> = Vec::new();
                sources.push(options.filename);
                assert(sources@ =~= seq![options.filename]);
                Ok(StyleAttribute { declarations, sources })
            },
            Err(err) => Err(Error::from(err, String::new())),
        }
    }

    /// Minify and transform the style attribute for the provided browser targets: of
    /// declarations that say the same, only the last one stays.
    pub fn minify(&mut self, options: MinifyOptions)
        ensures
            final(self).declarations.declarations@ == keep_last(old(self).declarations.declarations@),
            final(self).declarations.important_declarations@ == keep_last(
                old(self).declarations.important_declarations@,
            ),
            final(self).sources == old(self).sources,
    {
        self.declarations.minify();
    }

    /// Serializes the style attribute to a CSS string: the declarations on one line,
    /// the `!important` ones last. There are no exports and no references, and no
    /// source map can be had.
    pub fn to_css(&self, options: PrinterOptions) -> (result: Result<ToCssResult, PrinterError>)
        requires
            !options.source_map,
        ensures
            result matches Ok(output) && {
                &&& output.code@ == block_text(
                    BlockStyle::Inline,
                    options.minify,
                    false,
                    self.declarations.declarations@,
                    self.declarations.important_declarations@,
                )
                &&& output.exports is None
                &&& output.references is None
                &&& output.mappings is None
                &&& output.dependencies is Some <==> options.analyze_dependencies
                &&& output.dependencies matches Some(found) ==> found@.len() == 0
            },
    {
        let mut printer = Printer::new(options);
        printer.sources = Some(&self.sources);
        self.declarations.to_css(&mut printer);
        let Printer { dest, dependencies, .. } = printer;
        assert(Seq::<char>::empty() + block_text(
            BlockStyle::Inline,
            options.minify,
            false,
            self.declarations.declarations@,
            self.declarations.important_declarations@,
        ) =~= block_text(
            BlockStyle::Inline,
            options.minify,
            false,
            self.declarations.declarations@,
            self.declarations.important_declarations@,
        ));
        Ok(ToCssResult { code: dest, exports: None, references: None, dependencies, mappings: None })
    }
}

/// Minifying without targets and without unused symbols changes nothing in rules that
/// are minimal already, always leaves minimal rules, and done twice gives what it
/// gives done once: the rules, and so the text that they are printed as.
pub proof fn lemma_plain_minify(sheet: StyleSheet, options: MinifyOptions, printer: PrinterOptions)
    requires
        options.targets is None,
        options.unused_symbols@ == Set::<Seq<char>>::empty(),
    ensures
        sheet.minify_view(options) == (MinifyView { unused: Set::empty(), custom_media: None }),
        first_unresolved(sheet.minify_view(options).custom_media, sheet.rules@) is None,
        is_minimal(sheet.minify_view(options), sheet.rules@) ==> minified(
            sheet.minify_view(options),
            sheet.rules@,
        ) == sheet.rules@,
        is_minimal(sheet.minify_view(options), minified(sheet.minify_view(options), sheet.rules@)),
        minified(sheet.minify_view(options), minified(sheet.minify_view(options), sheet.rules@))
            == minified(sheet.minify_view(options), sheet.rules@),
        printed_rules(
            sheet.scope(),
            printer.minify,
            blank_output(printer),
            minified(sheet.minify_view(options), minified(sheet.minify_view(options), sheet.rules@)),
            false,
        ) == printed_rules(
            sheet.scope(),
            printer.minify,
            blank_output(printer),
            minified(sheet.minify_view(options), sheet.rules@),
            false,
        ),
{
    let view = sheet.minify_view(options);
    lemma_minified_minimal(view, sheet.rules@);
    lemma_minify_idempotent(view, sheet.rules@);
    lemma_nothing_unresolved(sheet.rules@);
    if is_minimal(view, sheet.rules@) {
        lemma_minimal_fixed(view, sheet.rules@);
    }
}

/// Where custom media queries are not resolved, no reference to one is an error.
pub proof fn lemma_nothing_unresolved(rules: Seq<CssRuleView>)
    ensures
        first_unresolved(None, rules) is None,
    decreases rules.len(),
{
    if rules.len() > 0 {
        lemma_nothing_unresolved(rules.drop_last());
    }
}

} // verus!
