use lightningcss::context::SymbolSet;
use lightningcss::css_modules::{hash, Config, CssModuleReference, Pattern};
use lightningcss::error::{
    Error, Location, MinifyErrorKind, ParseError, ParserError, PrinterErrorKind,
};
use lightningcss::printer::{position, Printer, PrinterOptions};
use lightningcss::properties::{
    Composes, ComposesFrom, CustomIdent, CustomProperty, DeclarationBlock, Property,
};
use lightningcss::rules::media::{CustomMediaRule, MediaQuery, MediaRule};
use lightningcss::rules::namespace::NamespaceRule;
use lightningcss::rules::style::StyleRule;
use lightningcss::rules::{CssRule, CssRuleList};
use lightningcss::selector::{Combinator, Component, Selector, SelectorList};
use lightningcss::stylesheet::{
    MinifyOptions, ParserOptions, StyleAttribute, StyleSheet, ToCssResult,
};
use lightningcss::targets::{Browsers, Feature};

fn at(line: u32, column: u32) -> Location {
    Location { source_index: 0, line, column }
}

fn class(name: &str) -> Selector {
    Selector { components: vec![Component::Class(name.to_string())] }
}

fn decl(name: &str, value: &str) -> Property {
    Property::Custom(CustomProperty { name: name.to_string(), value: value.to_string() })
}

fn composes(names: &[&str], from: Option<ComposesFrom>, loc: Location) -> Property {
    Property::Composes(Composes {
        names: names.iter().map(|name| CustomIdent(name.to_string())).collect(),
        from,
        loc,
    })
}

fn style(selectors: Vec<Selector>, declarations: Vec<Property>, loc: Location) -> StyleRule {
    StyleRule {
        selectors: SelectorList(selectors),
        declarations: DeclarationBlock { important_declarations: vec![], declarations },
        loc,
    }
}

fn options(filename: &str) -> ParserOptions<'static> {
    ParserOptions {
        filename: filename.to_string(),
        css_modules: None,
        custom_media: false,
        error_recovery: false,
        warnings: vec![],
    }
}

fn sheet(rules: Vec<CssRule>) -> StyleSheet<'static> {
    StyleSheet::new(vec!["test.css".to_string()], CssRuleList(rules), options("test.css"))
}

fn print(sheet: &StyleSheet, minify: bool) -> String {
    let printed = sheet
        .to_css(PrinterOptions { minify, source_map: false, analyze_dependencies: false })
        .unwrap();
    printed.code
}

fn failure<T, E>(result: Result<T, E>) -> E {
    match result {
        Ok(_) => panic!("the call succeeded"),
        Err(error) => error,
    }
}

fn escaped(name: &str) -> String {
    let mut text = String::new();
    cssparser::serialize_identifier(name, &mut text).unwrap();
    text
}

fn foo_and_bar() -> Vec<CssRule> {
    vec![
        CssRule::Style(style(vec![class("foo")], vec![decl("color", "red")], at(0, 1))),
        CssRule::Style(style(vec![class("bar")], vec![decl("color", "red")], at(4, 1))),
    ]
}

#[test]
fn rules_that_declare_the_same_are_merged() {
    let mut stylesheet = sheet(foo_and_bar());
    stylesheet.minify(MinifyOptions::default()).unwrap();
    assert_eq!(print(&stylesheet, false), ".foo, .bar {\n  color: red;\n}\n");
    assert_eq!(print(&stylesheet, true), ".foo,.bar{color:red}\n");
}

#[test]
fn rules_are_separated_by_an_empty_line() {
    let stylesheet = sheet(foo_and_bar());
    assert_eq!(
        print(&stylesheet, false),
        ".foo {\n  color: red;\n}\n\n.bar {\n  color: red;\n}\n"
    );
    assert_eq!(print(&stylesheet, true), ".foo{color:red}.bar{color:red}\n");
}

#[test]
fn empty_sheet_prints_a_new_line() {
    assert_eq!(print(&sheet(vec![]), false), "\n");
    assert_eq!(print(&sheet(vec![CssRule::Ignored]), true), "\n");
}

#[test]
fn printing_does_not_change_the_sheet() {
    let stylesheet = sheet(foo_and_bar());
    let first = print(&stylesheet, false);
    let second = print(&stylesheet, false);
    assert_eq!(first, second);
}

#[test]
fn end_to_end_module_scoping() {
    let config = Config::default();
    let mut parser_options = options("test.css");
    parser_options.css_modules = Some(config);
    let parsed = vec![
        Ok(CssRule::Style(style(vec![class("foo")], vec![decl("color", "red")], at(0, 1)))),
        Ok(CssRule::Style(style(
            vec![class("bar")],
            vec![composes(&["foo"], None, at(1, 6)), decl("color", "red")],
            at(1, 1),
        ))),
    ];
    let stylesheet = StyleSheet::parse(parsed, None, parser_options).unwrap();
    let result: ToCssResult = stylesheet.to_css(PrinterOptions::default()).unwrap();
    let token = hash("test.css");
    let foo = format!("{}_foo", token);
    let bar = format!("{}_bar", token);
    let exports = result.exports.unwrap();
    assert_eq!(exports.len(), 2);
    assert_eq!(exports.get("foo").unwrap().name, foo);
    assert_eq!(exports.get("bar").unwrap().name, bar);
    assert_ne!(foo, bar);
    assert_eq!(
        exports.get("bar").unwrap().composes,
        vec![CssModuleReference::Local { name: foo.clone() }]
    );
    assert!(exports.get("foo").unwrap().is_referenced);
    assert!(!exports.get("bar").unwrap().is_referenced);
    assert!(exports.get("foo").unwrap().composes.is_empty());
    assert_eq!(
        result.code,
        format!(
            ".{} {{\n  color: red;\n}}\n\n.{} {{\n  color: red;\n}}\n",
            escaped(&foo),
            escaped(&bar)
        )
    );
    assert!(!result.code.contains("composes"));
    assert!(!result.code.contains(".foo"));
    assert!(!result.code.contains(".bar"));
    assert!(result.references.is_none());
    assert!(result.dependencies.is_none());
    assert!(result.mappings.is_none());
}

#[test]
fn module_scoping_with_a_custom_pattern() {
    let mut parser_options = options("a.css");
    parser_options.css_modules =
        Some(Config { pattern: Pattern::parse("m-[local]").unwrap() });
    let stylesheet = StyleSheet::new(
        vec!["a.css".to_string()],
        CssRuleList(vec![CssRule::Style(style(
            vec![Selector {
                components: vec![
                    Component::LocalName("div".to_string()),
                    Component::Class("box".to_string()),
                    Component::Combinator(Combinator::Child),
                    Component::Id("main".to_string()),
                ],
            }],
            vec![decl("color", "red")],
            at(0, 1),
        ))]),
        parser_options,
    );
    let result = stylesheet
        .to_css(PrinterOptions { minify: true, source_map: false, analyze_dependencies: true })
        .unwrap();
    assert_eq!(result.code, "div.m-box>#m-main{color:red}\n");
    let exports = result.exports.unwrap();
    assert_eq!(exports.get("box").unwrap().name, "m-box");
    assert_eq!(exports.get("main").unwrap().name, "m-main");
    assert_eq!(result.dependencies.unwrap().len(), 0);
}

#[test]
fn module_scoping_with_the_name_of_the_source() {
    let mut parser_options = options("src/app.module.css");
    parser_options.css_modules =
        Some(Config { pattern: Pattern::parse("[name]__[local]").unwrap() });
    let stylesheet = StyleSheet::new(
        vec!["src/app.module.css".to_string()],
        CssRuleList(vec![CssRule::Style(style(
            vec![class("box")],
            vec![decl("color", "red")],
            at(0, 1),
        ))]),
        parser_options,
    );
    let result = stylesheet
        .to_css(PrinterOptions { minify: true, source_map: false, analyze_dependencies: false })
        .unwrap();
    let exports = result.exports.unwrap();
    assert_eq!(exports.get("box").unwrap().name, "app.module__box");
    assert_eq!(result.code, format!(".{}{{color:red}}\n", escaped("app.module__box")));
    assert_eq!(result.code, ".app\\.module__box{color:red}\n");
    assert!(result.references.is_none());
}

#[test]
fn compiled_name_is_escaped_as_a_whole() {
    let mut parser_options = options("a.css");
    parser_options.css_modules = Some(Config { pattern: Pattern::parse("x[local]").unwrap() });
    let stylesheet = StyleSheet::new(
        vec!["a.css".to_string()],
        CssRuleList(vec![CssRule::Style(style(
            vec![class("1a")],
            vec![decl("color", "red")],
            at(0, 1),
        ))]),
        parser_options,
    );
    let result = stylesheet
        .to_css(PrinterOptions { minify: true, source_map: false, analyze_dependencies: false })
        .unwrap();
    assert_eq!(result.code, ".x1a{color:red}\n");
    assert_eq!(result.exports.unwrap().get("1a").unwrap().name, "x1a");
}

#[test]
fn position_counts_lines_and_bytes_of_the_line() {
    let code = "ab\ncd\u{e9}f\n\ng";
    assert_eq!(position(code, 0), (0, 0));
    assert_eq!(position(code, 2), (0, 2));
    assert_eq!(position(code, 3), (1, 0));
    assert_eq!(position(code, 8), (1, 5));
    assert_eq!(position(code, 9), (2, 0));
    assert_eq!(position(code, 10), (3, 0));
    assert_eq!(position(code, 11), (3, 1));
    assert_eq!(position(code, 500), (3, 1));
    assert_eq!(position("", 0), (0, 0));
    assert_eq!(position("", 7), (0, 0));
}

#[test]
fn without_modules_there_are_no_exports_and_composes_is_printed() {
    let stylesheet = sheet(vec![CssRule::Style(style(
        vec![class("bar")],
        vec![
            composes(&["foo", "baz"], Some(ComposesFrom::File("./o.css".to_string())), at(0, 6)),
            composes(&["g"], Some(ComposesFrom::Global), at(0, 20)),
        ],
        at(0, 1),
    ))]);
    let result = stylesheet.to_css(PrinterOptions::default()).unwrap();
    assert!(result.exports.is_none());
    assert!(result.references.is_none());
    assert_eq!(
        result.code,
        ".bar {\n  composes: foo baz from \"./o.css\";\n  composes: g from global;\n}\n"
    );
}

#[test]
fn composes_under_a_compound_selector_fails_to_print() {
    let mut parser_options = options("test.css");
    parser_options.css_modules = Some(Config::default());
    let stylesheet = StyleSheet::new(
        vec!["test.css".to_string()],
        CssRuleList(vec![CssRule::Style(style(
            vec![Selector {
                components: vec![
                    Component::Class("a".to_string()),
                    Component::Class("b".to_string()),
                ],
            }],
            vec![decl("color", "red"), composes(&["foo"], None, at(3, 7))],
            at(3, 1),
        ))]),
        parser_options,
    );
    let error = failure(stylesheet.to_css(PrinterOptions::default()));
    assert_eq!(error.kind, PrinterErrorKind::InvalidComposesSelector);
    let place = error.loc.unwrap();
    assert_eq!(place.filename, "test.css");
    assert_eq!((place.line, place.column), (3, 7));
}

#[test]
fn composes_inside_a_media_rule_fails_to_print() {
    let mut parser_options = options("test.css");
    parser_options.css_modules = Some(Config::default());
    let media = MediaRule {
        query: MediaQuery::Raw("print".to_string()),
        rules: vec![style(vec![class("a")], vec![composes(&["foo"], None, at(2, 9))], at(2, 3))],
        loc: Location { source_index: 7, line: 1, column: 1 },
    };
    let stylesheet = StyleSheet::new(
        vec!["test.css".to_string()],
        CssRuleList(vec![CssRule::Media(media)]),
        parser_options,
    );
    let error = failure(stylesheet.to_css(PrinterOptions::default()));
    assert_eq!(error.kind, PrinterErrorKind::InvalidComposesNesting);
    assert_eq!(error.loc.unwrap().filename, "test.css");
}

#[test]
fn error_in_an_unlisted_source_is_located_in_unknown_css() {
    let mut printer = Printer::new(PrinterOptions::default());
    let error = printer.error(
        PrinterErrorKind::InvalidComposesSelector,
        Location { source_index: 3, line: 1, column: 2 },
    );
    assert_eq!(error.loc.unwrap().filename, "unknown.css");
    printer.write_str("a");
    printer.newline();
    printer.whitespace();
    assert_eq!(printer.dest, "a\n ");
}

#[test]
fn media_rule_is_printed_with_its_rules_inside() {
    let media = MediaRule {
        query: MediaQuery::Raw("(min-width: 100px)".to_string()),
        rules: vec![
            style(vec![class("a")], vec![decl("color", "red")], at(1, 3)),
            style(vec![class("b")], vec![decl("color", "blue")], at(4, 3)),
        ],
        loc: at(0, 1),
    };
    let stylesheet = sheet(vec![CssRule::Media(media)]);
    assert_eq!(
        print(&stylesheet, false),
        "@media (min-width: 100px) {\n  .a {\n    color: red;\n  }\n\n  .b {\n    color: blue;\n  }\n}\n"
    );
    assert_eq!(
        print(&stylesheet, true),
        "@media (min-width: 100px){.a{color:red}.b{color:blue}}\n"
    );
}

#[test]
fn namespace_rule_is_printed_with_prefix_and_url() {
    let with_prefix = NamespaceRule {
        prefix: Some("svg".to_string()),
        url: "http://www.w3.org/2000/svg".to_string(),
        loc: at(0, 1),
    };
    let without = NamespaceRule {
        prefix: None,
        url: "http://a\"b".to_string(),
        loc: at(1, 1),
    };
    let stylesheet = sheet(vec![CssRule::Namespace(with_prefix), CssRule::Namespace(without)]);
    assert_eq!(
        print(&stylesheet, true),
        "@namespace svg \"http://www.w3.org/2000/svg\";@namespace \"http://a\\\"b\";\n"
    );
}

#[test]
fn identifiers_are_escaped() {
    let stylesheet = sheet(vec![CssRule::Style(style(
        vec![class("1a"), Selector { components: vec![Component::Id("a b".to_string())] }],
        vec![decl("color", "red")],
        at(0, 1),
    ))]);
    assert_eq!(print(&stylesheet, true), ".\\31 a,#a\\ b{color:red}\n");
}

#[test]
fn important_declarations_come_last() {
    let rule = StyleRule {
        selectors: SelectorList(vec![class("a")]),
        declarations: DeclarationBlock {
            important_declarations: vec![decl("color", "red")],
            declarations: vec![decl("margin", "0")],
        },
        loc: at(0, 1),
    };
    let stylesheet = sheet(vec![CssRule::Style(rule)]);
    assert_eq!(print(&stylesheet, false), ".a {\n  margin: 0;\n  color: red !important;\n}\n");
    assert_eq!(print(&stylesheet, true), ".a{margin:0;color:red!important}\n");
}

#[test]
fn places_of_rules_are_recorded_for_a_source_map() {
    let stylesheet = sheet(foo_and_bar());
    let result = stylesheet
        .to_css(PrinterOptions { minify: true, source_map: true, analyze_dependencies: false })
        .unwrap();
    let places = result.mappings.unwrap();
    assert_eq!(places.len(), 2);
    assert_eq!((places[0].generated_offset, places[0].original), (0, at(0, 1)));
    assert_eq!((places[1].generated_offset, places[1].original), (15, at(4, 1)));
}

#[test]
fn minify_without_options_leaves_minimal_input_as_it_is() {
    let rules = || {
        vec![
            CssRule::Style(style(vec![class("a")], vec![decl("color", "red")], at(0, 1))),
            CssRule::Style(style(vec![class("b")], vec![decl("color", "blue")], at(1, 1))),
            CssRule::CustomMedia(CustomMediaRule {
                name: "--small".to_string(),
                query: "(max-width: 30em)".to_string(),
                loc: at(2, 1),
            }),
        ]
    };
    let untouched = sheet(rules());
    let mut once = sheet(rules());
    once.minify(MinifyOptions::default()).unwrap();
    assert_eq!(print(&once, false), print(&untouched, false));
    let mut twice = sheet(rules());
    twice.minify(MinifyOptions::default()).unwrap();
    twice.minify(MinifyOptions::default()).unwrap();
    assert_eq!(print(&twice, true), print(&once, true));
}

#[test]
fn minify_twice_is_minify_once() {
    let rules = || {
        vec![
            CssRule::Style(style(
                vec![class("a")],
                vec![decl("color", "red"), decl("margin", "0"), decl("color", "red")],
                at(0, 1),
            )),
            CssRule::Ignored,
            CssRule::Style(style(
                vec![class("b")],
                vec![decl("margin", "0"), decl("color", "red")],
                at(1, 1),
            )),
            CssRule::Style(style(vec![class("c")], vec![], at(2, 1))),
            CssRule::Style(style(
                vec![class("d")],
                vec![decl("margin", "0"), decl("color", "red")],
                at(3, 1),
            )),
        ]
    };
    let mut once = sheet(rules());
    once.minify(MinifyOptions::default()).unwrap();
    assert_eq!(print(&once, true), ".a,.b,.d{margin:0;color:red}\n");
    let mut twice = sheet(rules());
    twice.minify(MinifyOptions::default()).unwrap();
    twice.minify(MinifyOptions::default()).unwrap();
    assert_eq!(print(&twice, true), print(&once, true));
    assert_eq!(twice.rules.0.len(), 1);
}

#[test]
fn rules_for_unused_symbols_are_removed() {
    let mut unused = SymbolSet::new();
    unused.insert("dead");
    assert!(unused.contains("dead"));
    assert!(!unused.is_empty());
    let mut stylesheet = sheet(vec![
        CssRule::Style(style(vec![class("dead")], vec![decl("color", "red")], at(0, 1))),
        CssRule::Style(style(
            vec![class("dead"), class("live")],
            vec![decl("color", "blue")],
            at(1, 1),
        )),
        CssRule::Style(style(
            vec![Selector {
                components: vec![
                    Component::LocalName("p".to_string()),
                    Component::Id("dead".to_string()),
                ],
            }],
            vec![decl("color", "green")],
            at(2, 1),
        )),
    ]);
    stylesheet.minify(MinifyOptions { targets: None, unused_symbols: unused }).unwrap();
    assert_eq!(print(&stylesheet, true), ".dead,.live{color:blue}\n");
}

#[test]
fn custom_media_is_resolved_for_browsers_that_lack_it() {
    let rules = || {
        vec![
            CssRule::Media(MediaRule {
                query: MediaQuery::Custom("--small".to_string()),
                rules: vec![style(vec![class("a")], vec![decl("color", "red")], at(1, 3))],
                loc: at(0, 1),
            }),
            CssRule::CustomMedia(CustomMediaRule {
                name: "--small".to_string(),
                query: "(max-width: 20em)".to_string(),
                loc: at(3, 1),
            }),
            CssRule::CustomMedia(CustomMediaRule {
                name: "--small".to_string(),
                query: "(max-width: 30em)".to_string(),
                loc: at(4, 1),
            }),
        ]
    };
    let make = |custom_media: bool| {
        let mut parser_options = options("test.css");
        parser_options.custom_media = custom_media;
        StyleSheet::new(vec!["test.css".to_string()], CssRuleList(rules()), parser_options)
    };
    let lacking = Some(Browsers { custom_media_queries: false });
    assert!(!Feature::CustomMediaQueries.is_compatible(lacking.unwrap()));

    let mut resolved = make(true);
    assert_eq!(resolved.custom_media().get("--small").unwrap(), "(max-width: 30em)");
    resolved.minify(MinifyOptions { targets: lacking, unused_symbols: SymbolSet::new() }).unwrap();
    assert_eq!(print(&resolved, true), "@media (max-width: 30em){.a{color:red}}\n");

    let kept = "@media (--small){.a{color:red}}@custom-media --small (max-width: 20em);@custom-media --small (max-width: 30em);\n";
    let mut supported = make(true);
    supported
        .minify(MinifyOptions {
            targets: Some(Browsers { custom_media_queries: true }),
            unused_symbols: SymbolSet::new(),
        })
        .unwrap();
    assert_eq!(print(&supported, true), kept);

    let mut no_targets = make(true);
    no_targets.minify(MinifyOptions::default()).unwrap();
    assert_eq!(print(&no_targets, true), kept);

    let mut not_read = make(false);
    not_read.minify(MinifyOptions { targets: lacking, unused_symbols: SymbolSet::new() }).unwrap();
    assert_eq!(print(&not_read, true), kept);
}

#[test]
fn undefined_custom_media_is_an_error_in_the_source_of_the_rule() {
    let mut parser_options = options("a.css");
    parser_options.custom_media = true;
    let mut stylesheet = StyleSheet::new(
        vec!["a.css".to_string(), "b.css".to_string()],
        CssRuleList(vec![
            CssRule::Style(style(vec![class("x")], vec![decl("color", "red"), decl("color", "red")], at(0, 1))),
            CssRule::Media(MediaRule {
                query: MediaQuery::Custom("--missing".to_string()),
                rules: vec![style(vec![class("a")], vec![decl("color", "red")], at(1, 3))],
                loc: Location { source_index: 1, line: 5, column: 2 },
            }),
        ]),
        parser_options,
    );
    let error: Error<MinifyErrorKind> = stylesheet
        .minify(MinifyOptions {
            targets: Some(Browsers { custom_media_queries: false }),
            unused_symbols: SymbolSet::new(),
        })
        .unwrap_err();
    match error.kind {
        MinifyErrorKind::CustomMediaNotDefined { name } => assert_eq!(name, "--missing"),
    }
    let place = error.loc.unwrap();
    assert_eq!(place.filename, "b.css");
    assert_eq!((place.line, place.column), (5, 2));
    assert_eq!(stylesheet.rules.0.len(), 2);
    assert_eq!(
        print(&stylesheet, true),
        ".x{color:red;color:red}@media (--missing){.a{color:red}}\n"
    );
}

#[test]
fn media_rule_left_empty_is_removed() {
    let mut unused = SymbolSet::new();
    unused.insert("a");
    let mut stylesheet = sheet(vec![CssRule::Media(MediaRule {
        query: MediaQuery::Raw("print".to_string()),
        rules: vec![style(vec![class("a")], vec![decl("color", "red")], at(1, 3))],
        loc: at(0, 1),
    })]);
    stylesheet.minify(MinifyOptions { targets: None, unused_symbols: unused }).unwrap();
    assert_eq!(stylesheet.rules.0.len(), 0);
}

#[test]
fn parse_keeps_rules_in_order_and_records_the_source() {
    let parsed = vec![
        Ok(CssRule::Style(style(vec![class("a")], vec![decl("color", "red")], at(0, 1)))),
        Ok(CssRule::Ignored),
        Ok(CssRule::Style(style(vec![class("b")], vec![decl("color", "blue")], at(1, 1)))),
    ];
    let stylesheet =
        StyleSheet::parse(parsed, Some("data:,x".to_string()), options("in.css")).unwrap();
    assert_eq!(stylesheet.rules.0.len(), 2);
    assert_eq!(stylesheet.sources, vec!["in.css".to_string()]);
    assert_eq!(stylesheet.source_map_url(0), Some(&"data:,x".to_string()));
    assert_eq!(stylesheet.source_map_url(1), None);
    assert!(stylesheet.options.warnings.is_empty());
    assert_eq!(print(&stylesheet, true), ".a{color:red}.b{color:blue}\n");
}

#[test]
fn parse_stops_at_the_first_error_without_recovery() {
    let first = ParseError { kind: ParserError::InvalidDeclaration, line: 2, column: 5 };
    let second = ParseError { kind: ParserError::EndOfInput, line: 9, column: 1 };
    let parsed = vec![
        Ok(CssRule::Style(style(vec![class("a")], vec![decl("color", "red")], at(0, 1)))),
        Err(first),
        Err(second),
    ];
    let error = StyleSheet::parse(parsed, None, options("in.css")).unwrap_err();
    assert_eq!(error.kind, ParserError::InvalidDeclaration);
    let place = error.loc.unwrap();
    assert_eq!(place.filename, "in.css");
    assert_eq!((place.line, place.column), (2, 5));
}

#[test]
fn parse_with_recovery_skips_the_rule_and_warns() {
    let first = ParseError { kind: ParserError::InvalidDeclaration, line: 2, column: 5 };
    let second = ParseError { kind: ParserError::SelectorError, line: 9, column: 1 };
    let parsed = vec![
        Err(first),
        Ok(CssRule::Style(style(vec![class("a")], vec![decl("color", "red")], at(0, 1)))),
        Err(second),
    ];
    let mut parser_options = options("in.css");
    parser_options.error_recovery = true;
    let stylesheet = StyleSheet::parse(parsed, None, parser_options).unwrap();
    assert_eq!(stylesheet.rules.0.len(), 1);
    assert_eq!(stylesheet.options.warnings.len(), 2);
    assert_eq!(stylesheet.options.warnings[0].kind, ParserError::InvalidDeclaration);
    assert_eq!(stylesheet.options.warnings[1].kind, ParserError::SelectorError);
    assert_eq!(stylesheet.options.warnings[1].loc.as_ref().unwrap().filename, "in.css");
    assert_eq!(stylesheet.options.warnings[1].loc.as_ref().unwrap().line, 9);
}

#[test]
fn new_sheet_has_no_source_map_urls() {
    let stylesheet = sheet(vec![]);
    assert_eq!(stylesheet.source_map_url(0), None);
    assert!(stylesheet.source_map(0).is_none());
    assert_eq!(stylesheet.source_maps().len(), 1);
}

#[test]
fn inline_source_map_is_read_from_a_data_url() {
    let url = "data:application/json;charset=utf-8;base64,eyJ2ZXJzaW9uIjozLCJzb3VyY2VzIjpbImEuY3NzIl0sIm5hbWVzIjpbXSwibWFwcGluZ3MiOiJBQUFBIn0=";
    let good = StyleSheet::parse(vec![], Some(url.to_string()), options("a.css")).unwrap();
    assert!(good.source_map(0).is_some());
    assert!(good.source_map(1).is_none());
    let maps = good.source_maps();
    assert_eq!(maps.len(), 1);
    assert!(maps[0].is_some());
    let bad = StyleSheet::parse(vec![], Some("not a url".to_string()), options("a.css")).unwrap();
    assert!(bad.source_map(0).is_none());
    let absent = StyleSheet::parse(vec![], None, options("a.css")).unwrap();
    assert!(absent.source_map(0).is_none());
}

#[test]
fn style_attribute_is_printed_on_one_line() {
    let block = DeclarationBlock {
        important_declarations: vec![decl("margin", "0")],
        declarations: vec![decl("color", "yellow"), decl("font-family", "'Helvetica'")],
    };
    let attribute = StyleAttribute::parse(Ok(block), options("page.html")).unwrap();
    assert_eq!(attribute.sources, vec!["page.html".to_string()]);
    let result = attribute.to_css(PrinterOptions::default()).unwrap();
    assert_eq!(result.code, "color: yellow; font-family: 'Helvetica'; margin: 0 !important");
    assert!(result.exports.is_none());
    assert!(result.references.is_none());
    assert!(result.dependencies.is_none());
    let minified = attribute
        .to_css(PrinterOptions { minify: true, source_map: false, analyze_dependencies: true })
        .unwrap();
    assert_eq!(minified.code, "color:yellow;font-family:'Helvetica';margin:0!important");
    assert_eq!(minified.dependencies.unwrap().len(), 0);
}

#[test]
fn style_attribute_minify_keeps_the_last_of_equal_declarations() {
    let block = DeclarationBlock {
        important_declarations: vec![],
        declarations: vec![
            decl("color", "red"),
            decl("margin", "0"),
            decl("color", "blue"),
            decl("color", "red"),
            decl("margin", "0"),
        ],
    };
    let mut attribute = StyleAttribute::parse(Ok(block), options("")).unwrap();
    attribute.minify(MinifyOptions::default());
    assert_eq!(
        attribute.to_css(PrinterOptions::default()).unwrap().code,
        "color: blue; color: red; margin: 0"
    );
    attribute.minify(MinifyOptions::default());
    assert_eq!(
        attribute.to_css(PrinterOptions::default()).unwrap().code,
        "color: blue; color: red; margin: 0"
    );
}

#[test]
fn style_attribute_parse_error_has_no_file_name() {
    let failed = ParseError { kind: ParserError::InvalidDeclaration, line: 0, column: 8 };
    let error = StyleAttribute::parse(Err(failed), options("page.html")).unwrap_err();
    assert_eq!(error.kind, ParserError::InvalidDeclaration);
    let place = error.loc.unwrap();
    assert_eq!(place.filename, "");
    assert_eq!((place.line, place.column), (0, 8));
}

#[test]
fn empty_style_attribute_prints_nothing() {
    let block = DeclarationBlock { important_declarations: vec![], declarations: vec![] };
    let attribute = StyleAttribute::parse(Ok(block), ParserOptions::default()).unwrap();
    assert_eq!(attribute.to_css(PrinterOptions::default()).unwrap().code, "");
}
