use lightningcss::css_modules::{
    base_name, get_hashed_name, hash, token_from_hash, Config, CssModule, CssModuleExport,
    CssModuleExports, CssModuleReference, CssModuleReferences, Pattern,
};
use lightningcss::error::{Location, PrinterErrorKind};
use lightningcss::properties::{Composes, ComposesFrom, CustomIdent};
use lightningcss::selector::{Combinator, Component, Selector, SelectorList};
use std::collections::hash_map::DefaultHasher;
use std::hash::{Hash, Hasher};

fn class(name: &str) -> Selector {
    Selector { components: vec![Component::Class(name.to_string())] }
}

fn composes(names: &[&str], from: Option<ComposesFrom>) -> Composes {
    Composes {
        names: names.iter().map(|name| CustomIdent(name.to_string())).collect(),
        from,
        loc: Location { source_index: 0, line: 0, column: 1 },
    }
}

fn local(name: &str) -> CssModuleReference {
    CssModuleReference::Local { name: name.to_string() }
}

#[test]
fn default_pattern_compiles_hash_underscore_local() {
    let pattern = Pattern::parse("[hash]_[local]").unwrap();
    assert_eq!(pattern.write_to_string("abc123", "foo", "file"), "abc123_foo");
    assert_eq!(Pattern::default().write_to_string("abc123", "foo", "file"), "abc123_foo");
    assert_eq!(Config::default().pattern.write_to_string("abc123", "foo", "file"), "abc123_foo");
    assert_eq!(get_hashed_name("abc123", "foo"), "abc123_foo");
}

#[test]
fn write_appends_to_what_is_there() {
    let pattern = Pattern::parse("my-[local]--[hash]").unwrap();
    let mut dest = String::from("x:");
    pattern.write("h", "btn", "file", &mut dest);
    assert_eq!(dest, "x:my-btn--h");
}

#[test]
fn write_is_a_function_of_hash_and_local() {
    let pattern = Pattern::parse("[local]-[hash]-[local]").unwrap();
    let first = pattern.write_to_string("h1", "a", "file");
    let second = pattern.clone().write_to_string("h1", "a", "file");
    assert_eq!(first, "a-h1-a");
    assert_eq!(first, second);
    assert_ne!(pattern.write_to_string("h2", "a", "file"), first);
}

#[test]
fn compiling_with_the_token_texts_gives_the_template_back() {
    for template in
        ["[hash]_[local]", "a]b[local]", "", "plain", "[local][hash][local]x", "[name]-[local]"]
    {
        let pattern = Pattern::parse(template).unwrap();
        assert_eq!(pattern.write_to_string("[hash]", "[local]", "[name]"), template);
    }
}

#[test]
fn empty_template_is_the_empty_pattern() {
    let pattern = Pattern::parse("").unwrap();
    assert_eq!(pattern.write_to_string("abc", "foo", "file"), "");
}

#[test]
fn literal_text_is_kept_verbatim() {
    let pattern = Pattern::parse("caf\u{e9} ]-\u{1F600}").unwrap();
    assert_eq!(pattern.write_to_string("h", "l", "file"), "caf\u{e9} ]-\u{1F600}");
    let mixed = Pattern::parse("\u{e9}[local]\u{e9}[hash]").unwrap();
    assert_eq!(mixed.write_to_string("H", "L", "file"), "\u{e9}L\u{e9}H");
}

#[test]
fn unknown_token_rejects_the_pattern() {
    assert!(Pattern::parse("[foo]").is_err());
    assert!(Pattern::parse("[hash]_[nope]").is_err());
    assert!(Pattern::parse("[Hash]").is_err());
    assert!(Pattern::parse("[ local]").is_err());
    assert!(Pattern::parse("[]").is_err());
}

#[test]
fn unclosed_token_rejects_the_pattern() {
    assert!(Pattern::parse("[hash").is_err());
    assert!(Pattern::parse("abc[").is_err());
    assert!(Pattern::parse("[local]_[").is_err());
}

#[test]
fn a_token_ends_at_the_next_closing_bracket() {
    assert!(Pattern::parse("[[hash]").is_err());
    assert!(Pattern::parse("[hash]]").is_ok());
    assert_eq!(Pattern::parse("[hash]]").unwrap().write_to_string("h", "l", "file"), "h]");
}

#[test]
fn name_segment_stands_for_the_base_name_of_the_source() {
    let pattern = Pattern::parse("[name]-[local]").unwrap();
    assert_eq!(pattern.write_to_string("h", "foo", "button"), "button-foo");
    let all = Pattern::parse("[name]_[hash]_[local]_[name]").unwrap();
    assert_eq!(all.write_to_string("H", "L", "N"), "N_H_L_N");
    let config = Config { pattern };
    let mut module = CssModule::new(&config, base_name("src/button.css").to_string(), "h".to_string());
    module.add_local("foo", "foo");
    module.reference("bar");
    assert_eq!(module.exports.get("foo").unwrap().name, "button-foo");
    assert_eq!(module.exports.get("bar").unwrap().name, "button-bar");
    let list = SelectorList(vec![class("foo")]);
    assert_eq!(module.handle_composes(&list, &composes(&["baz"], None)), Ok(()));
    assert_eq!(module.exports.get("foo").unwrap().composes, vec![local("button-baz")]);
}

#[test]
fn base_name_is_the_file_name_without_its_last_extension() {
    assert_eq!(base_name("src/button.module.css"), "button.module");
    assert_eq!(base_name("a.css"), "a");
    assert_eq!(base_name("/abs/dir/x.css"), "x");
    assert_eq!(base_name("noext"), "noext");
    assert_eq!(base_name(".hidden"), ".hidden");
    assert_eq!(base_name("a/.b.c"), ".b");
    assert_eq!(base_name("dir.x/file"), "file");
    assert_eq!(base_name("x."), "x");
    assert_eq!(base_name("a/b/"), "");
    assert_eq!(base_name(""), "");
    assert_eq!(base_name("caf\u{e9}/\u{e9}t\u{e9}.css"), "\u{e9}t\u{e9}");
}

#[test]
fn reference_table_starts_empty() {
    assert!(CssModuleReferences::new().get("foo").is_none());
}

#[test]
fn token_of_zero_is_the_first_symbol_six_times() {
    assert_eq!(token_from_hash(0), "aaaaaa");
}

#[test]
fn token_takes_the_low_bytes_first() {
    assert_eq!(token_from_hash(0x0102_0304), "bamcaq");
    assert_eq!(token_from_hash(0xFFFF_FFFF), "-----W");
}

#[test]
fn token_ignores_the_high_half_of_the_hash() {
    assert_eq!(token_from_hash(0xABCD_EF01_0000_0000), "aaaaaa");
    assert_eq!(token_from_hash(0x1234_5678_0102_0304), "bamcaq");
}

#[test]
fn token_that_would_start_with_a_digit_gets_an_underscore() {
    assert_eq!(token_from_hash(0xD0), "_1aaaaa");
    assert_eq!(token_from_hash(0xF4), "_0aaaaa");
    assert_eq!(token_from_hash(0xCC), "Zaaaaa");
    assert_eq!(token_from_hash(0xF8), "_aaaaa");
}

#[test]
fn hash_is_deterministic_and_never_starts_with_a_digit() {
    for seed in ["", "a", "test.css", "src/components/button.css", "\u{1F600}", "0", "1234"] {
        let token = hash(seed);
        assert_eq!(token, hash(seed));
        assert!(token.len() == 6 || token.len() == 7);
        assert!(!token.as_bytes()[0].is_ascii_digit());
        assert!(token
            .chars()
            .all(|c| c.is_ascii_alphanumeric() || c == '_' || c == '-'));
    }
}

#[test]
fn hash_is_the_token_of_the_standard_hash() {
    for seed in ["test.css", "other.css", ""] {
        let mut hasher = DefaultHasher::new();
        seed.hash(&mut hasher);
        assert_eq!(hash(seed), token_from_hash(hasher.finish()));
    }
    assert_ne!(hash("test.css"), hash("other.css"));
}

#[test]
fn add_local_twice_leaves_one_entry() {
    let config = Config::default();
    let mut module = CssModule::new(&config, "file".to_string(), "abc123".to_string());
    module.add_local("foo", "foo");
    assert_eq!(module.exports.len(), 1);
    let first = module.exports.get("foo").unwrap().clone();
    assert_eq!(
        first,
        CssModuleExport { name: "abc123_foo".to_string(), composes: vec![], is_referenced: false }
    );
    module.add_local("foo", "foo");
    assert_eq!(module.exports.len(), 1);
    assert_eq!(module.exports.get("foo").unwrap(), &first);
}

#[test]
fn first_declaration_wins() {
    let config = Config::default();
    let mut module = CssModule::new(&config, "file".to_string(), "h".to_string());
    module.add_local("foo", "first");
    module.add_local("foo", "second");
    assert_eq!(module.exports.get("foo").unwrap().name, "h_first");
}

#[test]
fn add_local_keeps_a_referenced_entry_referenced() {
    let config = Config::default();
    let mut module = CssModule::new(&config, "file".to_string(), "h".to_string());
    module.add_local("foo", "foo");
    module.reference("foo");
    module.add_local("foo", "foo");
    assert!(module.exports.get("foo").unwrap().is_referenced);
    assert_eq!(module.exports.len(), 1);
}

#[test]
fn reference_before_declaration_gives_one_referenced_entry() {
    let config = Config::default();
    let mut module = CssModule::new(&config, "file".to_string(), "abc123".to_string());
    module.reference("bar");
    assert_eq!(module.exports.len(), 1);
    assert_eq!(
        module.exports.get("bar").unwrap(),
        &CssModuleExport { name: "abc123_bar".to_string(), composes: vec![], is_referenced: true }
    );
    module.add_local("bar", "bar");
    assert_eq!(module.exports.len(), 1);
    assert!(module.exports.get("bar").unwrap().is_referenced);
}

#[test]
fn reference_marks_a_declared_name() {
    let config = Config::default();
    let mut module = CssModule::new(&config, "file".to_string(), "h".to_string());
    module.add_local("foo", "foo");
    assert!(!module.exports.get("foo").unwrap().is_referenced);
    module.reference("foo");
    assert!(module.exports.get("foo").unwrap().is_referenced);
    assert_eq!(module.exports.get("foo").unwrap().name, "h_foo");
}

#[test]
fn composes_on_a_compound_selector_is_rejected_and_mutates_nothing() {
    let config = Config::default();
    let mut module = CssModule::new(&config, "file".to_string(), "h".to_string());
    module.add_local("a", "a");
    module.add_local("b", "b");
    let compound = Selector {
        components: vec![Component::Class("a".to_string()), Component::Class("b".to_string())],
    };
    let result = module.handle_composes(&SelectorList(vec![compound]), &composes(&["foo"], None));
    assert_eq!(result, Err(PrinterErrorKind::InvalidComposesSelector));
    assert_eq!(module.exports.len(), 2);
    assert!(module.exports.get("a").unwrap().composes.is_empty());
    assert!(module.exports.get("b").unwrap().composes.is_empty());
}

#[test]
fn composes_on_other_shapes_is_rejected() {
    let config = Config::default();
    let shapes = vec![
        Selector { components: vec![Component::Id("a".to_string())] },
        Selector { components: vec![Component::LocalName("div".to_string())] },
        Selector { components: vec![Component::Universal] },
        Selector { components: vec![] },
        Selector {
            components: vec![
                Component::Class("a".to_string()),
                Component::Combinator(Combinator::Descendant),
                Component::Class("b".to_string()),
            ],
        },
    ];
    for shape in shapes {
        let mut module = CssModule::new(&config, "file".to_string(), "h".to_string());
        module.add_local("a", "a");
        let result = module.handle_composes(&SelectorList(vec![shape]), &composes(&["x"], None));
        assert_eq!(result, Err(PrinterErrorKind::InvalidComposesSelector));
        assert!(module.exports.get("a").unwrap().composes.is_empty());
    }
}

#[test]
fn composes_before_an_invalid_selector_stays() {
    let config = Config::default();
    let mut module = CssModule::new(&config, "file".to_string(), "h".to_string());
    module.add_local("a", "a");
    module.add_local("c", "c");
    let list = SelectorList(vec![
        class("a"),
        Selector { components: vec![Component::Id("b".to_string())] },
        class("c"),
    ]);
    let result = module.handle_composes(&list, &composes(&["foo"], None));
    assert_eq!(result, Err(PrinterErrorKind::InvalidComposesSelector));
    assert_eq!(module.exports.get("a").unwrap().composes, vec![local("h_foo")]);
    assert!(module.exports.get("c").unwrap().composes.is_empty());
}

#[test]
fn composing_the_same_name_twice_gives_one_reference() {
    let config = Config::default();
    let mut module = CssModule::new(&config, "file".to_string(), "h".to_string());
    module.add_local("bar", "bar");
    let list = SelectorList(vec![class("bar")]);
    assert_eq!(module.handle_composes(&list, &composes(&["foo"], None)), Ok(()));
    assert_eq!(module.handle_composes(&list, &composes(&["foo"], None)), Ok(()));
    assert_eq!(module.handle_composes(&list, &composes(&["foo", "foo"], None)), Ok(()));
    assert_eq!(module.exports.get("bar").unwrap().composes, vec![local("h_foo")]);
}

#[test]
fn composes_builds_one_reference_for_each_kind_of_source() {
    let config = Config::default();
    let mut module = CssModule::new(&config, "file".to_string(), "h".to_string());
    module.add_local("bar", "bar");
    let list = SelectorList(vec![class("bar")]);
    assert_eq!(module.handle_composes(&list, &composes(&["a", "b"], None)), Ok(()));
    assert_eq!(
        module.handle_composes(&list, &composes(&["a"], Some(ComposesFrom::Global))),
        Ok(())
    );
    assert_eq!(
        module.handle_composes(
            &list,
            &composes(&["a"], Some(ComposesFrom::File("./other.css".to_string())))
        ),
        Ok(())
    );
    assert_eq!(
        module.handle_composes(
            &list,
            &composes(&["a"], Some(ComposesFrom::File("./third.css".to_string())))
        ),
        Ok(())
    );
    assert_eq!(
        module.exports.get("bar").unwrap().composes,
        vec![
            local("h_a"),
            local("h_b"),
            CssModuleReference::Global { name: "a".to_string() },
            CssModuleReference::Dependency {
                name: "a".to_string(),
                specifier: "./other.css".to_string()
            },
            CssModuleReference::Dependency {
                name: "a".to_string(),
                specifier: "./third.css".to_string()
            },
        ]
    );
    assert!(!module.exports.get("bar").unwrap().is_referenced);
    assert_eq!(module.exports.get("bar").unwrap().name, "h_bar");
}

#[test]
fn composes_reaches_every_class_of_the_list() {
    let config = Config::default();
    let mut module = CssModule::new(&config, "file".to_string(), "h".to_string());
    module.add_local("a", "a");
    module.add_local("b", "b");
    module.add_local("c", "c");
    let list = SelectorList(vec![class("a"), class("b")]);
    assert_eq!(module.handle_composes(&list, &composes(&["x"], None)), Ok(()));
    assert_eq!(module.exports.get("a").unwrap().composes, vec![local("h_x")]);
    assert_eq!(module.exports.get("b").unwrap().composes, vec![local("h_x")]);
    assert!(module.exports.get("c").unwrap().composes.is_empty());
}

#[test]
fn composes_with_no_selector_and_no_name_changes_nothing() {
    let config = Config::default();
    let mut module = CssModule::new(&config, "file".to_string(), "h".to_string());
    module.add_local("a", "a");
    assert_eq!(module.handle_composes(&SelectorList(vec![]), &composes(&["x"], None)), Ok(()));
    assert_eq!(
        module.handle_composes(&SelectorList(vec![class("missing")]), &composes(&[], None)),
        Ok(())
    );
    assert_eq!(module.exports.len(), 1);
    assert!(module.exports.get("a").unwrap().composes.is_empty());
}

#[test]
fn export_table_lists_names_in_the_order_of_entry() {
    let config = Config::default();
    let mut module = CssModule::new(&config, "file".to_string(), "h".to_string());
    module.add_local("b", "b");
    module.reference("a");
    module.add_local("b", "b");
    module.add_local("c", "c");
    let exports: CssModuleExports = module.into_exports();
    assert_eq!(exports.len(), 3);
    assert!(!exports.is_empty());
    assert_eq!(exports.name_at(0), "b");
    assert_eq!(exports.name_at(1), "a");
    assert_eq!(exports.name_at(2), "c");
    assert!(exports.contains_key("a"));
    assert!(!exports.contains_key("d"));
    assert!(exports.get("d").is_none());
    assert!(CssModuleExports::new().is_empty());
}

#[test]
fn references_are_equal_by_kind_and_text() {
    assert_eq!(local("a"), local("a"));
    assert_ne!(local("a"), local("b"));
    assert_ne!(local("a"), CssModuleReference::Global { name: "a".to_string() });
    assert_ne!(
        CssModuleReference::Dependency { name: "a".to_string(), specifier: "x".to_string() },
        CssModuleReference::Dependency { name: "a".to_string(), specifier: "y".to_string() }
    );
    assert_eq!(local("a").clone(), local("a"));
}
