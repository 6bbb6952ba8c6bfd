use dprint_plugin_sql::configuration::resolve_config::{
    report_unknown_keys, take_bool, take_limit, take_new_line_kind, take_size, take_small_integer,
};
use dprint_plugin_sql::configuration::{
    resolve_config, ConfigKeyMap, ConfigKeyValue, Configuration, ConfigurationDiagnostic,
    GlobalConfiguration, NewLineKind,
};

fn store(entries: Vec<(&str, ConfigKeyValue)>) -> ConfigKeyMap {
    let mut map = ConfigKeyMap::new();
    for (key, value) in entries {
        map.insert(String::from(key), value);
    }
    map
}

fn finding(key: &str, message: &str) -> ConfigurationDiagnostic {
    ConfigurationDiagnostic { property_name: String::from(key), message: String::from(message) }
}

fn unknown(key: &str) -> ConfigurationDiagnostic {
    finding(key, "Unknown property in configuration.")
}

fn text(value: &str) -> ConfigKeyValue {
    ConfigKeyValue::String(String::from(value))
}

fn unset() -> GlobalConfiguration {
    GlobalConfiguration::default()
}

fn base() -> Configuration {
    Configuration {
        use_tabs: false,
        indent_width: 2,
        new_line_kind: NewLineKind::LineFeed,
        uppercase: false,
        lines_between_queries: 1,
        inline: false,
        max_inline_block: 50,
        max_inline_arguments: None,
        max_inline_top_level: None,
        joins_as_top_level: false,
    }
}

#[test]
fn no_overrides_resolve_to_the_defaults() {
    let resolved = resolve_config(ConfigKeyMap::new(), &unset());
    assert_eq!(resolved.config, base());
    assert_eq!(resolved.diagnostics, vec![]);
}

#[test]
fn all_keys_with_values_that_they_take() {
    let resolved = resolve_config(
        store(vec![
            ("joinsAsTopLevel", ConfigKeyValue::Bool(true)),
            ("maxInlineTopLevel", ConfigKeyValue::Number(200)),
            ("maxInlineArguments", ConfigKeyValue::Number(5)),
            ("maxInlineBlock", ConfigKeyValue::Number(100)),
            ("inline", ConfigKeyValue::Bool(true)),
            ("linesBetweenQueries", ConfigKeyValue::Number(2)),
            ("uppercase", ConfigKeyValue::Bool(true)),
            ("newLineKind", text("crlf")),
            ("indentWidth", ConfigKeyValue::Number(4)),
            ("useTabs", ConfigKeyValue::Bool(true)),
        ]),
        &GlobalConfiguration {
            line_width: Some(80),
            use_tabs: Some(false),
            indent_width: Some(9),
            new_line_kind: Some(NewLineKind::Auto),
        },
    );
    assert_eq!(
        resolved.config,
        Configuration {
            use_tabs: true,
            indent_width: 4,
            new_line_kind: NewLineKind::CarriageReturnLineFeed,
            uppercase: true,
            lines_between_queries: 2,
            inline: true,
            max_inline_block: 100,
            max_inline_arguments: Some(5),
            max_inline_top_level: Some(200),
            joins_as_top_level: true,
        }
    );
    assert_eq!(resolved.diagnostics, vec![]);
}

#[test]
fn shared_options_come_from_the_global_configuration() {
    let global = GlobalConfiguration {
        line_width: None,
        use_tabs: Some(true),
        indent_width: None,
        new_line_kind: Some(NewLineKind::System),
    };
    let resolved = resolve_config(store(vec![("uppercase", ConfigKeyValue::Bool(true))]), &global);
    assert_eq!(
        resolved.config,
        Configuration {
            use_tabs: true,
            indent_width: 2,
            new_line_kind: NewLineKind::System,
            uppercase: true,
            ..base()
        }
    );
    assert_eq!(resolved.diagnostics, vec![]);
}

#[test]
fn an_unknown_key_gives_one_diagnostic() {
    let resolved = resolve_config(store(vec![("useTab", ConfigKeyValue::Bool(true))]), &unset());
    assert_eq!(resolved.config, base());
    assert_eq!(resolved.diagnostics, vec![unknown("useTab")]);
}

#[test]
fn an_unknown_key_changes_no_option() {
    let known = vec![
        ("indentWidth", ConfigKeyValue::Number(3)),
        ("uppercase", text("yes")),
        ("maxInlineArguments", ConfigKeyValue::Number(4)),
    ];
    let mut with_unknown = known.clone();
    with_unknown.insert(1, ("lineWidth", ConfigKeyValue::Number(80)));
    let plain = resolve_config(store(known), &unset());
    let injected = resolve_config(store(with_unknown), &unset());
    assert_eq!(injected.config, plain.config);
    assert_eq!(plain.diagnostics, vec![finding("uppercase", "Expected a boolean value.")]);
    assert_eq!(
        injected.diagnostics,
        vec![finding("uppercase", "Expected a boolean value."), unknown("lineWidth")]
    );
    let named = injected.diagnostics.iter().filter(|found| found.property_name == "lineWidth");
    assert_eq!(named.count(), 1);
}

#[test]
fn unknown_keys_are_reported_in_their_order() {
    let resolved = resolve_config(
        store(vec![
            ("zeta", ConfigKeyValue::Number(1)),
            ("inline", ConfigKeyValue::Bool(true)),
            ("", ConfigKeyValue::Bool(false)),
            ("useTabs", ConfigKeyValue::Bool(true)),
            ("alpha", text("x")),
            ("UseTabs", ConfigKeyValue::Bool(true)),
        ]),
        &unset(),
    );
    assert_eq!(resolved.config, Configuration { use_tabs: true, inline: true, ..base() });
    assert_eq!(
        resolved.diagnostics,
        vec![unknown("zeta"), unknown(""), unknown("alpha"), unknown("UseTabs")]
    );
}

#[test]
fn diagnostics_about_options_come_in_the_order_of_resolution() {
    let resolved = resolve_config(
        store(vec![
            ("other", ConfigKeyValue::Number(1)),
            ("joinsAsTopLevel", ConfigKeyValue::Number(1)),
            ("maxInlineTopLevel", ConfigKeyValue::Bool(true)),
            ("maxInlineArguments", text("5")),
            ("maxInlineBlock", ConfigKeyValue::Number(-1)),
            ("inline", text("true")),
            ("linesBetweenQueries", ConfigKeyValue::Number(256)),
            ("uppercase", ConfigKeyValue::Number(0)),
            ("newLineKind", text("cr")),
            ("indentWidth", ConfigKeyValue::Bool(false)),
            ("useTabs", text("false")),
        ]),
        &GlobalConfiguration {
            line_width: None,
            use_tabs: Some(true),
            indent_width: Some(6),
            new_line_kind: Some(NewLineKind::CarriageReturnLineFeed),
        },
    );
    assert_eq!(
        resolved.config,
        Configuration {
            use_tabs: true,
            indent_width: 6,
            new_line_kind: NewLineKind::CarriageReturnLineFeed,
            ..base()
        }
    );
    assert_eq!(
        resolved.diagnostics,
        vec![
            finding("useTabs", "Expected a boolean value."),
            finding("indentWidth", "Expected an integer from 0 to 255."),
            finding("newLineKind", "Found invalid value 'cr'."),
            finding("uppercase", "Expected a boolean value."),
            finding("linesBetweenQueries", "Expected an integer from 0 to 255."),
            finding("inline", "Expected a boolean value."),
            finding("maxInlineBlock", "Expected an integer that is not negative."),
            finding("maxInlineArguments", "Expected an integer that is not negative."),
            finding("maxInlineTopLevel", "Expected an integer that is not negative."),
            finding("joinsAsTopLevel", "Expected a boolean value."),
            unknown("other"),
        ]
    );
}

#[test]
fn a_new_line_kind_that_is_no_text_is_reported() {
    let resolved =
        resolve_config(store(vec![("newLineKind", ConfigKeyValue::Number(1))]), &unset());
    assert_eq!(resolved.config, base());
    assert_eq!(
        resolved.diagnostics,
        vec![finding("newLineKind", "Expected the name of a new line kind.")]
    );
}

#[test]
fn small_integers_end_at_0_and_255() {
    let at = |number: i32| {
        resolve_config(store(vec![("indentWidth", ConfigKeyValue::Number(number))]), &unset())
    };
    assert_eq!(at(0).config.indent_width, 0);
    assert_eq!(at(0).diagnostics, vec![]);
    assert_eq!(at(255).config.indent_width, 255);
    assert_eq!(at(255).diagnostics, vec![]);
    assert_eq!(at(256).config.indent_width, 2);
    assert_eq!(at(256).diagnostics.len(), 1);
    assert_eq!(at(-1).config.indent_width, 2);
    assert_eq!(at(-1).diagnostics.len(), 1);
    assert_eq!(at(i32::MAX).config.indent_width, 2);
    assert_eq!(at(i32::MIN).config.indent_width, 2);
}

#[test]
fn sizes_start_at_0() {
    let at = |number: i32| {
        resolve_config(
            store(vec![
                ("maxInlineBlock", ConfigKeyValue::Number(number)),
                ("maxInlineArguments", ConfigKeyValue::Number(number)),
            ]),
            &unset(),
        )
    };
    assert_eq!(at(0).config.max_inline_block, 0);
    assert_eq!(at(0).config.max_inline_arguments, Some(0));
    assert_eq!(at(0).diagnostics, vec![]);
    assert_eq!(at(i32::MAX).config.max_inline_block, 2147483647);
    assert_eq!(at(i32::MAX).config.max_inline_arguments, Some(2147483647));
    assert_eq!(at(-1).config.max_inline_block, 50);
    assert_eq!(at(-1).config.max_inline_arguments, None);
    assert_eq!(at(-1).diagnostics.len(), 2);
    assert_eq!(at(i32::MIN).config.max_inline_top_level, None);
}

#[test]
fn resolving_twice_gives_the_same() {
    let overrides = store(vec![
        ("uppercase", ConfigKeyValue::Bool(true)),
        ("extra", ConfigKeyValue::Number(1)),
        ("indentWidth", text("wide")),
    ]);
    let first = resolve_config(overrides.clone(), &unset());
    let second = resolve_config(overrides.clone(), &unset());
    assert_eq!(first.config, second.config);
    assert_eq!(first.diagnostics, second.diagnostics);
    assert_eq!(overrides.len(), 3);
}

#[test]
fn take_bool_takes_the_key_out() {
    let mut config = store(vec![
        ("a", ConfigKeyValue::Bool(true)),
        ("b", ConfigKeyValue::Number(1)),
        ("c", ConfigKeyValue::Bool(false)),
    ]);
    let mut diagnostics = vec![finding("earlier", "kept")];
    assert_eq!(take_bool(&mut config, "a", false, &mut diagnostics), true);
    assert_eq!(take_bool(&mut config, "c", true, &mut diagnostics), false);
    assert_eq!(take_bool(&mut config, "missing", true, &mut diagnostics), true);
    assert_eq!(diagnostics, vec![finding("earlier", "kept")]);
    assert_eq!(take_bool(&mut config, "b", true, &mut diagnostics), true);
    assert_eq!(
        diagnostics,
        vec![finding("earlier", "kept"), finding("b", "Expected a boolean value.")]
    );
    assert_eq!(config.len(), 0);
}

#[test]
fn take_small_integer_checks_the_range() {
    let mut config = store(vec![
        ("a", ConfigKeyValue::Number(17)),
        ("b", ConfigKeyValue::Number(300)),
        ("c", ConfigKeyValue::Bool(true)),
        ("d", ConfigKeyValue::Number(9)),
    ]);
    let mut diagnostics = Vec::new();
    assert_eq!(take_small_integer(&mut config, "a", 1, &mut diagnostics), 17);
    assert_eq!(take_small_integer(&mut config, "b", 1, &mut diagnostics), 1);
    assert_eq!(take_small_integer(&mut config, "c", 2, &mut diagnostics), 2);
    assert_eq!(take_small_integer(&mut config, "e", 3, &mut diagnostics), 3);
    assert_eq!(
        diagnostics,
        vec![
            finding("b", "Expected an integer from 0 to 255."),
            finding("c", "Expected an integer from 0 to 255."),
        ]
    );
    assert_eq!(config.into_keys(), vec![String::from("d")]);
}

#[test]
fn take_size_and_take_limit_differ_in_the_fallback() {
    let mut config = store(vec![
        ("a", ConfigKeyValue::Number(70)),
        ("b", ConfigKeyValue::Number(-70)),
        ("c", ConfigKeyValue::Number(80)),
        ("d", text("80")),
    ]);
    let mut diagnostics = Vec::new();
    assert_eq!(take_size(&mut config, "a", 50, &mut diagnostics), 70);
    assert_eq!(take_size(&mut config, "b", 50, &mut diagnostics), 50);
    assert_eq!(take_size(&mut config, "x", 50, &mut diagnostics), 50);
    assert_eq!(take_limit(&mut config, "c", &mut diagnostics), Some(80));
    assert_eq!(take_limit(&mut config, "d", &mut diagnostics), None);
    assert_eq!(take_limit(&mut config, "x", &mut diagnostics), None);
    assert_eq!(
        diagnostics,
        vec![
            finding("b", "Expected an integer that is not negative."),
            finding("d", "Expected an integer that is not negative."),
        ]
    );
    assert_eq!(config.len(), 0);
}

#[test]
fn take_new_line_kind_reads_names() {
    let mut config = store(vec![
        ("a", text("auto")),
        ("b", text("lf")),
        ("c", text("crlf")),
        ("d", text("system")),
        ("e", text("CRLF")),
        ("f", ConfigKeyValue::Bool(true)),
    ]);
    let mut diagnostics = Vec::new();
    let default_value = NewLineKind::LineFeed;
    assert_eq!(
        take_new_line_kind(&mut config, "a", default_value, &mut diagnostics),
        NewLineKind::Auto
    );
    assert_eq!(
        take_new_line_kind(&mut config, "b", NewLineKind::Auto, &mut diagnostics),
        NewLineKind::LineFeed
    );
    assert_eq!(
        take_new_line_kind(&mut config, "c", default_value, &mut diagnostics),
        NewLineKind::CarriageReturnLineFeed
    );
    assert_eq!(
        take_new_line_kind(&mut config, "d", default_value, &mut diagnostics),
        NewLineKind::System
    );
    assert_eq!(diagnostics, vec![]);
    assert_eq!(
        take_new_line_kind(&mut config, "e", NewLineKind::Auto, &mut diagnostics),
        NewLineKind::Auto
    );
    assert_eq!(
        take_new_line_kind(&mut config, "f", NewLineKind::System, &mut diagnostics),
        NewLineKind::System
    );
    assert_eq!(
        take_new_line_kind(&mut config, "g", NewLineKind::System, &mut diagnostics),
        NewLineKind::System
    );
    assert_eq!(
        diagnostics,
        vec![
            finding("e", "Found invalid value 'CRLF'."),
            finding("f", "Expected the name of a new line kind."),
        ]
    );
}

#[test]
fn report_unknown_keys_names_every_key() {
    assert_eq!(report_unknown_keys(ConfigKeyMap::new()), vec![]);
    let left = store(vec![
        ("b", ConfigKeyValue::Bool(true)),
        ("useTabs", ConfigKeyValue::Bool(true)),
        ("a", ConfigKeyValue::Number(1)),
    ]);
    assert_eq!(
        report_unknown_keys(left),
        vec![unknown("b"), unknown("useTabs"), unknown("a")]
    );
}

#[test]
fn a_diagnostic_can_be_cloned() {
    let found = finding("key", "message");
    assert_eq!(found.clone(), found);
    assert_ne!(found, finding("key", "other"));
    assert_ne!(found, finding("other", "message"));
}
