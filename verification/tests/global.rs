use dprint_plugin_sql::configuration::{
    resolve_config, ConfigKeyMap, ConfigKeyValue, ConfigurationBuilder, ConfigurationDiagnostic,
    GlobalConfiguration, NewLineKind,
};

fn kinds() -> [(NewLineKind, &'static str); 4] {
    [
        (NewLineKind::Auto, "auto"),
        (NewLineKind::LineFeed, "lf"),
        (NewLineKind::CarriageReturnLineFeed, "crlf"),
        (NewLineKind::System, "system"),
    ]
}

#[test]
fn new_line_kinds_are_stored_under_their_names() {
    for (kind, name) in kinds() {
        let mut builder = ConfigurationBuilder::new();
        builder.new_line_kind(kind);
        let mut stored = builder.get_inner_config();
        assert_eq!(stored.len(), 1);
        assert_eq!(stored.remove("newLineKind"), Some(ConfigKeyValue::String(String::from(name))));
    }
}

#[test]
fn new_line_kinds_are_read_from_their_names() {
    for (kind, name) in kinds() {
        let mut overrides = ConfigKeyMap::new();
        overrides.insert(String::from("newLineKind"), ConfigKeyValue::from_str(name));
        let resolved = resolve_config(overrides, &GlobalConfiguration::default());
        assert_eq!(resolved.config.new_line_kind, kind);
        assert_eq!(resolved.diagnostics, vec![]);
    }
}

#[test]
fn other_text_is_no_new_line_kind() {
    for text in ["something", "", "LF", "lf ", "it's", "auto\n"] {
        let mut overrides = ConfigKeyMap::new();
        overrides.insert(String::from("newLineKind"), ConfigKeyValue::from_str(text));
        let global = GlobalConfiguration {
            new_line_kind: Some(NewLineKind::System),
            ..GlobalConfiguration::default()
        };
        let resolved = resolve_config(overrides, &global);
        assert_eq!(resolved.config.new_line_kind, NewLineKind::System);
        assert_eq!(
            resolved.diagnostics,
            vec![ConfigurationDiagnostic {
                property_name: String::from("newLineKind"),
                message: format!("Found invalid value '{}'.", text),
            }]
        );
    }
}

#[test]
fn the_default_global_configuration_sets_nothing() {
    let unset = GlobalConfiguration {
        line_width: None,
        use_tabs: None,
        indent_width: None,
        new_line_kind: None,
    };
    assert_eq!(GlobalConfiguration::default(), unset);
    let mut explicit = ConfigurationBuilder::new();
    explicit.global_config(unset);
    assert_eq!(ConfigurationBuilder::new().build(), explicit.build());
}

#[test]
fn open_shared_options_take_the_recommended_values() {
    let outside = dprint_core::configuration::RECOMMENDED_GLOBAL_CONFIGURATION;
    let config = resolve_config(ConfigKeyMap::new(), &GlobalConfiguration::default()).config;
    assert_eq!(config.use_tabs, false);
    assert_eq!(config.indent_width, 2);
    assert_eq!(config.new_line_kind, NewLineKind::LineFeed);
    assert_eq!(config.use_tabs, outside.use_tabs);
    assert_eq!(config.indent_width, outside.indent_width);
    assert_eq!(outside.new_line_kind.to_string(), "lf");
}
