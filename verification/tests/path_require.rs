use path_require::aliases::AliasMap;
use path_require::errors::ConfigError;
use path_require::errors::EmitError;
use path_require::get_default_module_folder_name;
use path_require::is_default_module_folder_name;
use path_require::mode::PathRequireMode;
use path_require::mode::default_sources;
use path_require::nodes::Arguments;
use path_require::nodes::FunctionCall;
use path_require::nodes::StringExpression;
use path_require::text::replace_backslashes;

fn require_call(literal: &str) -> FunctionCall {
    FunctionCall {
        name: String::from("require"),
        arguments: Arguments::StringLiteral(StringExpression::new(String::from(literal)).unwrap()),
    }
}

fn emitted_literal(mode: &PathRequireMode, path: &str, current: &str) -> String {
    match mode.generate_require(path, current).unwrap() {
        Arguments::StringLiteral(e) => e.get_value().clone(),
        Arguments::Other => panic!("emitter must produce a string literal"),
    }
}

#[test]
fn default_mode_is_false_for_regular_name() {
    let require_mode = PathRequireMode::default();

    assert!(!require_mode.is_module_folder_name("oops.lua"));
}

#[test]
fn default_mode_is_true_for_init_lua() {
    let require_mode = PathRequireMode::default();

    assert!(require_mode.is_module_folder_name("init.lua"));
}

#[test]
fn default_mode_is_true_for_init_luau() {
    let require_mode = PathRequireMode::default();

    assert!(require_mode.is_module_folder_name("init.luau"));
}

#[test]
fn default_mode_is_true_for_folder_init_lua() {
    let require_mode = PathRequireMode::default();

    assert!(require_mode.is_module_folder_name("folder/init.lua"));
}

#[test]
fn default_mode_is_true_for_folder_init_luau() {
    let require_mode = PathRequireMode::default();

    assert!(require_mode.is_module_folder_name("folder/init.luau"));
}

#[test]
fn default_mode_is_true_for_bare_init() {
    let require_mode = PathRequireMode::default();

    assert!(require_mode.is_module_folder_name("init"));
}

#[test]
fn default_mode_is_false_for_name_with_init_suffix() {
    let require_mode = PathRequireMode::default();

    assert!(!require_mode.is_module_folder_name("myinit.lua"));
}

#[test]
fn dot_components_never_match() {
    let dot_mode = PathRequireMode::new(".", None);
    assert!(!dot_mode.is_module_folder_name("."));
    assert!(!dot_mode.is_module_folder_name("a/."));

    let dotdot_mode = PathRequireMode::new("..", None);
    assert!(!dotdot_mode.is_module_folder_name("a/.."));
    assert!(!dotdot_mode.is_module_folder_name(".."));
}

#[test]
fn custom_folder_name_matches_stem() {
    let require_mode = PathRequireMode::new("mod", None);

    assert!(require_mode.is_module_folder_name("lib/mod.lua"));
    assert!(!require_mode.is_module_folder_name("lib/init.lua"));
}

#[test]
fn default_module_folder_name_is_init() {
    assert_eq!(get_default_module_folder_name(), "init");
    assert!(is_default_module_folder_name(&String::from("init")));
    assert!(!is_default_module_folder_name(&String::from("mod")));
}

#[test]
fn alias_map_insert_and_get() {
    let mut map = AliasMap::new();
    map.insert(String::from("@a"), String::from("/x"));
    assert_eq!(map.get("@a").unwrap(), "/x");
    assert!(map.get("@b").is_none());
    assert_eq!(map.len(), 1);
}

#[test]
fn alias_map_insert_overrides() {
    let mut map = AliasMap::new();
    map.insert(String::from("@a"), String::from("/x"));
    map.insert(String::from("@a"), String::from("/y"));
    assert_eq!(map.get("@a").unwrap(), "/y");
    assert_eq!(map.len(), 1);
}

#[test]
fn alias_map_from_pairs_keeps_last() {
    let pairs = vec![
        (String::from("@a"), String::from("/x")),
        (String::from("@b"), String::from("/z")),
        (String::from("@a"), String::from("/y")),
    ];
    let map = AliasMap::from_pairs(&pairs);
    assert_eq!(map.get("@a").unwrap(), "/y");
    assert_eq!(map.get("@b").unwrap(), "/z");
    assert_eq!(map.len(), 2);
}

#[test]
fn load_with_no_document_keeps_mapping() {
    let mut map = AliasMap::new();
    map.insert(String::from("@a"), String::from("/x"));
    let loaded = PathRequireMode::load_luaurc(map, None).unwrap();
    assert_eq!(loaded.get("@a").unwrap(), "/x");
    assert_eq!(loaded.len(), 1);
}

#[test]
fn load_merges_convention_aliases_last_wins() {
    let mut map = AliasMap::new();
    map.insert(String::from("@a"), String::from("/x"));
    let loaded =
        PathRequireMode::load_luaurc(map, Some(r#"{"aliases":{"a":"/y"}}"#)).unwrap();
    assert_eq!(loaded.get("@a").unwrap(), "/y");
}

#[test]
fn load_decorates_alias_names() {
    let loaded =
        PathRequireMode::load_luaurc(AliasMap::new(), Some(r#"{"aliases":{"a":"/y"}}"#)).unwrap();
    assert!(loaded.get("a").is_none());
    assert_eq!(loaded.get("@a").unwrap(), "/y");
}

#[test]
fn load_ignores_other_convention_fields() {
    let document = r#"{"aliases":{"a":"/y"},"languageMode":"strict"}"#;
    let loaded = PathRequireMode::load_luaurc(AliasMap::new(), Some(document)).unwrap();
    assert_eq!(loaded.get("@a").unwrap(), "/y");
}

#[test]
fn load_rejects_malformed_document() {
    let r = PathRequireMode::load_luaurc(AliasMap::new(), Some("not json"));
    assert!(matches!(r, Err(ConfigError::Syntax { .. })));
}

#[test]
fn load_rejects_document_without_aliases() {
    let r = PathRequireMode::load_luaurc(AliasMap::new(), Some("{}"));
    assert!(matches!(r, Err(ConfigError::MissingAliases)));
}

#[test]
fn load_rejects_non_object_aliases() {
    let r = PathRequireMode::load_luaurc(AliasMap::new(), Some(r#"{"aliases": 5}"#));
    assert!(matches!(r, Err(ConfigError::AliasesNotStringMap)));

    let r = PathRequireMode::load_luaurc(AliasMap::new(), Some(r#"{"aliases":{"a":1}}"#));
    assert!(matches!(r, Err(ConfigError::AliasesNotStringMap)));
}

#[test]
fn default_sources_without_convention_is_empty() {
    let map = default_sources(None);
    assert_eq!(map.len(), 0);
}

#[test]
fn default_sources_swallows_malformed_convention() {
    let map = default_sources(Some("not json"));
    assert_eq!(map.len(), 0);
}

#[test]
fn default_sources_reads_convention() {
    let map = default_sources(Some(r#"{"aliases":{"pkg":"/libs"}}"#));
    assert_eq!(map.get("@pkg").unwrap(), "/libs");
}

#[test]
fn deserialize_empty_document_gives_defaults() {
    let mode = PathRequireMode::deserialize("{}", None).unwrap();
    assert_eq!(mode.module_folder_name(), "init");
    assert!(mode.get_source("@a").is_none());
}

#[test]
fn deserialize_reads_module_folder_name() {
    let mode =
        PathRequireMode::deserialize(r#"{"module_folder_name":"mod"}"#, None).unwrap();
    assert_eq!(mode.module_folder_name(), "mod");
    assert!(mode.is_module_folder_name("lib/mod.lua"));
}

#[test]
fn deserialize_reads_sources() {
    let mode = PathRequireMode::deserialize(r#"{"sources":{"@a":"/x"}}"#, None).unwrap();
    assert_eq!(mode.get_source("@a").unwrap(), "/x");
}

#[test]
fn deserialize_convention_overrides_explicit_sources() {
    let mode = PathRequireMode::deserialize(
        r#"{"sources":{"@a":"/x"}}"#,
        Some(r#"{"aliases":{"a":"/y"}}"#),
    )
    .unwrap();
    assert_eq!(mode.get_source("@a").unwrap(), "/y");
}

#[test]
fn deserialize_rejects_unknown_field() {
    let r = PathRequireMode::deserialize(r#"{"unexpected": true}"#, None);
    assert!(matches!(r, Err(ConfigError::UnknownField { .. })));
}

#[test]
fn deserialize_rejects_wrongly_typed_fields() {
    let r = PathRequireMode::deserialize(r#"{"module_folder_name": 5}"#, None);
    assert!(matches!(r, Err(ConfigError::FieldType { .. })));

    let r = PathRequireMode::deserialize(r#"{"sources": "nope"}"#, None);
    assert!(matches!(r, Err(ConfigError::FieldType { .. })));
}

#[test]
fn deserialize_rejects_malformed_document() {
    let r = PathRequireMode::deserialize("[1, 2]", None);
    assert!(matches!(r, Err(ConfigError::Syntax { .. })));
}

#[test]
fn resolver_recognizes_path_import() {
    let mode = PathRequireMode::default();
    let call = require_call("./a.lua");
    assert_eq!(mode.find_require(&call).unwrap(), "./a.lua");
}

#[test]
fn resolver_passes_over_other_calls_without_error() {
    let mode = PathRequireMode::default();

    let other_name = FunctionCall {
        name: String::from("print"),
        arguments: Arguments::StringLiteral(
            StringExpression::new(String::from("./a.lua")).unwrap(),
        ),
    };
    assert!(mode.find_require(&other_name).is_none());

    let other_shape = FunctionCall { name: String::from("require"), arguments: Arguments::Other };
    assert!(mode.find_require(&other_shape).is_none());
}

#[test]
fn emitter_marks_sibling_with_dot_slash() {
    let mode = PathRequireMode::default();
    assert_eq!(emitted_literal(&mode, "src/a.lua", "src/b.lua"), "./a.lua");
}

#[test]
fn emitter_keeps_descendant_tail() {
    let mode = PathRequireMode::default();
    assert_eq!(emitted_literal(&mode, "src/sub/mod.lua", "src/b.lua"), "./sub/mod.lua");
}

#[test]
fn emitter_marks_sibling_of_root_file() {
    let mode = PathRequireMode::default();
    assert_eq!(emitted_literal(&mode, "c.lua", "main.lua"), "./c.lua");
}

#[test]
fn emitter_keeps_parent_marker_without_dot_slash() {
    let mode = PathRequireMode::default();
    assert_eq!(emitted_literal(&mode, "a/x.lua", "a/src/b.lua"), "../x.lua");
}

#[test]
fn emitter_marks_target_branching_off_the_parent() {
    let mode = PathRequireMode::default();
    assert_eq!(emitted_literal(&mode, "a/lib/util.lua", "a/src/b.lua"), "../lib/util.lua");
}

#[test]
fn emitter_output_holds_only_forward_slashes() {
    let mode = PathRequireMode::default();
    let lit = emitted_literal(&mode, "src/sub/deep/mod.lua", "src/b.lua");
    assert!(!lit.contains('\\'));
    assert_eq!(lit, "./sub/deep/mod.lua");
}

#[test]
fn separator_normalization_turns_backslashes_forward() {
    assert_eq!(replace_backslashes("a\\b\\c.lua"), "a/b/c.lua");
    assert_eq!(replace_backslashes("a/b"), "a/b");
}

#[test]
fn emitter_round_trip_resolves_back() {
    let mode = PathRequireMode::default();
    let current = "src/b.lua";
    let lit = emitted_literal(&mode, "src/a.lua", current);
    // resolving the emitted literal from the current file's directory
    // reaches the original target again
    assert_eq!(lit.strip_prefix("./").map(|tail| format!("src/{tail}")).unwrap(), "src/a.lua");
}

#[test]
fn emitter_fails_when_no_difference_exists() {
    let mode = PathRequireMode::default();
    let r = mode.generate_require("x.lua", "/abs/b.lua");
    assert!(matches!(r, Err(EmitError::PathDifference)));
}

#[test]
fn emitter_fails_on_unbracketable_text() {
    let mode = PathRequireMode::default();
    let r = mode.generate_require("src/x]]y.lua", "src/b.lua");
    assert!(matches!(r, Err(EmitError::Literal)));
}

#[test]
fn string_expression_checks_bracket_form() {
    assert_eq!(StringExpression::new(String::from("./a.lua")).unwrap().get_value(), "./a.lua");
    assert!(matches!(StringExpression::new(String::from("a]]b")), Err(EmitError::Literal)));
    assert!(matches!(StringExpression::new(String::from("a]")), Err(EmitError::Literal)));
}
