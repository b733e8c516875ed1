use toml_input::TomlInput;
use toml_input::Schema;
use toml_input::TomlContent;
use toml_input::Value;
use toml_input::TableValue;
use toml_input::FieldValue;
use toml_input::schema::FieldSchema;
use toml_input::schema::Meta;
use toml_input::schema::TableSchema;
use toml_input::config::OptionStyle;
use toml_input::config::TomlConfig;

/// The schema of `struct Test { a: i32, b: Option<usize> }` with the given
/// option policy on `b`.
fn option_schema(option_style: Option<OptionStyle>) -> Schema {
    let mut meta = Meta::default();
    meta.inner_type = "Test".to_string();
    meta.defined_docs = " comment `Test`".to_string();
    let fa = FieldSchema {
        ident: "a".to_string(),
        docs: " comment `a`".to_string(),
        flat: false,
        schema: <i32 as TomlInput>::schema().unwrap(),
        config: TomlConfig::default(),
    };
    let mut fb_config = TomlConfig::default();
    fb_config.option_style = option_style;
    let fb = FieldSchema {
        ident: "b".to_string(),
        docs: " comment `b`".to_string(),
        flat: false,
        schema: <Option<usize> as TomlInput>::schema().unwrap(),
        config: fb_config,
    };
    Schema::Table(TableSchema {
        meta,
        fields: vec![fa, fb],
    })
}

fn instance_value(a: i32, b: Option<usize>) -> Value {
    Value::Table(TableValue {
        fields: vec![
            FieldValue {
                ident: "a".to_string(),
                value: a.into_value().unwrap(),
                flat: false,
            },
            FieldValue {
                ident: "b".to_string(),
                value: b.into_value().unwrap(),
                flat: false,
            },
        ],
    })
}

fn merged_content(schema: Schema, value: Value) -> TomlContent {
    let mut content = TomlContent {
        sections: schema.flatten(),
    };
    content.merge_value(value).unwrap();
    content
}

#[test]
fn test_skip_none() {
    let schema = option_schema(Some(OptionStyle::SkipNone));
    let res = merged_content(schema, instance_value(2, None)).render().unwrap();
    let text = "# comment `Test`

# comment `a`
a = 2"
        .to_string();
    assert_eq!(res, text);
    let parsed: toml::Value = text.parse().unwrap();
    assert!(parsed.get("b").is_none());

    let schema = option_schema(Some(OptionStyle::SkipNone));
    let res = merged_content(schema, instance_value(2, Some(3))).render().unwrap();
    let text = "# comment `Test`

# comment `a`
a = 2
# comment `b`
b = 3"
        .to_string();
    assert_eq!(res, text);
    let parsed: toml::Value = text.parse().unwrap();
    assert_eq!(parsed.get("b").and_then(|v| v.as_integer()), Some(3));
}

#[test]
fn test_expand_none() {
    let schema = option_schema(Some(OptionStyle::ExpandNone));
    let res = merged_content(schema, instance_value(2, None)).render().unwrap();
    let text = "# comment `Test`

# comment `a`
a = 2
# comment `b`
#!b = 0"
        .to_string();
    assert_eq!(res, text);
    let parsed: toml::Value = text.parse().unwrap();
    assert_eq!(parsed.get("a").and_then(|v| v.as_integer()), Some(2));
    assert!(parsed.get("b").is_none());
}

#[test]
fn test_comment_style() {
    let schema = option_schema(None);
    let mut content = merged_content(schema, instance_value(2, None));
    content.config_comment_style_hide();
    let res = content.render().unwrap();
    let text = "a = 2
#!b = 0"
        .to_string();
    assert_eq!(res, text);
    let parsed: toml::Value = text.parse().unwrap();
    assert_eq!(parsed.get("a").and_then(|v| v.as_integer()), Some(2));
}
