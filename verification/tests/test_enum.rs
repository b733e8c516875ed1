use toml_input::TomlInput;
use toml_input::Schema;
use toml_input::TomlContent;
use toml_input::Value;
use toml_input::TableValue;
use toml_input::FieldValue;
use toml_input::PrimValue;
use toml_input::RawValue;
use toml_input::RawEntry;
use toml_input::schema::FieldSchema;
use toml_input::schema::Meta;
use toml_input::schema::PrimSchema;
use toml_input::schema::TableSchema;
use toml_input::schema::VariantSchema;
use toml_input::config::EnumStyle;
use toml_input::config::TomlConfig;

/// The TOML literal of a string, as the serialization front end writes it.
fn string_literal(s: &str) -> String {
    toml::Value::String(s.to_string()).to_string()
}

fn unit_variant(tag: &str, docs: &str) -> VariantSchema {
    VariantSchema {
        docs: docs.to_string(),
        value: PrimValue {
            tag: tag.to_string(),
            raw: Some(RawValue::Scalar(string_literal(tag))),
        },
        config: TomlConfig::default(),
    }
}

/// The schema of `enum TestEnum { A, #[default] B }` with doc comments.
fn unit_enum_schema(enum_style: Option<EnumStyle>) -> Schema {
    let mut meta = Meta::default();
    meta.inner_type = "TestEnum".to_string();
    meta.defined_docs = " comment `TestEnum`".to_string();
    meta.inner_default = PrimValue {
        tag: "B".to_string(),
        raw: Some(RawValue::Scalar(string_literal("B"))),
    };
    meta.config.enum_style = enum_style;
    Schema::Prim(PrimSchema {
        meta,
        variants: vec![
            unit_variant("A", " comment `A`"),
            unit_variant("B", " comment `B`"),
        ],
    })
}

/// The schema of `struct Test { a: i32, b: TestEnum }`.
fn enum_struct_schema(enum_style: Option<EnumStyle>) -> Schema {
    let mut meta = Meta::default();
    meta.inner_type = "Test".to_string();
    meta.defined_docs = " comment `Test`".to_string();
    let fa = FieldSchema {
        ident: "a".to_string(),
        docs: " comment `a`".to_string(),
        flat: false,
        schema: <i32 as TomlInput>::schema().unwrap(),
        config: TomlConfig::default(),
    };
    let mut fb_config = TomlConfig::default();
    fb_config.enum_style = enum_style;
    let fb = FieldSchema {
        ident: "b".to_string(),
        docs: " comment `b`".to_string(),
        flat: false,
        schema: unit_enum_schema(enum_style),
        config: fb_config,
    };
    Schema::Table(TableSchema {
        meta,
        fields: vec![fa, fb],
    })
}

fn field_value(ident: &str, value: Value) -> FieldValue {
    FieldValue {
        ident: ident.to_string(),
        value,
        flat: false,
    }
}

/// The serialized value of a unit variant: its tag and quoted literal.
fn variant_value(tag: &str) -> Value {
    Value::Prim(PrimValue {
        tag: tag.to_string(),
        raw: Some(RawValue::Scalar(string_literal(tag))),
    })
}

fn render_schema(schema: Schema) -> String {
    let mut content = TomlContent {
        sections: schema.flatten(),
    };
    content.config_commented(false);
    content.render().unwrap()
}

fn render_merged(schema: Schema, value: Value) -> String {
    let mut content = TomlContent {
        sections: schema.flatten(),
    };
    content.merge_value(value).unwrap();
    content.render().unwrap()
}

#[test]
fn test_enum_test_schema() {
    let text = render_schema(enum_struct_schema(None));
    println!("{}", text);
    let res = r#"# comment `Test`

# comment `a`
a = 0
# comment `A`
#!b = "A"
# comment `B`
b = "B""#;
    assert_eq!(res, text);
    let parsed: toml::Value = res.parse().unwrap();
    assert_eq!(parsed.get("b").and_then(|v| v.as_str()), Some("B"));
}

#[test]
fn test_enum_test_value() {
    let value = Value::Table(TableValue {
        fields: vec![
            field_value("a", 1i32.into_value().unwrap()),
            field_value("b", variant_value("A")),
        ],
    });
    let text = render_merged(enum_struct_schema(None), value);
    let res = r#"# comment `Test`

# comment `a`
a = 1
# comment `A`
b = "A"
# comment `B`
#!b = "B""#;
    assert_eq!(res, text);
    let parsed: toml::Value = res.parse().unwrap();
    assert_eq!(parsed.get("a").and_then(|v| v.as_integer()), Some(1));
    assert_eq!(parsed.get("b").and_then(|v| v.as_str()), Some("A"));
}

#[test]
fn test_single() {
    let value = Value::Table(TableValue {
        fields: vec![
            field_value("a", 0i32.into_value().unwrap()),
            field_value("b", variant_value("B")),
        ],
    });
    let text = render_merged(enum_struct_schema(Some(EnumStyle::Single)), value);
    println!("{}", text);
    let res = r#"# comment `Test`

# comment `a`
a = 0
# comment `B`
b = "B""#;
    assert_eq!(res, text);
    let parsed: toml::Value = res.parse().unwrap();
    assert_eq!(parsed.get("b").and_then(|v| v.as_str()), Some("B"));
}

#[test]
fn test_fold() {
    let value = Value::Table(TableValue {
        fields: vec![
            field_value("a", 0i32.into_value().unwrap()),
            field_value("b", variant_value("B")),
        ],
    });
    let text = render_merged(enum_struct_schema(Some(EnumStyle::Fold)), value);
    println!("{}", text);
    let res = r#"# comment `Test`

# comment `a`
a = 0
# b = "A" | "B"
# comment `B`
b = "B""#;
    assert_eq!(res, text);
    let parsed: toml::Value = res.parse().unwrap();
    assert_eq!(parsed.get("b").and_then(|v| v.as_str()), Some("B"));
}

#[test]
fn test_tuple() {
    // enum TestEnum { A, B(String) }, default B(String::new())
    let mut meta = Meta::default();
    meta.inner_type = "TestEnum".to_string();
    meta.defined_docs = " comment `TestEnum`".to_string();
    meta.inner_default = PrimValue {
        tag: "B".to_string(),
        raw: Some(tuple_payload("")),
    };
    let enum_schema = Schema::Prim(PrimSchema {
        meta,
        variants: vec![
            unit_variant("A", " comment `A`"),
            VariantSchema {
                docs: " comment `B`".to_string(),
                value: PrimValue {
                    tag: "B".to_string(),
                    raw: Some(tuple_payload("")),
                },
                config: TomlConfig::default(),
            },
        ],
    });
    let schema = wrap_in_test_struct(enum_schema);
    let value = Value::Table(TableValue {
        fields: vec![
            field_value("a", 0i32.into_value().unwrap()),
            field_value(
                "b",
                Value::Prim(PrimValue {
                    tag: "B".to_string(),
                    raw: Some(tuple_payload("test B")),
                }),
            ),
        ],
    });
    let text = render_merged(schema, value);
    println!("{}", text);
    let res = r#"# comment `Test`

# comment `a`
a = 0
# comment `A`
#!b = "A"
# comment `B`
b = { B = "test B" }"#;
    assert_eq!(res, text);
    let parsed: toml::Value = res.parse().unwrap();
    assert_eq!(
        parsed
            .get("b")
            .and_then(|v| v.get("B"))
            .and_then(|v| v.as_str()),
        Some("test B")
    );
}

/// The serialized payload of `TestEnum::B(text)`: the inline table
/// `{ B = "text" }`.
fn tuple_payload(text: &str) -> RawValue {
    RawValue::Table(vec![RawEntry {
        key: "B".to_string(),
        value: RawValue::Scalar(string_literal(text)),
    }])
}

/// Wraps a union schema as field `b` of `struct Test { a: i32, b: ... }`.
fn wrap_in_test_struct(enum_schema: Schema) -> Schema {
    let mut meta = Meta::default();
    meta.inner_type = "Test".to_string();
    meta.defined_docs = " comment `Test`".to_string();
    let fa = FieldSchema {
        ident: "a".to_string(),
        docs: " comment `a`".to_string(),
        flat: false,
        schema: <i32 as TomlInput>::schema().unwrap(),
        config: TomlConfig::default(),
    };
    let fb = FieldSchema {
        ident: "b".to_string(),
        docs: " comment `b`".to_string(),
        flat: false,
        schema: enum_schema,
        config: TomlConfig::default(),
    };
    Schema::Table(TableSchema {
        meta,
        fields: vec![fa, fb],
    })
}

#[test]
fn test_enum_test_struct() {
    // enum TestEnum { #[default] A, B { c: usize, d: f64 } }
    let mut meta = Meta::default();
    meta.inner_type = "TestEnum".to_string();
    meta.defined_docs = " comment `TestEnum`".to_string();
    meta.inner_default = PrimValue {
        tag: "A".to_string(),
        raw: Some(RawValue::Scalar(string_literal("A"))),
    };
    let payload = |c: &str, d: &str| {
        RawValue::Table(vec![RawEntry {
            key: "B".to_string(),
            value: RawValue::Table(vec![
                RawEntry {
                    key: "c".to_string(),
                    value: RawValue::Scalar(c.to_string()),
                },
                RawEntry {
                    key: "d".to_string(),
                    value: RawValue::Scalar(d.to_string()),
                },
            ]),
        }])
    };
    let enum_schema = Schema::Prim(PrimSchema {
        meta,
        variants: vec![
            unit_variant("A", " comment `A`"),
            VariantSchema {
                docs: " comment `B`".to_string(),
                value: PrimValue {
                    tag: "B".to_string(),
                    raw: Some(payload("0", "0.0")),
                },
                config: TomlConfig::default(),
            },
        ],
    });
    let schema = wrap_in_test_struct(enum_schema);
    let value = Value::Table(TableValue {
        fields: vec![
            field_value("a", 0i32.into_value().unwrap()),
            field_value(
                "b",
                Value::Prim(PrimValue {
                    tag: "B".to_string(),
                    raw: Some(payload("2", "1.5")),
                }),
            ),
        ],
    });
    let text = render_merged(schema, value);
    println!("{}", text);
    let res = r#"# comment `Test`

# comment `a`
a = 0
# comment `A`
#!b = "A"
# comment `B`
b = { B = { c = 2, d = 1.5 } }"#;
    assert_eq!(res, text);
    let parsed: toml::Value = res.parse().unwrap();
    assert_eq!(
        parsed
            .get("b")
            .and_then(|v| v.get("B"))
            .and_then(|v| v.get("c"))
            .and_then(|v| v.as_integer()),
        Some(2)
    );
}
