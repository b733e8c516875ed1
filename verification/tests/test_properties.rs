use toml_input::TomlInput;
use toml_input::Error;
use toml_input::PrimValue;
use toml_input::RawValue;
use toml_input::Schema;
use toml_input::TomlContent;
use toml_input::Value;
use toml_input::TableValue;
use toml_input::FieldValue;
use toml_input::block::Block;
use toml_input::schema::FieldSchema;
use toml_input::schema::Meta;
use toml_input::schema::TableSchema;
use toml_input::schema::VariantSchema;
use toml_input::config::EnumStyle;
use toml_input::config::TomlConfig;
use toml_input::util;

fn string_literal(s: &str) -> String {
    toml::Value::String(s.to_string()).to_string()
}

fn unit_variant(tag: &str, docs: &str) -> VariantSchema {
    VariantSchema {
        docs: docs.to_string(),
        value: PrimValue {
            tag: tag.to_string(),
            raw: Some(RawValue::Scalar(string_literal(tag))),
        },
        config: TomlConfig::default(),
    }
}

fn field(ident: &str, docs: &str, schema: Schema) -> FieldSchema {
    FieldSchema {
        ident: ident.to_string(),
        docs: docs.to_string(),
        flat: false,
        schema,
        config: TomlConfig::default(),
    }
}

fn field_value(ident: &str, value: Value) -> FieldValue {
    FieldValue {
        ident: ident.to_string(),
        value,
        flat: false,
    }
}

fn two_field_schema() -> Schema {
    let mut meta = Meta::default();
    meta.inner_type = "Test".to_string();
    meta.defined_docs = " settings".to_string();
    Schema::Table(TableSchema {
        meta,
        fields: vec![
            field("a", " first", <i32 as TomlInput>::schema().unwrap()),
            field("b", " second", <Option<usize> as TomlInput>::schema().unwrap()),
        ],
    })
}

/// Round trip: the active lines of a merged render reparse into the
/// instance that was merged; comment and inactive lines do not affect
/// reparsing.
#[test]
fn test_round_trip() {
    let value = Value::Table(TableValue {
        fields: vec![
            field_value("a", 2i32.into_value().unwrap()),
            field_value("b", Some(3usize).into_value().unwrap()),
        ],
    });
    let mut content = TomlContent {
        sections: two_field_schema().flatten(),
    };
    content.merge_value(value).unwrap();
    let text = content.render().unwrap();
    let parsed: toml::Value = text.parse().unwrap();
    let mut expected = toml::map::Map::new();
    expected.insert("a".to_string(), toml::Value::Integer(2));
    expected.insert("b".to_string(), toml::Value::Integer(3));
    assert_eq!(parsed, toml::Value::Table(expected));
}

/// Skeleton-only rendering is stable across repeated calls.
#[test]
fn test_render_stable() {
    let mut c1 = TomlContent {
        sections: two_field_schema().flatten(),
    };
    c1.config_commented(false);
    let mut c2 = TomlContent {
        sections: two_field_schema().flatten(),
    };
    c2.config_commented(false);
    let r1 = c1.render().unwrap();
    let r2 = c1.render().unwrap();
    let r3 = c2.render().unwrap();
    assert_eq!(r1, r2);
    assert_eq!(r1, r3);
}

fn flex_enum_block(n_variants: usize) -> Block {
    let tags = ["A", "B", "C", "D", "E", "F"];
    let mut variants = Vec::new();
    for tag in tags.iter().take(n_variants) {
        variants.push(unit_variant(tag, ""));
    }
    let mut meta = Meta::default();
    meta.inner_type = "TestEnum".to_string();
    meta.config.enum_style = Some(EnumStyle::Flex(4));
    meta.inner_default = PrimValue {
        tag: "A".to_string(),
        raw: Some(RawValue::Scalar(string_literal("A"))),
    };
    Block {
        key: "b".to_string(),
        ident: "b".to_string(),
        meta,
        value: None,
        variants,
    }
}

/// Flex threshold: with `Flex(4)` a union of exactly 4 variants expands,
/// one of 5 folds; the boundary is inclusive.
#[test]
fn test_flex_threshold() {
    let four = flex_enum_block(4);
    assert!(four.enum_is_expand());
    assert!(!four.enum_is_fold());
    let five = flex_enum_block(5);
    assert!(!five.enum_is_expand());
    assert!(five.enum_is_fold());
    // a folded block renders the synthesized hint line
    let rendered = five.render().unwrap();
    assert!(rendered.contains(r#"# b = "A" | "B" | "C" | "D" | "E""#));
    // an expanded block renders one line per variant instead
    let rendered = four.render().unwrap();
    assert!(rendered.contains(r#"b = "A""#));
    assert!(rendered.contains(r#"#!b = "D""#));
}

/// Merging is rejected when the instance tree is not a table at its root.
#[test]
fn test_root_must_be_record() {
    let mut content = TomlContent {
        sections: two_field_schema().flatten(),
    };
    let r = content.merge_value(2i32.into_value().unwrap());
    assert!(matches!(r, Err(Error::RootMustStruct)));
}

/// An expand or fold render demanded where the style says otherwise fails
/// with an enum style error.
#[test]
fn test_enum_style_error() {
    let mut block = flex_enum_block(2);
    block.meta.config.enum_style = Some(EnumStyle::Single);
    let raw = RawValue::Scalar(string_literal("A"));
    let r = block.render_enum_expand(false, "A".to_string(), raw);
    assert!(matches!(r, Err(Error::EnumStyleError(_))));
    let raw = RawValue::Scalar(string_literal("A"));
    let r = block.render_enum_fold(false, "A".to_string(), raw);
    assert!(matches!(r, Err(Error::EnumStyleError(_))));
}

/// An unsigned value beyond the serialized integer range is rejected.
#[test]
fn test_unsigned_out_of_range() {
    let r = u64::MAX.into_value();
    assert!(matches!(r, Err(Error::TomlSerError(_))));
    let r = 17u64.into_value();
    assert!(r.is_ok());
}

/// Integer literals are exact decimal text, including the extremes.
#[test]
fn test_integer_literals() {
    assert_eq!(toml_input::raw::format_i64(0), "0");
    assert_eq!(toml_input::raw::format_i64(-5), "-5");
    assert_eq!(toml_input::raw::format_i64(1234567890), "1234567890");
    assert_eq!(toml_input::raw::format_i64(i64::MIN), "-9223372036854775808");
    assert_eq!(toml_input::raw::format_i64(i64::MAX), "9223372036854775807");
    assert_eq!(toml_input::raw::format_u64(0), "0");
    assert_eq!(toml_input::raw::format_u64(10), "10");
    assert_eq!(toml_input::raw::format_bool(true), "true");
    assert_eq!(toml_input::raw::format_bool(false), "false");
}

/// The string formatter quotes and escapes: it never hands its argument
/// back unchanged.
#[test]
fn test_string_literal_quoted() {
    let v = "plain".to_string().into_value().unwrap();
    let leaves = v.flatten();
    let rendered = leaves[0].value.as_ref().unwrap().render();
    assert_eq!(rendered, "\"plain\"");
    let v = "with \"quotes\"".to_string().into_value().unwrap();
    let leaves = v.flatten();
    let rendered = leaves[0].value.as_ref().unwrap().render();
    let parsed: toml::Value = format!("x = {rendered}").parse().unwrap();
    assert_eq!(parsed.get("x").and_then(|x| x.as_str()), Some("with \"quotes\""));
}

/// An inline raw array renders its elements joined by commas.
#[test]
fn test_raw_array_render() {
    let raw = RawValue::Array(vec![
        RawValue::Scalar("1".to_string()),
        RawValue::Scalar("2".to_string()),
    ]);
    assert_eq!(raw.render(), "[1, 2]");
    assert_eq!(RawValue::Array(vec![]).render(), "[]");
    assert_eq!(RawValue::Table(vec![]).render(), "{}");
}

#[test]
fn test_text_helpers() {
    assert_eq!(util::prefix_lines("x\ny", "> "), "> x\n> y");
    assert_eq!(util::comment_lines(" doc"), "# doc");
    assert_eq!(util::comment_lines(""), "");
    assert_eq!(util::key_parent("a.b.c"), "a.b");
    assert_eq!(util::key_parent("a"), "");
    assert_eq!(util::remove_prefix_tag(" .a.b "), "a.b");
    assert_eq!(util::remove_prefix_tag("a.b"), "a.b");
    let mut key = String::new();
    util::increase_key(&mut key, "b");
    assert_eq!(key, "b");
    util::increase_key(&mut key, "a");
    assert_eq!(key, "a.b");
    let mut text = "x".to_string();
    util::append_line(&mut text);
    assert_eq!(text, "x\n");
    let mut blank = "  ".to_string();
    util::append_line(&mut blank);
    assert_eq!(blank, "  ");
    assert_eq!(util::trim_str("  a b \n"), "a b");
}

/// A flattened nested record contributes its fields directly to the
/// parent's key-path space: no extra path segment, no extra header.
#[test]
fn test_flatten_field() {
    let mut inner_meta = Meta::default();
    inner_meta.inner_type = "Inner".to_string();
    let inner = Schema::Table(TableSchema {
        meta: inner_meta,
        fields: vec![field("x", " nested", <i32 as TomlInput>::schema().unwrap())],
    });
    let mut meta = Meta::default();
    meta.inner_type = "Outer".to_string();
    meta.defined_docs = " outer".to_string();
    let mut flat_field = field("inner", " spliced", inner);
    flat_field.flat = true;
    let schema = Schema::Table(TableSchema {
        meta,
        fields: vec![
            field("a", " plain", <i32 as TomlInput>::schema().unwrap()),
            flat_field,
        ],
    });
    let value = Value::Table(TableValue {
        fields: vec![
            field_value("a", 1i32.into_value().unwrap()),
            FieldValue {
                ident: "inner".to_string(),
                value: Value::Table(TableValue {
                    fields: vec![field_value("x", 7i32.into_value().unwrap())],
                }),
                flat: true,
            },
        ],
    });
    let mut content = TomlContent {
        sections: schema.flatten(),
    };
    content.merge_value(value).unwrap();
    let text = content.render().unwrap();
    println!("{text}");
    // `x` is addressed at the top level, with no `inner.` segment and no
    // `[inner]` header
    assert!(text.contains("x = 7"));
    assert!(!text.contains("[inner]"));
    assert!(!text.contains("inner.x"));
    let parsed: toml::Value = text.parse().unwrap();
    assert_eq!(parsed.get("x").and_then(|v| v.as_integer()), Some(7));
}

/// Two array elements merge into two sections in list order; each element's
/// values stay with its own section instance.
#[test]
fn test_array_sections_in_order() {
    let mut inner_meta = Meta::default();
    inner_meta.inner_type = "Item".to_string();
    let mut item = Schema::Table(TableSchema {
        meta: inner_meta,
        fields: vec![field("n", "", <i32 as TomlInput>::schema().unwrap())],
    });
    let _ = item.set_wrap_type("Vec".to_string());
    item.meta_mut().is_array = true;
    let mut meta = Meta::default();
    meta.inner_type = "Holder".to_string();
    let schema = Schema::Table(TableSchema {
        meta,
        fields: vec![field("items", "", item)],
    });
    let element = |n: i32| {
        Value::Table(TableValue {
            fields: vec![field_value("n", n.into_value().unwrap())],
        })
    };
    let value = Value::Table(TableValue {
        fields: vec![field_value(
            "items",
            Value::Array(toml_input::ArrayValue {
                values: vec![element(10), element(20)],
            }),
        )],
    });
    let mut content = TomlContent {
        sections: schema.flatten(),
    };
    content.merge_value(value).unwrap();
    let text = content.render().unwrap();
    let first = text.find("n = 10").unwrap();
    let second = text.find("n = 20").unwrap();
    assert!(first < second);
    assert_eq!(text.matches("[[items]]").count(), 2);
}
