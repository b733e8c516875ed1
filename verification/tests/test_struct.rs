use toml_input::TomlInput;
use toml_input::Schema;
use toml_input::TomlContent;
use toml_input::Value;
use toml_input::TableValue;
use toml_input::FieldValue;
use toml_input::schema::FieldSchema;
use toml_input::schema::Meta;
use toml_input::schema::TableSchema;
use toml_input::config::TomlConfig;

/// The schema the derive front end would hand over for
/// `struct Test { a: i32, b: Option<usize> }` with doc comments.
fn test_struct_schema() -> Schema {
    let mut meta = Meta::default();
    meta.inner_type = "Test".to_string();
    meta.defined_docs = " comment `Test`".to_string();
    let fa = FieldSchema {
        ident: "a".to_string(),
        docs: " comment `a`".to_string(),
        flat: false,
        schema: <i32 as TomlInput>::schema().unwrap(),
        config: TomlConfig::default(),
    };
    let fb = FieldSchema {
        ident: "b".to_string(),
        docs: " comment `b`".to_string(),
        flat: false,
        schema: <Option<usize> as TomlInput>::schema().unwrap(),
        config: TomlConfig::default(),
    };
    Schema::Table(TableSchema {
        meta,
        fields: vec![fa, fb],
    })
}

fn field_value(ident: &str, value: Value) -> FieldValue {
    FieldValue {
        ident: ident.to_string(),
        value,
        flat: false,
    }
}

fn render_schema(schema: Schema) -> String {
    let mut content = TomlContent {
        sections: schema.flatten(),
    };
    content.config_commented(false);
    content.render().unwrap()
}

fn render_merged(schema: Schema, value: Value) -> String {
    let mut content = TomlContent {
        sections: schema.flatten(),
    };
    content.merge_value(value).unwrap();
    content.render().unwrap()
}

#[test]
fn test_struct_test_schema() {
    let res = render_schema(test_struct_schema());
    let text = "# comment `Test`

# comment `a`
a = 0
# comment `b`
b = 0"
        .to_string();
    assert_eq!(res, text);
    let _: toml::Value = text.parse().unwrap();
}

#[test]
fn test_struct_test_value() {
    let value = Value::Table(TableValue {
        fields: vec![
            field_value("a", 2i32.into_value().unwrap()),
            field_value("b", None::<usize>.into_value().unwrap()),
        ],
    });
    let res = render_merged(test_struct_schema(), value);
    let text = "# comment `Test`

# comment `a`
a = 2
# comment `b`
#!b = 0"
        .to_string();
    assert_eq!(res, text);
    let parsed: toml::Value = text.parse().unwrap();
    assert_eq!(parsed.get("a").and_then(|v| v.as_integer()), Some(2));
    assert!(parsed.get("b").is_none());
}

/// The schema for `struct Test { a: i32, b: Vec<usize> }`.
fn array_field_schema() -> Schema {
    let mut meta = Meta::default();
    meta.inner_type = "Test".to_string();
    meta.defined_docs = " comment `Test`".to_string();
    let fa = FieldSchema {
        ident: "a".to_string(),
        docs: " comment `a`".to_string(),
        flat: false,
        schema: <i32 as TomlInput>::schema().unwrap(),
        config: TomlConfig::default(),
    };
    let fb = FieldSchema {
        ident: "b".to_string(),
        docs: " comment `b`".to_string(),
        flat: false,
        schema: <Vec<usize> as TomlInput>::schema().unwrap(),
        config: TomlConfig::default(),
    };
    Schema::Table(TableSchema {
        meta,
        fields: vec![fa, fb],
    })
}

fn array_instance_value(a: i32, b: Vec<usize>) -> Value {
    Value::Table(TableValue {
        fields: vec![
            field_value("a", a.into_value().unwrap()),
            field_value("b", b.into_value().unwrap()),
        ],
    })
}

#[test]
fn test_value_array() {
    let res = render_merged(array_field_schema(), array_instance_value(1, vec![2, 3, 4]));
    println!("{res}");
    let text = "# comment `Test`

# comment `a`
a = 1
# comment `b`
b = [2, 3, 4]"
        .to_string();
    assert_eq!(res, text);
    let parsed: toml::Value = text.parse().unwrap();
    assert_eq!(parsed.get("a").and_then(|v| v.as_integer()), Some(1));
    let b: Vec<i64> = parsed
        .get("b")
        .and_then(|v| v.as_array())
        .unwrap()
        .iter()
        .map(|v| v.as_integer().unwrap())
        .collect();
    assert_eq!(b, vec![2, 3, 4]);
}

/// The schema for `struct Test1 { c: i32, d: Vec<Test> }`.
fn nested_array_schema() -> Schema {
    let mut inner = test_inner_schema();
    // wrap the record as `Vec<Test>`: an array of tables
    let _ = inner.set_wrap_type("Vec".to_string());
    inner.meta_mut().is_array = true;
    let mut meta = Meta::default();
    meta.inner_type = "Test1".to_string();
    meta.defined_docs = " comment `Test1`".to_string();
    let fc = FieldSchema {
        ident: "c".to_string(),
        docs: " comment `c`".to_string(),
        flat: false,
        schema: <i32 as TomlInput>::schema().unwrap(),
        config: TomlConfig::default(),
    };
    let fd = FieldSchema {
        ident: "d".to_string(),
        docs: " comment `d`".to_string(),
        flat: false,
        schema: inner,
        config: TomlConfig::default(),
    };
    Schema::Table(TableSchema {
        meta,
        fields: vec![fc, fd],
    })
}

/// The inner record `Test { a: i32, b: Vec<usize> }` as a bare schema.
fn test_inner_schema() -> Schema {
    let mut meta = Meta::default();
    meta.inner_type = "Test".to_string();
    meta.defined_docs = " comment `Test`".to_string();
    let fa = FieldSchema {
        ident: "a".to_string(),
        docs: " comment `a`".to_string(),
        flat: false,
        schema: <i32 as TomlInput>::schema().unwrap(),
        config: TomlConfig::default(),
    };
    let fb = FieldSchema {
        ident: "b".to_string(),
        docs: " comment `b`".to_string(),
        flat: false,
        schema: <Vec<usize> as TomlInput>::schema().unwrap(),
        config: TomlConfig::default(),
    };
    Schema::Table(TableSchema {
        meta,
        fields: vec![fa, fb],
    })
}

#[test]
fn test_struct_test_array() {
    let inner2 = array_instance_value(1, vec![2, 3, 4]);
    let inner3 = array_instance_value(5, vec![6, 7, 8]);
    let value = Value::Table(TableValue {
        fields: vec![
            field_value("c", 1i32.into_value().unwrap()),
            field_value("d", Value::Array(toml_input::ArrayValue { values: vec![inner2, inner3] })),
        ],
    });
    let res = render_merged(nested_array_schema(), value);
    println!("{res}");
    let text = "# comment `Test1`

# comment `c`
c = 1

# comment `d`
[[d]]
# comment `a`
a = 1
# comment `b`
b = [2, 3, 4]

# comment `d`
[[d]]
# comment `a`
a = 5
# comment `b`
b = [6, 7, 8]"
        .to_string();
    assert_eq!(res, text);
    let parsed: toml::Value = text.parse().unwrap();
    let d = parsed.get("d").and_then(|v| v.as_array()).unwrap();
    assert_eq!(d.len(), 2);
    assert_eq!(d[0].get("a").and_then(|v| v.as_integer()), Some(1));
    assert_eq!(d[1].get("a").and_then(|v| v.as_integer()), Some(5));
}

#[test]
fn test_array_empty() {
    let res = render_merged(array_field_schema(), array_instance_value(1, vec![]));
    println!("{res}");
    let text = "# comment `Test`

# comment `a`
a = 1
# comment `b`
b = []"
        .to_string();
    assert_eq!(res, text);
    let parsed: toml::Value = text.parse().unwrap();
    assert_eq!(parsed.get("b").and_then(|v| v.as_array()).unwrap().len(), 0);
}

#[test]
fn test_struct_test_nested() {
    // struct Test1 { c: i32, d: Test, e: Option<String> }
    let mut meta = Meta::default();
    meta.inner_type = "Test1".to_string();
    meta.defined_docs = " comment `Test1`".to_string();
    let fc = FieldSchema {
        ident: "c".to_string(),
        docs: " comment `c`".to_string(),
        flat: false,
        schema: <i32 as TomlInput>::schema().unwrap(),
        config: TomlConfig::default(),
    };
    let fd = FieldSchema {
        ident: "d".to_string(),
        docs: " comment `d`".to_string(),
        flat: false,
        schema: test_inner_schema(),
        config: TomlConfig::default(),
    };
    let fe = FieldSchema {
        ident: "e".to_string(),
        docs: " comment `e`".to_string(),
        flat: false,
        schema: <Option<String> as TomlInput>::schema().unwrap(),
        config: TomlConfig::default(),
    };
    let schema = Schema::Table(TableSchema {
        meta,
        fields: vec![fc, fd, fe],
    });
    let value = Value::Table(TableValue {
        fields: vec![
            field_value("c", 1i32.into_value().unwrap()),
            field_value("d", array_instance_value(1, vec![2, 3, 4])),
            field_value("e", None::<String>.into_value().unwrap()),
        ],
    });
    let res = render_merged(schema, value);
    let text = r#"# comment `Test1`

# comment `c`
c = 1
# comment `e`
#!e = ""

# comment `d`
[d]
# comment `a`
a = 1
# comment `b`
b = [2, 3, 4]"#
        .to_string();
    assert_eq!(res, text);
    let parsed: toml::Value = text.parse().unwrap();
    assert_eq!(
        parsed
            .get("d")
            .and_then(|v| v.get("b"))
            .and_then(|v| v.as_array())
            .unwrap()
            .len(),
        3
    );
}

#[test]
fn test_section_comment() {
    // struct Test { a: i32, b: Option<Test1> }, struct Test1 { c: i32 }
    let mut inner_meta = Meta::default();
    inner_meta.inner_type = "Test1".to_string();
    inner_meta.defined_docs = " comment `Test1`".to_string();
    let fic = FieldSchema {
        ident: "c".to_string(),
        docs: " comment `c`".to_string(),
        flat: false,
        schema: <i32 as TomlInput>::schema().unwrap(),
        config: TomlConfig::default(),
    };
    let mut inner = Schema::Table(TableSchema {
        meta: inner_meta,
        fields: vec![fic],
    });
    let _ = inner.set_wrap_type("Option".to_string());
    let mut meta = Meta::default();
    meta.inner_type = "Test".to_string();
    meta.defined_docs = " comment `Test`".to_string();
    let fa = FieldSchema {
        ident: "a".to_string(),
        docs: " comment `a`".to_string(),
        flat: false,
        schema: <i32 as TomlInput>::schema().unwrap(),
        config: TomlConfig::default(),
    };
    let fb = FieldSchema {
        ident: "b".to_string(),
        docs: " comment `b`".to_string(),
        flat: false,
        schema: inner,
        config: TomlConfig::default(),
    };
    let schema = Schema::Table(TableSchema {
        meta,
        fields: vec![fa, fb],
    });
    let value = Value::Table(TableValue {
        fields: vec![
            field_value("a", 1i32.into_value().unwrap()),
            field_value("b", None::<usize>.into_value().unwrap()),
        ],
    });
    let res = render_merged(schema, value);
    println!("{res}");
    let text = r#"# comment `Test`

# comment `a`
a = 1

# comment `b`
#![b]
# comment `c`
#!c = 0"#
        .to_string();
    assert_eq!(res, text);
    let parsed: toml::Value = text.parse().unwrap();
    assert_eq!(parsed.get("a").and_then(|v| v.as_integer()), Some(1));
    assert!(parsed.get("b").is_none());
}

#[test]
fn test_skip() {
    // struct Test { a: i32, b: Option<usize>, #[serde(skip)] c: i32 }: the
    // skipped field never reaches the schema or the value tree.
    let value = Value::Table(TableValue {
        fields: vec![
            field_value("a", 2i32.into_value().unwrap()),
            field_value("b", Some(3usize).into_value().unwrap()),
        ],
    });
    let res = render_merged(test_struct_schema(), value);
    let text = "# comment `Test`

# comment `a`
a = 2
# comment `b`
b = 3"
        .to_string();
    assert_eq!(res, text);
    let parsed: toml::Value = text.parse().unwrap();
    assert_eq!(parsed.get("b").and_then(|v| v.as_integer()), Some(3));
}
