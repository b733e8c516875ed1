use toml_input::TomlInput;
use toml_input::PrimValue;
use toml_input::RawValue;
use toml_input::RawEntry;
use toml_input::Value;
use toml_input::TableValue;
use toml_input::ArrayValue;
use toml_input::FieldValue;
use toml_input::block::Block;
use toml_input::comment::Comment;
use toml_input::schema::Meta;
use toml_input::schema::Schema;
use toml_input::section::Section;
use toml_input::config::CommentStyle;
use toml_input::config::EnumStyle;
use toml_input::config::OptionStyle;
use toml_input::config::TomlConfig;

#[test]
fn test_config_merge_parent() {
    let mut child = TomlConfig::default();
    child.enum_style = Some(EnumStyle::Single);
    let mut parent = TomlConfig::default();
    parent.enum_style = Some(EnumStyle::Fold);
    parent.option_style = Some(OptionStyle::SkipNone);
    parent.comment_style = Some(CommentStyle::Hide);
    child.merge_parent(&parent);
    // the explicit local setting wins; unset axes fall back to the parent
    assert!(matches!(child.enum_style, Some(EnumStyle::Single)));
    assert!(matches!(child.option_style, Some(OptionStyle::SkipNone)));
    assert!(matches!(child.comment_style, Some(CommentStyle::Hide)));
    assert!(child.is_none_skipped());
    assert!(child.is_comment_hidden());
}

#[test]
fn test_enum_style_predicates() {
    assert!(EnumStyle::Expand.can_expand(100));
    assert!(!EnumStyle::Expand.can_fold(100));
    assert!(EnumStyle::Fold.can_fold(1));
    assert!(!EnumStyle::Single.can_expand(1));
    assert!(!EnumStyle::Single.can_fold(1));
    assert!(OptionStyle::SkipNone.is_skip_none());
    assert!(!OptionStyle::ExpandNone.is_skip_none());
}

#[test]
fn test_comment_render() {
    let mut comment = Comment::default();
    assert!(comment.is_empty());
    comment.defined_docs = " declared".to_string();
    assert!(!comment.is_empty());
    assert_eq!(comment.render().unwrap(), "# declared");
    comment.valued_docs = " at the field".to_string();
    assert_eq!(comment.render().unwrap(), "# at the field");
}

#[test]
fn test_meta_option_type() {
    let mut meta = Meta::default();
    assert!(!meta.is_option_type());
    meta.wrap_type = "Option".to_string();
    assert!(meta.is_option_type());
    let comment = meta.comment();
    assert!(comment.is_empty());
}

#[test]
fn test_schema_accessors() {
    let mut schema = Schema::new_table();
    assert!(schema.is_table());
    assert!(!schema.is_prim());
    let prev = schema.set_wrap_type("Option".to_string());
    assert_eq!(prev, "");
    assert!(schema.meta().is_option_type());
    schema.meta_mut().is_array = true;
    assert!(schema.meta().is_array);
    let prim = <u8 as TomlInput>::schema().unwrap();
    assert!(prim.is_prim());
}

#[test]
fn test_block_predicates() {
    let mut block = Block::default();
    assert!(block.is_value());
    assert!(!block.is_field());
    assert!(!block.is_enum());
    assert!(block.is_comented());
    block.ident = "x".to_string();
    assert!(block.is_field());
    block.meta.wrap_type = "Option".to_string();
    block.meta.config.option_style = Some(OptionStyle::SkipNone);
    assert!(block.is_none_skipped());
    assert_eq!(block.render().unwrap(), "");
}

#[test]
fn test_section_reduce() {
    let mut first = Section::default();
    first.key = "k".to_string();
    let mut b1 = Block::default();
    b1.ident = "a".to_string();
    first.blocks.push(b1);
    let mut second = Section::default();
    second.key = "k".to_string();
    let mut b2 = Block::default();
    b2.ident = "b".to_string();
    second.blocks.push(b2);
    let mut third = Section::default();
    third.key = "other".to_string();
    let mut sections = vec![first, second, third];
    Section::reduce(&mut sections);
    // the two sections sharing a key collapse into the first, in order
    assert_eq!(sections.len(), 2);
    assert_eq!(sections[0].key, "k");
    assert_eq!(sections[0].blocks.len(), 2);
    assert_eq!(sections[0].blocks[0].ident, "a");
    assert_eq!(sections[0].blocks[1].ident, "b");
    assert_eq!(sections[1].key, "other");
}

#[test]
fn test_section_assigned_to() {
    // a bare-value section renames its single block after the field
    let mut value_section = Section::default();
    value_section.blocks.push(Block::default());
    value_section.assigned_to("port");
    assert_eq!(value_section.key, "");
    assert_eq!(value_section.blocks[0].ident, "port");
    assert_eq!(value_section.blocks[0].key, "port");
    // any other section gains the field as a leading key segment
    let mut named = Section::default();
    named.key = "inner".to_string();
    let mut block = Block::default();
    block.ident = "x".to_string();
    block.key = "inner.x".to_string();
    named.blocks.push(block);
    named.assigned_to("outer");
    assert_eq!(named.key, "outer.inner");
    assert_eq!(named.blocks[0].key, "outer.inner.x");
}

#[test]
fn test_section_predicates() {
    let mut section = Section::default();
    assert!(!section.is_root());
    section.blocks.push(Block::default());
    assert!(section.is_root());
    assert!(section.is_value());
    assert!(section.is_commented());
    section.key = "named".to_string();
    assert!(!section.is_root());
    assert!(!section.is_value());
}

#[test]
fn test_value_shapes() {
    let prim = Value::new_prim(RawValue::Scalar("1".to_string()));
    assert!(prim.is_prim());
    assert!(!prim.is_array());
    assert!(!prim.is_table());
    let arr = Value::Array(ArrayValue { values: vec![] });
    assert!(arr.is_array());
    let table = Value::Table(TableValue { fields: vec![] });
    assert!(table.is_table());
}

#[test]
fn test_prim_value_flatten() {
    let prim = PrimValue::new(RawValue::Scalar("7".to_string()));
    let leaf = prim.flatten();
    assert_eq!(leaf.key, "");
    assert_eq!(leaf.tag, "");
    assert!(leaf.array_index.is_none());
    assert_eq!(leaf.value.unwrap().render(), "7");
}

#[test]
fn test_array_into_prim() {
    let arr = ArrayValue {
        values: vec![
            Value::new_prim(RawValue::Scalar("1".to_string())),
            Value::Prim(PrimValue::default()),
            Value::new_prim(RawValue::Scalar("2".to_string())),
        ],
    };
    // elements without a raw value contribute nothing
    let prim = arr.into_prim();
    assert_eq!(prim.raw.unwrap().render(), "[1, 2]");
}

#[test]
fn test_table_into_prim() {
    let table = TableValue {
        fields: vec![
            FieldValue {
                ident: "a".to_string(),
                value: Value::new_prim(RawValue::Scalar("1".to_string())),
                flat: false,
            },
            FieldValue {
                ident: "a".to_string(),
                value: Value::new_prim(RawValue::Scalar("2".to_string())),
                flat: false,
            },
            FieldValue {
                ident: "b".to_string(),
                value: Value::new_prim(RawValue::Scalar("3".to_string())),
                flat: false,
            },
        ],
    };
    // a later field with the same name replaces the earlier entry in place
    let prim = table.into_prim();
    assert_eq!(prim.raw.unwrap().render(), "{ a = 2, b = 3 }");
}

#[test]
fn test_field_into_map() {
    // a flattened field donates its own table's entries
    let flat = FieldValue {
        ident: "inner".to_string(),
        value: Value::Table(TableValue {
            fields: vec![FieldValue {
                ident: "x".to_string(),
                value: Value::new_prim(RawValue::Scalar("1".to_string())),
                flat: false,
            }],
        }),
        flat: true,
    };
    let map = flat.into_map();
    assert_eq!(map.len(), 1);
    assert_eq!(map[0].key, "x");
    // a plain field contributes a single entry under its own name
    let plain = FieldValue {
        ident: "y".to_string(),
        value: Value::new_prim(RawValue::Scalar("2".to_string())),
        flat: false,
    };
    let map = plain.into_map();
    assert_eq!(map.len(), 1);
    assert_eq!(map[0].key, "y");
    assert_eq!(RawValue::Table(map).render(), "{ y = 2 }");
}

#[test]
fn test_raw_entry_clone() {
    let entry = RawEntry {
        key: "k".to_string(),
        value: RawValue::Array(vec![RawValue::Scalar("1".to_string())]),
    };
    let copy = entry.clone();
    assert_eq!(copy.key, "k");
    assert_eq!(copy.value.render(), "[1]");
}

#[test]
fn test_render_single_line() {
    let mut block = Block::default();
    block.ident = "n".to_string();
    block.key = "n".to_string();
    block.meta.valued_docs = " a number".to_string();
    let raw = RawValue::Scalar("5".to_string());
    let text = block.render_single(false, raw).unwrap();
    assert_eq!(text, "# a number\nn = 5");
    let raw = RawValue::Scalar("5".to_string());
    let text = block.render_single(true, raw).unwrap();
    assert_eq!(text, "# a number\n#!n = 5");
}

#[test]
fn test_render_enum_single_line() {
    let mut block = Block::default();
    block.ident = "mode".to_string();
    block.key = "mode".to_string();
    block.variants.push(toml_input::schema::VariantSchema {
        docs: " first".to_string(),
        value: PrimValue {
            tag: "A".to_string(),
            raw: Some(RawValue::Scalar("\"A\"".to_string())),
        },
        config: TomlConfig::default(),
    });
    block.variants.push(toml_input::schema::VariantSchema {
        docs: " second".to_string(),
        value: PrimValue {
            tag: "B".to_string(),
            raw: Some(RawValue::Scalar("\"B\"".to_string())),
        },
        config: TomlConfig::default(),
    });
    let raw = RawValue::Scalar("\"B\"".to_string());
    let text = block
        .render_enum_single(false, "B".to_string(), raw)
        .unwrap();
    assert_eq!(text, "# second\nmode = \"B\"");
}
