//! The entry point for rendering: a type that can describe its own schema
//! and serialize itself into a value tree gains a rendered, fully commented
//! document, with or without a concrete instance's values overlaid.

use vstd::prelude::*;
use vstd::string::StringExecFns;
use crate::content::TomlContent;
use crate::error::Error;
use crate::raw::RawValue;
use crate::raw::format_bool;
use crate::raw::format_i64;
use crate::raw::format_u64;
use crate::raw::toml_string_literal;
use crate::schema::Meta;
use crate::schema::PrimSchema;
use crate::schema::Schema;
use crate::value::ArrayValue;
use crate::value::PrimValue;
use crate::value::Value;
use crate::value::SpecValue;
use crate::raw::spec_bool_literal;
use crate::raw::spec_dec_digits;
use crate::raw::spec_int_literal;
use crate::value::SpecPrimValue;
use crate::raw::SpecRawValue;
use crate::schema::SpecMeta;
use crate::schema::SpecPrimSchema;
use crate::schema::SpecSchema;

verus! {

/// A type that can be rendered as a commented configuration document.
pub trait TomlInput: Sized {
    /// The typed description of this type's shape, documentation and
    /// defaults.
    fn schema() -> Result<Schema, Error>;

    /// This instance serialized into a value tree.
    fn into_value(self) -> Result<Value, Error>;

    /// The document skeleton with this instance's values overlaid.
    fn into_content(self) -> Result<TomlContent, Error> {
        let schema = match Self::schema() {
            Ok(s) => s,
            Err(e) => {
                return Err(e);
            },
        };
        let sections = schema.flatten();
        let mut content = TomlContent { sections };
        let value = match self.into_value() {
            Ok(v) => v,
            Err(e) => {
                return Err(e);
            },
        };
        match content.merge_value(value) {
            Ok(_) => Ok(content),
            Err(e) => Err(e),
        }
    }

    /// The fully active document template: the skeleton alone, every line
    /// rendered live with the declared defaults.
    fn schema_to_string() -> Result<String, Error> {
        let schema = match Self::schema() {
            Ok(s) => s,
            Err(e) => {
                return Err(e);
            },
        };
        let sections = schema.flatten();
        let mut content = TomlContent { sections };
        content.config_commented(false);
        content.render()
    }

    /// The document with this instance's actual values: merged lines are
    /// active, unmerged optional lines render inactive.
    fn into_string(self) -> Result<String, Error> {
        let content = match self.into_content() {
            Ok(c) => c,
            Err(e) => {
                return Err(e);
            },
        };
        content.render()
    }
}

/// The schema of a primitive: no variants, default configuration, carrying
/// the type's name and the literal text of its default value.
pub open spec fn spec_prim_schema(inner_type: Seq<char>, default_literal: Seq<char>) -> SpecSchema {
    SpecSchema::Prim(
        SpecPrimSchema {
            meta: SpecMeta {
                inner_type: inner_type,
                inner_default: SpecPrimValue {
                    tag: Seq::empty(),
                    raw: Some(SpecRawValue::Scalar(default_literal)),
                },
                ..crate::schema::spec_default_meta()
            },
            variants: Seq::empty(),
        },
    )
}

fn prim_schema_of(inner_type: &str, default_literal: String) -> (r: Schema)
    ensures
        r@ == spec_prim_schema(inner_type@, default_literal@),
{
    let mut meta = Meta::default();
    meta.inner_type = String::from_str(inner_type);
    meta.inner_default = PrimValue::new(RawValue::Scalar(default_literal));
    let r = Schema::Prim(PrimSchema { meta, variants: Vec::new() });
    proof {
        assert(r@ =~= spec_prim_schema(inner_type@, default_literal@));
    }
    r
}

impl TomlInput for bool {
    fn schema() -> (r: Result<Schema, Error>)
        ensures
            r is Ok,
            r->Ok_0@ == spec_prim_schema(spec_bool_name(), spec_bool_literal(false)),
    {
        Ok(prim_schema_of(bool_name(), format_bool(false)))
    }

    fn into_value(self) -> (r: Result<Value, Error>)
        ensures
            r is Ok,
            r->Ok_0@ == SpecValue::Prim(
                SpecPrimValue {
                    tag: Seq::<char>::empty(),
                    raw: Some(SpecRawValue::Scalar(spec_bool_literal(self))),
                },
            ),
    {
        Ok(Value::new_prim(RawValue::Scalar(format_bool(self))))
    }
}

impl TomlInput for String {
    fn schema() -> (r: Result<Schema, Error>)
        ensures
            r is Ok,
            r->Ok_0@ == spec_prim_schema(
                spec_string_name(),
                crate::raw::spec_toml_str_literal(Seq::empty()),
            ),
    {
        let empty = "";
        proof {
            reveal_strlit("");
            assert(empty@ =~= Seq::<char>::empty());
        }
        Ok(prim_schema_of(string_name(), toml_string_literal(empty)))
    }

    fn into_value(self) -> (r: Result<Value, Error>)
        ensures
            r is Ok,
            r->Ok_0@ == SpecValue::Prim(
                SpecPrimValue {
                    tag: Seq::<char>::empty(),
                    raw: Some(SpecRawValue::Scalar(crate::raw::spec_toml_str_literal(self@))),
                },
            ),
    {
        Ok(Value::new_prim(RawValue::Scalar(toml_string_literal(self.as_str()))))
    }
}

impl TomlInput for i8 {
    fn schema() -> (r: Result<Schema, Error>)
        ensures
            r is Ok,
            r->Ok_0@ == spec_prim_schema(spec_i8_name(), spec_int_literal(0)),
    {
        Ok(prim_schema_of(i8_name(), format_i64(0)))
    }

    fn into_value(self) -> (r: Result<Value, Error>)
        ensures
            r is Ok,
            r->Ok_0@ == SpecValue::Prim(
                SpecPrimValue {
                    tag: Seq::<char>::empty(),
                    raw: Some(SpecRawValue::Scalar(spec_int_literal(self as int))),
                },
            ),
    {
        Ok(Value::new_prim(RawValue::Scalar(format_i64(self as i64))))
    }
}

impl TomlInput for i16 {
    fn schema() -> (r: Result<Schema, Error>)
        ensures
            r is Ok,
            r->Ok_0@ == spec_prim_schema(spec_i16_name(), spec_int_literal(0)),
    {
        Ok(prim_schema_of(i16_name(), format_i64(0)))
    }

    fn into_value(self) -> (r: Result<Value, Error>)
        ensures
            r is Ok,
            r->Ok_0@ == SpecValue::Prim(
                SpecPrimValue {
                    tag: Seq::<char>::empty(),
                    raw: Some(SpecRawValue::Scalar(spec_int_literal(self as int))),
                },
            ),
    {
        Ok(Value::new_prim(RawValue::Scalar(format_i64(self as i64))))
    }
}

impl TomlInput for i32 {
    fn schema() -> (r: Result<Schema, Error>)
        ensures
            r is Ok,
            r->Ok_0@ == spec_prim_schema(spec_i32_name(), spec_int_literal(0)),
    {
        Ok(prim_schema_of(i32_name(), format_i64(0)))
    }

    fn into_value(self) -> (r: Result<Value, Error>)
        ensures
            r is Ok,
            r->Ok_0@ == SpecValue::Prim(
                SpecPrimValue {
                    tag: Seq::<char>::empty(),
                    raw: Some(SpecRawValue::Scalar(spec_int_literal(self as int))),
                },
            ),
    {
        Ok(Value::new_prim(RawValue::Scalar(format_i64(self as i64))))
    }
}

impl TomlInput for i64 {
    fn schema() -> (r: Result<Schema, Error>)
        ensures
            r is Ok,
            r->Ok_0@ == spec_prim_schema(spec_i64_name(), spec_int_literal(0)),
    {
        Ok(prim_schema_of(i64_name(), format_i64(0)))
    }

    fn into_value(self) -> (r: Result<Value, Error>)
        ensures
            r is Ok,
            r->Ok_0@ == SpecValue::Prim(
                SpecPrimValue {
                    tag: Seq::<char>::empty(),
                    raw: Some(SpecRawValue::Scalar(spec_int_literal(self as int))),
                },
            ),
    {
        Ok(Value::new_prim(RawValue::Scalar(format_i64(self))))
    }
}

impl TomlInput for isize {
    fn schema() -> (r: Result<Schema, Error>)
        ensures
            r is Ok,
            r->Ok_0@ == spec_prim_schema(spec_isize_name(), spec_int_literal(0)),
    {
        Ok(prim_schema_of(isize_name(), format_i64(0)))
    }

    fn into_value(self) -> (r: Result<Value, Error>)
        ensures
            r is Ok,
            r->Ok_0@ == SpecValue::Prim(
                SpecPrimValue {
                    tag: Seq::<char>::empty(),
                    raw: Some(SpecRawValue::Scalar(spec_int_literal(self as int))),
                },
            ),
    {
        Ok(Value::new_prim(RawValue::Scalar(format_i64(self as i64))))
    }
}

impl TomlInput for u8 {
    fn schema() -> (r: Result<Schema, Error>)
        ensures
            r is Ok,
            r->Ok_0@ == spec_prim_schema(spec_u8_name(), spec_dec_digits(0)),
    {
        Ok(prim_schema_of(u8_name(), format_u64(0)))
    }

    fn into_value(self) -> (r: Result<Value, Error>)
        ensures
            r is Ok,
            r->Ok_0@ == SpecValue::Prim(
                SpecPrimValue {
                    tag: Seq::<char>::empty(),
                    raw: Some(SpecRawValue::Scalar(spec_dec_digits(self as nat))),
                },
            ),
    {
        Ok(Value::new_prim(RawValue::Scalar(format_u64(self as u64))))
    }
}

impl TomlInput for u16 {
    fn schema() -> (r: Result<Schema, Error>)
        ensures
            r is Ok,
            r->Ok_0@ == spec_prim_schema(spec_u16_name(), spec_dec_digits(0)),
    {
        Ok(prim_schema_of(u16_name(), format_u64(0)))
    }

    fn into_value(self) -> (r: Result<Value, Error>)
        ensures
            r is Ok,
            r->Ok_0@ == SpecValue::Prim(
                SpecPrimValue {
                    tag: Seq::<char>::empty(),
                    raw: Some(SpecRawValue::Scalar(spec_dec_digits(self as nat))),
                },
            ),
    {
        Ok(Value::new_prim(RawValue::Scalar(format_u64(self as u64))))
    }
}

impl TomlInput for u32 {
    fn schema() -> (r: Result<Schema, Error>)
        ensures
            r is Ok,
            r->Ok_0@ == spec_prim_schema(spec_u32_name(), spec_dec_digits(0)),
    {
        Ok(prim_schema_of(u32_name(), format_u64(0)))
    }

    fn into_value(self) -> (r: Result<Value, Error>)
        ensures
            r is Ok,
            r->Ok_0@ == SpecValue::Prim(
                SpecPrimValue {
                    tag: Seq::<char>::empty(),
                    raw: Some(SpecRawValue::Scalar(spec_dec_digits(self as nat))),
                },
            ),
    {
        Ok(Value::new_prim(RawValue::Scalar(format_u64(self as u64))))
    }
}

impl TomlInput for u64 {
    fn schema() -> (r: Result<Schema, Error>)
        ensures
            r is Ok,
            r->Ok_0@ == spec_prim_schema(spec_u64_name(), spec_dec_digits(0)),
    {
        Ok(prim_schema_of(u64_name(), format_u64(0)))
    }

    /// An unsigned value above the serialized integer range is rejected.
    fn into_value(self) -> (r: Result<Value, Error>)
        ensures
            self <= 0x7fff_ffff_ffff_ffff ==> r is Ok && r->Ok_0@ == SpecValue::Prim(
                SpecPrimValue {
                    tag: Seq::<char>::empty(),
                    raw: Some(SpecRawValue::Scalar(spec_dec_digits(self as nat))),
                },
            ),
            self > 0x7fff_ffff_ffff_ffff ==> r is Err && r->Err_0 is TomlSerError,
    {
        if self > 0x7fff_ffff_ffff_ffffu64 {
            Err(Error::TomlSerError(out_of_range_msg()))
        } else {
            Ok(Value::new_prim(RawValue::Scalar(format_u64(self))))
        }
    }
}

impl TomlInput for usize {
    fn schema() -> (r: Result<Schema, Error>)
        ensures
            r is Ok,
            r->Ok_0@ == spec_prim_schema(spec_usize_name(), spec_dec_digits(0)),
    {
        Ok(prim_schema_of(usize_name(), format_u64(0)))
    }

    /// An unsigned value above the serialized integer range is rejected.
    fn into_value(self) -> (r: Result<Value, Error>)
        ensures
            self <= 0x7fff_ffff_ffff_ffff ==> r is Ok && r->Ok_0@ == SpecValue::Prim(
                SpecPrimValue {
                    tag: Seq::<char>::empty(),
                    raw: Some(SpecRawValue::Scalar(spec_dec_digits(self as nat))),
                },
            ),
            self > 0x7fff_ffff_ffff_ffff ==> r is Err && r->Err_0 is TomlSerError,
    {
        let wide = self as u64;
        if wide > 0x7fff_ffff_ffff_ffffu64 {
            Err(Error::TomlSerError(out_of_range_msg()))
        } else {
            Ok(Value::new_prim(RawValue::Scalar(format_u64(wide))))
        }
    }
}

impl<T: TomlInput> TomlInput for Option<T> {
    /// An optional value keeps its inner schema, wrapped as `Option`.
    fn schema() -> Result<Schema, Error> {
        let mut schema = match T::schema() {
            Ok(s) => s,
            Err(e) => {
                return Err(e);
            },
        };
        let _prev = schema.set_wrap_type(option_wrap_string());
        Ok(schema)
    }

    /// An absent value serializes as a primitive with no raw value.
    fn into_value(self) -> Result<Value, Error> {
        if let Some(item) = self {
            item.into_value()
        } else {
            Ok(Value::Prim(PrimValue::default()))
        }
    }
}

impl<T: TomlInput> TomlInput for Vec<T> {
    /// A sequence keeps its inner schema, wrapped as `Vec` and marked as an
    /// array.
    fn schema() -> Result<Schema, Error> {
        let mut schema = match T::schema() {
            Ok(s) => s,
            Err(e) => {
                return Err(e);
            },
        };
        let _prev = schema.set_wrap_type(vec_wrap_string());
        let meta = schema.meta_mut();
        meta.is_array = true;
        Ok(schema)
    }

    /// A sequence of primitives collapses into one inline array value; a
    /// sequence of records stays an array of element trees.
    fn into_value(self) -> Result<Value, Error> {
        let schema = match T::schema() {
            Ok(s) => s,
            Err(e) => {
                return Err(e);
            },
        };
        let mut as_prim = schema.is_prim();
        let mut items = self;
        let mut values: Vec<Value> = Vec::new();
        while items.len() > 0
            decreases items.len(),
        {
            let item = items.remove(0);
            let value = match item.into_value() {
                Ok(v) => v,
                Err(e) => {
                    return Err(e);
                },
            };
            if as_prim || value.is_prim() || value.is_array() {
                as_prim = true;
                let prim = value.into_prim();
                values.push(Value::Prim(prim));
            } else {
                values.push(value);
            }
        }
        let array = ArrayValue { values };
        if as_prim {
            Ok(Value::Prim(array.into_prim()))
        } else {
            Ok(Value::Array(array))
        }
    }
}

fn out_of_range_msg() -> String {
    let s = "unsigned value does not fit the serialized integer range";
    String::from_str(s)
}

fn option_wrap_string() -> (r: String)
    ensures
        r@ == crate::schema::spec_option_wrap(),
{
    let s = "Option";
    proof {
        reveal_strlit("Option");
        assert(s@ =~= crate::schema::spec_option_wrap());
    }
    String::from_str(s)
}

/// The wrapping name of a sequence value.
pub open spec fn spec_vec_wrap() -> Seq<char> {
    seq!['V', 'e', 'c']
}

fn vec_wrap_string() -> (r: String)
    ensures
        r@ == spec_vec_wrap(),
{
    let s = "Vec";
    proof {
        reveal_strlit("Vec");
        assert(s@ =~= spec_vec_wrap());
    }
    String::from_str(s)
}

pub open spec fn spec_bool_name() -> Seq<char> {
    seq!['b', 'o', 'o', 'l']
}

fn bool_name() -> (r: &'static str)
    ensures
        r@ == spec_bool_name(),
{
    let s = "bool";
    proof {
        reveal_strlit("bool");
        assert(s@ =~= spec_bool_name());
    }
    s
}

pub open spec fn spec_string_name() -> Seq<char> {
    seq!['s', 't', 'r', 'i', 'n', 'g']
}

fn string_name() -> (r: &'static str)
    ensures
        r@ == spec_string_name(),
{
    let s = "string";
    proof {
        reveal_strlit("string");
        assert(s@ =~= spec_string_name());
    }
    s
}

pub open spec fn spec_i8_name() -> Seq<char> {
    seq!['i', '8']
}

fn i8_name() -> (r: &'static str)
    ensures
        r@ == spec_i8_name(),
{
    let s = "i8";
    proof {
        reveal_strlit("i8");
        assert(s@ =~= spec_i8_name());
    }
    s
}

pub open spec fn spec_i16_name() -> Seq<char> {
    seq!['i', '1', '6']
}

fn i16_name() -> (r: &'static str)
    ensures
        r@ == spec_i16_name(),
{
    let s = "i16";
    proof {
        reveal_strlit("i16");
        assert(s@ =~= spec_i16_name());
    }
    s
}

pub open spec fn spec_i32_name() -> Seq<char> {
    seq!['i', '3', '2']
}

fn i32_name() -> (r: &'static str)
    ensures
        r@ == spec_i32_name(),
{
    let s = "i32";
    proof {
        reveal_strlit("i32");
        assert(s@ =~= spec_i32_name());
    }
    s
}

pub open spec fn spec_i64_name() -> Seq<char> {
    seq!['i', '6', '4']
}

fn i64_name() -> (r: &'static str)
    ensures
        r@ == spec_i64_name(),
{
    let s = "i64";
    proof {
        reveal_strlit("i64");
        assert(s@ =~= spec_i64_name());
    }
    s
}

pub open spec fn spec_isize_name() -> Seq<char> {
    seq!['i', 's', 'i', 'z', 'e']
}

fn isize_name() -> (r: &'static str)
    ensures
        r@ == spec_isize_name(),
{
    let s = "isize";
    proof {
        reveal_strlit("isize");
        assert(s@ =~= spec_isize_name());
    }
    s
}

pub open spec fn spec_u8_name() -> Seq<char> {
    seq!['u', '8']
}

fn u8_name() -> (r: &'static str)
    ensures
        r@ == spec_u8_name(),
{
    let s = "u8";
    proof {
        reveal_strlit("u8");
        assert(s@ =~= spec_u8_name());
    }
    s
}

pub open spec fn spec_u16_name() -> Seq<char> {
    seq!['u', '1', '6']
}

fn u16_name() -> (r: &'static str)
    ensures
        r@ == spec_u16_name(),
{
    let s = "u16";
    proof {
        reveal_strlit("u16");
        assert(s@ =~= spec_u16_name());
    }
    s
}

pub open spec fn spec_u32_name() -> Seq<char> {
    seq!['u', '3', '2']
}

fn u32_name() -> (r: &'static str)
    ensures
        r@ == spec_u32_name(),
{
    let s = "u32";
    proof {
        reveal_strlit("u32");
        assert(s@ =~= spec_u32_name());
    }
    s
}

pub open spec fn spec_u64_name() -> Seq<char> {
    seq!['u', '6', '4']
}

fn u64_name() -> (r: &'static str)
    ensures
        r@ == spec_u64_name(),
{
    let s = "u64";
    proof {
        reveal_strlit("u64");
        assert(s@ =~= spec_u64_name());
    }
    s
}

pub open spec fn spec_usize_name() -> Seq<char> {
    seq!['u', 's', 'i', 'z', 'e']
}

fn usize_name() -> (r: &'static str)
    ensures
        r@ == spec_usize_name(),
{
    let s = "usize";
    proof {
        reveal_strlit("usize");
        assert(s@ =~= spec_usize_name());
    }
    s
}

} // verus!
