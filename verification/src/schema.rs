//! The typed description of a configuration value's shape: a primitive (or
//! tagged union) with its documentation and declared default, or a record of
//! named fields, each carrying its own rendering configuration. A schema is
//! flattened into the ordered section skeleton that rendering and merging
//! work on.

use vstd::prelude::*;
use vstd::string::StringExecFns;
use crate::comment::Comment;
use crate::comment::CommentType;
use crate::comment::SpecComment;
use crate::config::TomlConfig;
use crate::raw::RawValue;
use crate::util::eq_str;
use crate::block::Block;
use crate::block::SpecBlock;
use crate::section::Section;
use crate::section::SpecSection;
use crate::section::spec_reduce;
use crate::section::spec_section_is_root;
use crate::section::spec_section_is_value;
use crate::util::spec_increase_key;
use crate::value::PrimValue;
use crate::value::SpecPrimValue;

verus! {

broadcast use vstd::seq_lib::group_seq_lib_default, vstd::seq::group_seq_axioms, vstd::std_specs::vec::group_vec_axioms;

/// Metadata shared by every schema node: its rendering configuration, the
/// docs written at the declaration and at the field that uses it, the
/// wrapping (`Option`, `Vec`) and inner type names, the declared default,
/// and whether the node renders as an array of tables.
pub struct Meta {
    pub config: TomlConfig,
    pub defined_docs: String,
    pub valued_docs: String,
    pub wrap_type: String,
    pub inner_type: String,
    pub inner_default: PrimValue,
    pub is_array: bool,
}

/// One alternative of a tagged union: its docs, its tag and literal, and a
/// variant-local rendering configuration.
pub struct VariantSchema {
    pub docs: String,
    pub value: PrimValue,
    pub config: TomlConfig,
}

/// A primitive or tagged-union schema: metadata plus the ordered variants
/// (empty for a plain primitive).
pub struct PrimSchema {
    pub meta: Meta,
    pub variants: Vec<VariantSchema>,
}

/// A record schema: metadata plus its ordered fields.
pub struct TableSchema {
    pub meta: Meta,
    pub fields: Vec<FieldSchema>,
}

/// One named field of a record schema.
pub struct FieldSchema {
    pub ident: String,
    pub docs: String,
    /// A flattened field splices its record's fields into the parent's
    /// key-path space, without a new section or key segment.
    pub flat: bool,
    pub schema: Schema,
    pub config: TomlConfig,
}

/// The shape of a configuration value.
pub enum Schema {
    Prim(PrimSchema),
    Table(TableSchema),
}

// ---- models ----

#[verifier::ext_equal]
pub struct SpecMeta {
    pub config: TomlConfig,
    pub defined_docs: Seq<char>,
    pub valued_docs: Seq<char>,
    pub wrap_type: Seq<char>,
    pub inner_type: Seq<char>,
    pub inner_default: SpecPrimValue,
    pub is_array: bool,
}

#[verifier::ext_equal]
pub struct SpecVariantSchema {
    pub docs: Seq<char>,
    pub value: SpecPrimValue,
    pub config: TomlConfig,
}

#[verifier::ext_equal]
pub struct SpecPrimSchema {
    pub meta: SpecMeta,
    pub variants: Seq<SpecVariantSchema>,
}

#[verifier::ext_equal]
pub struct SpecTableSchema {
    pub meta: SpecMeta,
    pub fields: Seq<SpecFieldSchema>,
}

#[verifier::ext_equal]
pub struct SpecFieldSchema {
    pub ident: Seq<char>,
    pub docs: Seq<char>,
    pub flat: bool,
    pub schema: SpecSchema,
    pub config: TomlConfig,
}

#[verifier::ext_equal]
pub enum SpecSchema {
    Prim(SpecPrimSchema),
    Table(SpecTableSchema),
}

impl View for Meta {
    type V = SpecMeta;

    open spec fn view(&self) -> SpecMeta {
        SpecMeta {
            config: self.config,
            defined_docs: self.defined_docs@,
            valued_docs: self.valued_docs@,
            wrap_type: self.wrap_type@,
            inner_type: self.inner_type@,
            inner_default: self.inner_default@,
            is_array: self.is_array,
        }
    }
}

impl View for VariantSchema {
    type V = SpecVariantSchema;

    open spec fn view(&self) -> SpecVariantSchema {
        SpecVariantSchema { docs: self.docs@, value: self.value@, config: self.config }
    }
}

pub open spec fn spec_schema_view(s: Schema) -> SpecSchema
    decreases s,
{
    match s {
        Schema::Prim(p) => SpecSchema::Prim(
            SpecPrimSchema { meta: p.meta@, variants: p.variants@.map_values(|v: VariantSchema| v@) },
        ),
        Schema::Table(t) => SpecSchema::Table(
            SpecTableSchema { meta: t.meta@, fields: spec_field_schema_view_list(t.fields@) },
        ),
    }
}

pub open spec fn spec_field_schema_view_list(fs: Seq<FieldSchema>) -> Seq<SpecFieldSchema>
    decreases fs,
{
    if fs.len() == 0 {
        Seq::empty()
    } else {
        spec_field_schema_view_list(fs.drop_last()).push(
            SpecFieldSchema {
                ident: fs.last().ident@,
                docs: fs.last().docs@,
                flat: fs.last().flat,
                schema: spec_schema_view(fs.last().schema),
                config: fs.last().config,
            },
        )
    }
}

impl View for Schema {
    type V = SpecSchema;

    open spec fn view(&self) -> SpecSchema {
        spec_schema_view(*self)
    }
}

impl View for PrimSchema {
    type V = SpecPrimSchema;

    open spec fn view(&self) -> SpecPrimSchema {
        SpecPrimSchema { meta: self.meta@, variants: self.variants@.map_values(|v: VariantSchema| v@) }
    }
}

impl View for TableSchema {
    type V = SpecTableSchema;

    open spec fn view(&self) -> SpecTableSchema {
        SpecTableSchema { meta: self.meta@, fields: spec_field_schema_view_list(self.fields@) }
    }
}

impl View for FieldSchema {
    type V = SpecFieldSchema;

    open spec fn view(&self) -> SpecFieldSchema {
        SpecFieldSchema {
            ident: self.ident@,
            docs: self.docs@,
            flat: self.flat,
            schema: self.schema@,
            config: self.config,
        }
    }
}

pub proof fn lemma_field_schema_view_list_len(fs: Seq<FieldSchema>)
    ensures
        spec_field_schema_view_list(fs).len() == fs.len(),
        forall|i: int| 0 <= i < fs.len() ==> spec_field_schema_view_list(fs)[i] == fs[i]@,
    decreases fs,
{
    if fs.len() > 0 {
        lemma_field_schema_view_list_len(fs.drop_last());
    }
}

// ---- defaults and clones ----

pub open spec fn spec_default_meta() -> SpecMeta {
    SpecMeta {
        config: TomlConfig::spec_default(),
        defined_docs: Seq::empty(),
        valued_docs: Seq::empty(),
        wrap_type: Seq::empty(),
        inner_type: Seq::empty(),
        inner_default: SpecPrimValue { tag: Seq::empty(), raw: None },
        is_array: false,
    }
}

impl Default for Meta {
    /// Empty docs and names, default configuration, not an array.
    fn default() -> (r: Self)
        ensures
            r@ == spec_default_meta(),
    {
        Meta {
            config: TomlConfig::default(),
            defined_docs: String::new(),
            valued_docs: String::new(),
            wrap_type: String::new(),
            inner_type: String::new(),
            inner_default: PrimValue::default(),
            is_array: false,
        }
    }
}

impl Default for VariantSchema {
    fn default() -> (r: Self)
        ensures
            r@ == (SpecVariantSchema {
                docs: Seq::<char>::empty(),
                value: SpecPrimValue { tag: Seq::<char>::empty(), raw: None },
                config: TomlConfig::spec_default(),
            }),
    {
        VariantSchema { docs: String::new(), value: PrimValue::default(), config: TomlConfig::default() }
    }
}

impl Default for PrimSchema {
    fn default() -> (r: Self)
        ensures
            r@ == (SpecPrimSchema {
                meta: spec_default_meta(),
                variants: Seq::<SpecVariantSchema>::empty(),
            }),
    {
        let r = PrimSchema { meta: Meta::default(), variants: Vec::new() };
        proof {
            assert(r.variants@.map_values(|v: VariantSchema| v@) =~= Seq::<
                SpecVariantSchema,
            >::empty());
        }
        r
    }
}

impl Default for TableSchema {
    fn default() -> (r: Self)
        ensures
            r@ == (SpecTableSchema {
                meta: spec_default_meta(),
                fields: Seq::<SpecFieldSchema>::empty(),
            }),
    {
        let r = TableSchema { meta: Meta::default(), fields: Vec::new() };
        proof {
            assert(spec_field_schema_view_list(r.fields@) =~= Seq::<SpecFieldSchema>::empty());
        }
        r
    }
}

impl Default for FieldSchema {
    /// An anonymous, unflattened field holding a bare primitive schema.
    fn default() -> (r: Self)
        ensures
            r@ == (SpecFieldSchema {
                ident: Seq::<char>::empty(),
                docs: Seq::<char>::empty(),
                flat: false,
                schema: SpecSchema::Prim(
                    SpecPrimSchema { meta: spec_default_meta(), variants: Seq::empty() },
                ),
                config: TomlConfig::spec_default(),
            }),
    {
        FieldSchema {
            ident: String::new(),
            docs: String::new(),
            flat: false,
            schema: Schema::default(),
            config: TomlConfig::default(),
        }
    }
}

impl Default for Schema {
    /// A bare primitive schema.
    fn default() -> (r: Self)
        ensures
            r@ == SpecSchema::Prim(
                SpecPrimSchema { meta: spec_default_meta(), variants: Seq::empty() },
            ),
    {
        Schema::Prim(PrimSchema::default())
    }
}

impl Clone for Meta {
    fn clone(&self) -> (r: Self)
        ensures
            r@ == self@,
    {
        Meta {
            config: self.config,
            defined_docs: self.defined_docs.clone(),
            valued_docs: self.valued_docs.clone(),
            wrap_type: self.wrap_type.clone(),
            inner_type: self.inner_type.clone(),
            inner_default: self.inner_default.clone(),
            is_array: self.is_array,
        }
    }
}

impl Clone for VariantSchema {
    fn clone(&self) -> (r: Self)
        ensures
            r@ == self@,
    {
        VariantSchema { docs: self.docs.clone(), value: self.value.clone(), config: self.config }
    }
}

// ---- meta operations ----

/// The wrapping name of an optional value.
pub open spec fn spec_option_wrap() -> Seq<char> {
    seq!['O', 'p', 't', 'i', 'o', 'n']
}

/// The comment a node's metadata contributes to the rendered document.
pub open spec fn spec_meta_comment(m: SpecMeta) -> SpecComment {
    SpecComment {
        config: m.config,
        defined_docs: m.defined_docs,
        valued_docs: m.valued_docs,
        wrap_type: Seq::empty(),
        inner_type: m.inner_type,
        inner_default: m.inner_default,
        comment_type: CommentType::Unset,
    }
}

impl Meta {
    /// The comment carrying this node's docs, type name and default.
    pub fn comment(&self) -> (r: Comment)
        ensures
            r@ == spec_meta_comment(self@),
    {
        Comment {
            config: self.config,
            defined_docs: self.defined_docs.clone(),
            valued_docs: self.valued_docs.clone(),
            inner_type: self.inner_type.clone(),
            inner_default: self.inner_default.clone(),
            wrap_type: String::new(),
            comment_type: CommentType::Unset,
        }
    }

    /// Whether the node's value is wrapped in an `Option`.
    pub fn is_option_type(&self) -> (r: bool)
        ensures
            r == (self@.wrap_type == spec_option_wrap()),
    {
        let w = "Option";
        proof {
            reveal_strlit("Option");
            assert(w@ =~= spec_option_wrap());
        }
        eq_str(self.wrap_type.as_str(), w)
    }
}

/// The metadata of either schema shape.
pub open spec fn spec_schema_meta(s: SpecSchema) -> SpecMeta {
    match s {
        SpecSchema::Prim(p) => p.meta,
        SpecSchema::Table(t) => t.meta,
    }
}

/// The schema with its metadata replaced.
pub open spec fn spec_schema_with_meta(s: SpecSchema, m: SpecMeta) -> SpecSchema {
    match s {
        SpecSchema::Prim(p) => SpecSchema::Prim(SpecPrimSchema { meta: m, ..p }),
        SpecSchema::Table(t) => SpecSchema::Table(SpecTableSchema { meta: m, ..t }),
    }
}

impl FieldSchema {
    /// Overrides the declared default of this field's inner value.
    pub fn set_inner_default(&mut self, raw: RawValue)
        ensures
            final(self)@ == (SpecFieldSchema {
                schema: spec_schema_with_meta(
                    old(self)@.schema,
                    SpecMeta {
                        inner_default: SpecPrimValue {
                            tag: spec_schema_meta(old(self)@.schema).inner_default.tag,
                            raw: Some(raw@),
                        },
                        ..spec_schema_meta(old(self)@.schema)
                    },
                ),
                ..old(self)@
            }),
    {
        let meta = self.schema.meta_mut();
        meta.inner_default.raw = Some(raw);
    }
}

impl Schema {
    /// An empty record schema.
    pub fn new_table() -> (r: Schema)
        ensures
            r@ == SpecSchema::Table(
                SpecTableSchema { meta: spec_default_meta(), fields: Seq::empty() },
            ),
    {
        Schema::Table(TableSchema::default())
    }

    pub fn is_prim(&self) -> (r: bool)
        ensures
            r == (self@ is Prim),
    {
        matches!(self, Schema::Prim(_))
    }

    pub fn is_table(&self) -> (r: bool)
        ensures
            r == (self@ is Table),
    {
        matches!(self, Schema::Table(_))
    }

    /// A mutable borrow of the node's metadata.
    pub fn meta_mut(&mut self) -> (r: &mut Meta)
        ensures
            (*r)@ == spec_schema_meta(old(self)@),
            final(self)@ == spec_schema_with_meta(old(self)@, final(r)@),
    {
        match self {
            Schema::Prim(schema) => &mut schema.meta,
            Schema::Table(schema) => &mut schema.meta,
        }
    }

    /// The node's metadata.
    pub fn meta(&self) -> (r: &Meta)
        ensures
            r@ == spec_schema_meta(self@),
    {
        match self {
            Schema::Prim(schema) => &schema.meta,
            Schema::Table(schema) => &schema.meta,
        }
    }

    /// Replaces the node's wrapping name, returning the previous one.
    pub fn set_wrap_type(&mut self, new: String) -> (r: String)
        ensures
            r@ == spec_schema_meta(old(self)@).wrap_type,
            final(self)@ == spec_schema_with_meta(
                old(self)@,
                SpecMeta { wrap_type: new@, ..spec_schema_meta(old(self)@) },
            ),
    {
        let mut tmp = new;
        let meta = self.meta_mut();
        core::mem::swap(&mut meta.wrap_type, &mut tmp);
        tmp
    }
}

// ---- flattening a schema into the section skeleton ----

/// The single section a primitive or tagged-union schema produces: a root
/// section holding one anonymous block that carries the metadata and the
/// variants.
pub open spec fn spec_prim_schema_flatten(p: SpecPrimSchema) -> SpecSection {
    SpecSection {
        key: Seq::empty(),
        meta: spec_default_meta(),
        array_index: if p.meta.is_array {
            Some(0usize)
        } else {
            None
        },
        blocks: seq![
            SpecBlock {
                key: Seq::empty(),
                ident: Seq::empty(),
                meta: p.meta,
                value: None,
                variants: p.variants,
            },
        ],
    }
}

/// A section as one field hands it to its parent: it takes the field's docs
/// and configuration; a bare-value section renames its block to the field
/// and lets the block's configuration fall back to the field's, while any
/// other section gains the field's name as a leading key segment.
pub open spec fn spec_field_apply(s: SpecSection, f: SpecFieldSchema) -> SpecSection {
    let meta = SpecMeta { valued_docs: f.docs, config: f.config, ..s.meta };
    if spec_section_is_value(s) {
        SpecSection {
            meta,
            blocks: s.blocks.map_values(
                |b: SpecBlock| SpecBlock {
                    key: f.ident,
                    ident: f.ident,
                    meta: SpecMeta {
                        valued_docs: f.docs,
                        config: b.meta.config.spec_merge_parent(f.config),
                        ..b.meta
                    },
                    ..b
                },
            ),
            ..s
        }
    } else {
        SpecSection {
            meta,
            key: spec_increase_key(s.key, f.ident),
            blocks: s.blocks.map_values(
                |b: SpecBlock| SpecBlock { key: spec_increase_key(b.key, f.ident), ..b },
            ),
            ..s
        }
    }
}

/// The sections one field contributes: its schema's sections, handed over
/// unchanged when the field is flattened.
pub open spec fn spec_field_schema_flatten(f: SpecFieldSchema) -> Seq<SpecSection>
    decreases f,
{
    let sections = spec_schema_flatten(f.schema);
    if f.flat {
        sections
    } else {
        sections.map_values(|s: SpecSection| spec_field_apply(s, f))
    }
}

/// The sections of a list of fields, in declaration order.
pub open spec fn spec_fields_flatten(fs: Seq<SpecFieldSchema>) -> Seq<SpecSection>
    decreases fs,
{
    if fs.len() == 0 {
        Seq::empty()
    } else {
        spec_fields_flatten(fs.drop_last()) + spec_field_schema_flatten(fs.last())
    }
}

/// The sections of a record schema: its fields' sections, deduplicated by
/// key path, the root section taking the record's own metadata and array
/// position.
pub open spec fn spec_table_schema_flatten(t: SpecTableSchema) -> Seq<SpecSection>
    decreases t,
{
    spec_reduce(spec_fields_flatten(t.fields)).map_values(
        |s: SpecSection| if spec_section_is_root(s) {
            SpecSection {
                meta: t.meta,
                array_index: if t.meta.is_array {
                    Some(0usize)
                } else {
                    None
                },
                ..s
            }
        } else {
            s
        },
    )
}

/// The ordered section skeleton of a schema.
pub open spec fn spec_schema_flatten(s: SpecSchema) -> Seq<SpecSection>
    decreases s,
{
    match s {
        SpecSchema::Prim(p) => seq![spec_prim_schema_flatten(p)],
        SpecSchema::Table(t) => spec_table_schema_flatten(t),
    }
}

fn clone_variants(vs: &Vec<VariantSchema>) -> (r: Vec<VariantSchema>)
    ensures
        r@.map_values(|v: VariantSchema| v@) == vs@.map_values(|v: VariantSchema| v@),
{
    let mut out: Vec<VariantSchema> = Vec::new();
    let mut i: usize = 0;
    while i < vs.len()
        invariant
            i <= vs@.len(),
            out@.len() == i,
            forall|j: int| 0 <= j < i ==> (#[trigger] out@[j])@ == vs@[j]@,
        decreases vs@.len() - i,
    {
        out.push(vs[i].clone());
        i = i + 1;
    }
    proof {
        assert(out@.map_values(|v: VariantSchema| v@) =~= vs@.map_values(|v: VariantSchema| v@));
    }
    out
}

fn prim_schema_flatten_ref(p: &PrimSchema) -> (r: Section)
    ensures
        r@ == spec_prim_schema_flatten(p@),
{
    let array_index = if p.meta.is_array {
        Some(0usize)
    } else {
        None
    };
    let block = Block {
        key: String::new(),
        ident: String::new(),
        meta: p.meta.clone(),
        value: None,
        variants: clone_variants(&p.variants),
    };
    let ghost bm = block@;
    let mut blocks: Vec<Block> = Vec::new();
    blocks.push(block);
    let r = Section { key: String::new(), meta: Meta::default(), array_index, blocks };
    proof {
        assert(r@.blocks =~= seq![bm]);
        assert(r@ =~= spec_prim_schema_flatten(p@));
    }
    r
}

fn field_schema_flatten_ref(f: &FieldSchema) -> (r: Vec<Section>)
    ensures
        r@.map_values(|s: Section| s@) == spec_field_schema_flatten(f@),
    decreases *f,
{
    proof {
        assert(decreases_to!(*f => f.schema));
    }
    let mut sections = schema_flatten_ref(&f.schema);
    if f.flat {
        return sections;
    }
    let ghost model = sections@.map_values(|s: Section| s@);
    let mut i: usize = 0;
    while i < sections.len()
        invariant
            i <= sections@.len(),
            sections@.len() == model.len(),
            forall|j: int|
                0 <= j < i ==> (#[trigger] sections@[j])@ == spec_field_apply(model[j], f@),
            forall|j: int| i <= j < model.len() ==> (#[trigger] sections@[j])@ == model[j],
        decreases sections@.len() - i,
    {
        let mut section = sections.remove(i);
        let ghost sm = section@;
        section.meta.valued_docs = f.docs.clone();
        section.meta.config = f.config;
        let ghost bmodel = sm.blocks;
        if section.is_value() {
            let mut j: usize = 0;
            while j < section.blocks.len()
                invariant
                    j <= section.blocks@.len(),
                    section.blocks@.len() == bmodel.len(),
                    section.key@ == sm.key,
                    section.array_index == sm.array_index,
                    section.meta@ == (SpecMeta {
                        valued_docs: f.docs@,
                        config: f.config,
                        ..sm.meta
                    }),
                    forall|u: int|
                        0 <= u < j ==> (#[trigger] section.blocks@[u])@ == (SpecBlock {
                            key: f.ident@,
                            ident: f.ident@,
                            meta: SpecMeta {
                                valued_docs: f.docs@,
                                config: bmodel[u].meta.config.spec_merge_parent(f.config),
                                ..bmodel[u].meta
                            },
                            ..bmodel[u]
                        }),
                    forall|u: int|
                        j <= u < bmodel.len() ==> (#[trigger] section.blocks@[u])@ == bmodel[u],
                decreases section.blocks@.len() - j,
            {
                let mut b = section.blocks.remove(j);
                b.meta.valued_docs = f.docs.clone();
                b.meta.config.merge_parent(&f.config);
                b.key = String::from_str(f.ident.as_str());
                b.ident = String::from_str(f.ident.as_str());
                section.blocks.insert(j, b);
                j = j + 1;
            }
            proof {
                assert(spec_section_is_value(sm));
                assert(section@.blocks =~= spec_field_apply(sm, f@).blocks);
                assert(section@ =~= spec_field_apply(sm, f@));
            }
        } else {
            crate::util::increase_key(&mut section.key, f.ident.as_str());
            let mut j: usize = 0;
            while j < section.blocks.len()
                invariant
                    j <= section.blocks@.len(),
                    section.blocks@.len() == bmodel.len(),
                    section.key@ == spec_increase_key(sm.key, f.ident@),
                    section.array_index == sm.array_index,
                    section.meta@ == (SpecMeta {
                        valued_docs: f.docs@,
                        config: f.config,
                        ..sm.meta
                    }),
                    forall|u: int|
                        0 <= u < j ==> (#[trigger] section.blocks@[u])@ == (SpecBlock {
                            key: spec_increase_key(bmodel[u].key, f.ident@),
                            ..bmodel[u]
                        }),
                    forall|u: int|
                        j <= u < bmodel.len() ==> (#[trigger] section.blocks@[u])@ == bmodel[u],
                decreases section.blocks@.len() - j,
            {
                let mut b = section.blocks.remove(j);
                crate::util::increase_key(&mut b.key, f.ident.as_str());
                section.blocks.insert(j, b);
                j = j + 1;
            }
            proof {
                assert(!spec_section_is_value(sm));
                assert(section@.blocks =~= spec_field_apply(sm, f@).blocks);
                assert(section@ =~= spec_field_apply(sm, f@));
            }
        }
        sections.insert(i, section);
        i = i + 1;
    }
    proof {
        assert(sections@.map_values(|s: Section| s@) =~= model.map_values(
            |s: SpecSection| spec_field_apply(s, f@),
        ));
    }
    sections
}

fn fields_flatten_ref(fs: &Vec<FieldSchema>) -> (r: Vec<Section>)
    ensures
        r@.map_values(|s: Section| s@) == spec_fields_flatten(spec_field_schema_view_list(fs@)),
    decreases *fs,
{
    let ghost model = spec_field_schema_view_list(fs@);
    let mut out: Vec<Section> = Vec::new();
    let mut i: usize = 0;
    proof {
        lemma_field_schema_view_list_len(fs@);
        assert(out@.map_values(|s: Section| s@) =~= spec_fields_flatten(model.take(0)));
    }
    while i < fs.len()
        invariant
            i <= fs@.len(),
            model == spec_field_schema_view_list(fs@),
            model.len() == fs@.len(),
            forall|j: int| #![all_triggers] 0 <= j < fs@.len() ==> model[j] == fs@[j]@,
            out@.map_values(|s: Section| s@) == spec_fields_flatten(model.take(i as int)),
        decreases fs@.len() - i,
    {
        proof {
            assert(decreases_to!(*fs => fs@[i as int]));
        }
        let mut tmp = field_schema_flatten_ref(&fs[i]);
        let ghost tmp_model = tmp@.map_values(|s: Section| s@);
        let ghost prev = out@.map_values(|s: Section| s@);
        out.append(&mut tmp);
        proof {
            let t = model.take(i + 1);
            assert(t.drop_last() =~= model.take(i as int));
            assert(t.last() == model[i as int]);
            assert(out@.map_values(|s: Section| s@) =~= prev + tmp_model);
            assert(out@.map_values(|s: Section| s@) =~= spec_fields_flatten(t));
        }
        i = i + 1;
    }
    proof {
        assert(model.take(fs@.len() as int) =~= model);
    }
    out
}

fn table_schema_flatten_ref(t: &TableSchema) -> (r: Vec<Section>)
    ensures
        r@.map_values(|s: Section| s@) == spec_table_schema_flatten(t@),
    decreases *t,
{
    proof {
        assert(decreases_to!(*t => t.fields));
    }
    let mut sections = fields_flatten_ref(&t.fields);
    Section::reduce(&mut sections);
    let ghost model = sections@.map_values(|s: Section| s@);
    let mut i: usize = 0;
    while i < sections.len()
        invariant
            i <= sections@.len(),
            sections@.len() == model.len(),
            forall|j: int|
                0 <= j < i ==> (#[trigger] sections@[j])@ == (if spec_section_is_root(model[j]) {
                    SpecSection {
                        meta: t@.meta,
                        array_index: if t@.meta.is_array {
                            Some(0usize)
                        } else {
                            None
                        },
                        ..model[j]
                    }
                } else {
                    model[j]
                }),
            forall|j: int| i <= j < model.len() ==> (#[trigger] sections@[j])@ == model[j],
        decreases sections@.len() - i,
    {
        let root = sections[i].is_root();
        if root {
            let mut section = sections.remove(i);
            section.meta = t.meta.clone();
            section.array_index = if t.meta.is_array {
                Some(0usize)
            } else {
                None
            };
            sections.insert(i, section);
        }
        i = i + 1;
    }
    proof {
        assert(sections@.map_values(|s: Section| s@) =~= model.map_values(
            |s: SpecSection| if spec_section_is_root(s) {
                SpecSection {
                    meta: t@.meta,
                    array_index: if t@.meta.is_array {
                        Some(0usize)
                    } else {
                        None
                    },
                    ..s
                }
            } else {
                s
            },
        ));
    }
    sections
}

fn schema_flatten_ref(s: &Schema) -> (r: Vec<Section>)
    ensures
        r@.map_values(|x: Section| x@) == spec_schema_flatten(s@),
    decreases *s,
{
    match s {
        Schema::Prim(prim) => {
            let section = prim_schema_flatten_ref(prim);
            let ghost sm = section@;
            let mut r: Vec<Section> = Vec::new();
            r.push(section);
            proof {
                assert(r@.map_values(|x: Section| x@) =~= seq![sm]);
            }
            r
        },
        Schema::Table(table) => table_schema_flatten_ref(table),
    }
}

impl PrimSchema {
    /// The single root section of a primitive or tagged-union schema.
    pub fn flatten(self) -> (r: Section)
        ensures
            r@ == spec_prim_schema_flatten(self@),
    {
        prim_schema_flatten_ref(&self)
    }
}

impl TableSchema {
    /// The ordered section skeleton of a record schema: one root section of
    /// its primitive and union fields, plus one nested section per
    /// record-valued field, deduplicated by key path.
    pub fn flatten(self) -> (r: Vec<Section>)
        ensures
            r@.map_values(|s: Section| s@) == spec_table_schema_flatten(self@),
    {
        table_schema_flatten_ref(&self)
    }
}

impl FieldSchema {
    /// The sections this field contributes to its parent's skeleton.
    pub fn flatten(self) -> (r: Vec<Section>)
        ensures
            r@.map_values(|s: Section| s@) == spec_field_schema_flatten(self@),
    {
        field_schema_flatten_ref(&self)
    }
}

impl Schema {
    /// The ordered section skeleton of this schema.
    pub fn flatten(self) -> (r: Vec<Section>)
        ensures
            r@.map_values(|s: Section| s@) == spec_schema_flatten(self@),
    {
        schema_flatten_ref(&self)
    }
}

/// Flattening is transparent on the schema side: a flattened record-valued
/// field contributes its record's sections unchanged, so its fields land in
/// the parent's key-path space with no extra segment and no extra header.
pub proof fn lemma_flat_field_schema_transparent(f: SpecFieldSchema)
    requires
        f.flat,
    ensures
        spec_field_schema_flatten(f) == spec_schema_flatten(f.schema),
{
}

} // verus!
