//! The runtime instance tree: a live value serialized into a parallel
//! primitive/array/table shape, keyed the same way as the document skeleton.
//! It is flattened into addressed leaves that the merge engine overlays onto
//! the skeleton.

use vstd::prelude::*;
use crate::raw::RawValue;
use crate::raw::RawEntry;
use crate::raw::SpecRawValue;
use crate::raw::spec_raw_view;
use crate::raw::spec_raw_view_entries;
use crate::raw::spec_insert_entry;
use crate::raw::insert_entry;
use crate::util::spec_increase_key;
use crate::util::increase_key;

verus! {

broadcast use vstd::seq_lib::group_seq_lib_default, vstd::seq::group_seq_axioms, vstd::std_specs::vec::group_vec_axioms;

/// One flattened leaf of an instance tree: the dotted key it belongs to, the
/// active variant tag (for tagged unions), the raw value if present, and the
/// element position when the leaf lies inside an array of tables.
pub struct BlockValue {
    pub key: String,
    pub tag: String,
    pub value: Option<RawValue>,
    pub array_index: Option<usize>,
}

/// A primitive leaf value: a variant tag and, when present, its raw value.
pub struct PrimValue {
    pub tag: String,
    pub raw: Option<RawValue>,
}

/// An ordered sequence of element values.
pub struct ArrayValue {
    pub values: Vec<Value>,
}

/// An ordered record of named field values.
pub struct TableValue {
    pub fields: Vec<FieldValue>,
}

/// A runtime instance tree.
pub enum Value {
    Prim(PrimValue),
    Array(ArrayValue),
    Table(TableValue),
}

/// One named field of a table value; `flat` marks a field whose own table
/// contents are spliced into the parent without a key segment.
pub struct FieldValue {
    pub ident: String,
    pub value: Value,
    pub flat: bool,
}

// ---- models ----

#[verifier::ext_equal]
pub struct SpecBlockValue {
    pub key: Seq<char>,
    pub tag: Seq<char>,
    pub value: Option<SpecRawValue>,
    pub array_index: Option<usize>,
}

#[verifier::ext_equal]
pub struct SpecPrimValue {
    pub tag: Seq<char>,
    pub raw: Option<SpecRawValue>,
}

#[verifier::ext_equal]
pub enum SpecValue {
    Prim(SpecPrimValue),
    Array(Seq<SpecValue>),
    Table(Seq<SpecFieldValue>),
}

#[verifier::ext_equal]
pub struct SpecFieldValue {
    pub ident: Seq<char>,
    pub value: SpecValue,
    pub flat: bool,
}

pub open spec fn spec_opt_raw_view(o: Option<RawValue>) -> Option<SpecRawValue> {
    match o {
        Some(r) => Some(spec_raw_view(r)),
        None => None,
    }
}

impl View for BlockValue {
    type V = SpecBlockValue;

    open spec fn view(&self) -> SpecBlockValue {
        SpecBlockValue {
            key: self.key@,
            tag: self.tag@,
            value: spec_opt_raw_view(self.value),
            array_index: self.array_index,
        }
    }
}

impl View for PrimValue {
    type V = SpecPrimValue;

    open spec fn view(&self) -> SpecPrimValue {
        SpecPrimValue { tag: self.tag@, raw: spec_opt_raw_view(self.raw) }
    }
}

pub open spec fn spec_value_view(v: Value) -> SpecValue
    decreases v,
{
    match v {
        Value::Prim(p) => SpecValue::Prim(p@),
        Value::Array(a) => SpecValue::Array(spec_value_view_list(a.values@)),
        Value::Table(t) => SpecValue::Table(spec_field_view_list(t.fields@)),
    }
}

pub open spec fn spec_value_view_list(vs: Seq<Value>) -> Seq<SpecValue>
    decreases vs,
{
    if vs.len() == 0 {
        Seq::empty()
    } else {
        spec_value_view_list(vs.drop_last()).push(spec_value_view(vs.last()))
    }
}

pub open spec fn spec_field_view_list(fs: Seq<FieldValue>) -> Seq<SpecFieldValue>
    decreases fs,
{
    if fs.len() == 0 {
        Seq::empty()
    } else {
        spec_field_view_list(fs.drop_last()).push(
            SpecFieldValue {
                ident: fs.last().ident@,
                value: spec_value_view(fs.last().value),
                flat: fs.last().flat,
            },
        )
    }
}

impl View for Value {
    type V = SpecValue;

    open spec fn view(&self) -> SpecValue {
        spec_value_view(*self)
    }
}

impl View for ArrayValue {
    type V = Seq<SpecValue>;

    open spec fn view(&self) -> Seq<SpecValue> {
        spec_value_view_list(self.values@)
    }
}

impl View for TableValue {
    type V = Seq<SpecFieldValue>;

    open spec fn view(&self) -> Seq<SpecFieldValue> {
        spec_field_view_list(self.fields@)
    }
}

impl View for FieldValue {
    type V = SpecFieldValue;

    open spec fn view(&self) -> SpecFieldValue {
        SpecFieldValue { ident: self.ident@, value: self.value@, flat: self.flat }
    }
}

pub proof fn lemma_value_view_list_len(vs: Seq<Value>)
    ensures
        spec_value_view_list(vs).len() == vs.len(),
        forall|i: int| 0 <= i < vs.len() ==> spec_value_view_list(vs)[i] == spec_value_view(vs[i]),
    decreases vs,
{
    if vs.len() > 0 {
        lemma_value_view_list_len(vs.drop_last());
    }
}

pub proof fn lemma_field_view_list_len(fs: Seq<FieldValue>)
    ensures
        spec_field_view_list(fs).len() == fs.len(),
        forall|i: int| 0 <= i < fs.len() ==> spec_field_view_list(fs)[i] == fs[i]@,
    decreases fs,
{
    if fs.len() > 0 {
        lemma_field_view_list_len(fs.drop_last());
    }
}

// ---- defaults and clones ----

impl Default for BlockValue {
    /// An unaddressed leaf with no value.
    fn default() -> (r: Self)
        ensures
            r@ == (SpecBlockValue {
                key: Seq::<char>::empty(),
                tag: Seq::<char>::empty(),
                value: None::<SpecRawValue>,
                array_index: None::<usize>,
            }),
    {
        BlockValue { key: String::new(), tag: String::new(), value: None, array_index: None }
    }
}

impl Default for PrimValue {
    /// An absent primitive: empty tag, no raw value.
    fn default() -> (r: Self)
        ensures
            r@ == (SpecPrimValue { tag: Seq::<char>::empty(), raw: None::<SpecRawValue> }),
    {
        PrimValue { tag: String::new(), raw: None }
    }
}

impl Default for Value {
    fn default() -> (r: Self)
        ensures
            r@ == SpecValue::Prim(
                SpecPrimValue { tag: Seq::<char>::empty(), raw: None::<SpecRawValue> },
            ),
    {
        Value::Prim(PrimValue::default())
    }
}

impl Default for ArrayValue {
    fn default() -> (r: Self)
        ensures
            r@ == Seq::<SpecValue>::empty(),
    {
        let r = ArrayValue { values: Vec::new() };
        proof {
            assert(r@ =~= Seq::<SpecValue>::empty());
        }
        r
    }
}

impl Default for TableValue {
    fn default() -> (r: Self)
        ensures
            r@ == Seq::<SpecFieldValue>::empty(),
    {
        let r = TableValue { fields: Vec::new() };
        proof {
            assert(r@ =~= Seq::<SpecFieldValue>::empty());
        }
        r
    }
}

impl Default for FieldValue {
    /// An anonymous, unflattened field holding an absent primitive.
    fn default() -> (r: Self)
        ensures
            r@ == (SpecFieldValue {
                ident: Seq::<char>::empty(),
                value: SpecValue::Prim(
                    SpecPrimValue { tag: Seq::<char>::empty(), raw: None::<SpecRawValue> },
                ),
                flat: false,
            }),
    {
        FieldValue { ident: String::new(), value: Value::default(), flat: false }
    }
}

impl Clone for PrimValue {
    fn clone(&self) -> (r: Self)
        ensures
            r@ == self@,
    {
        let raw = match &self.raw {
            Some(v) => Some(v.clone()),
            None => None,
        };
        PrimValue { tag: self.tag.clone(), raw }
    }
}

impl Clone for BlockValue {
    fn clone(&self) -> (r: Self)
        ensures
            r@ == self@,
    {
        let value = match &self.value {
            Some(v) => Some(v.clone()),
            None => None,
        };
        BlockValue {
            key: self.key.clone(),
            tag: self.tag.clone(),
            value,
            array_index: self.array_index,
        }
    }
}

// ---- flattening into leaves ----

/// The leaf of a primitive value: unaddressed, carrying the tag and raw value.
pub open spec fn spec_prim_flatten(p: SpecPrimValue) -> SpecBlockValue {
    SpecBlockValue {
        key: Seq::empty(),
        tag: p.tag,
        value: p.raw,
        array_index: None,
    }
}

impl PrimValue {
    /// Wraps an already-formatted raw value, with no tag.
    pub fn new(raw: RawValue) -> (r: Self)
        ensures
            r@ == (SpecPrimValue { tag: Seq::<char>::empty(), raw: Some(raw@) }),
    {
        PrimValue { tag: String::new(), raw: Some(raw) }
    }

    /// The single unaddressed leaf of this primitive.
    pub fn flatten(self) -> (r: BlockValue)
        ensures
            r@ == spec_prim_flatten(self@),
    {
        let PrimValue { tag, raw } = self;
        BlockValue { key: String::new(), tag, value: raw, array_index: None }
    }
}

/// The raw values of a list of element values: each element is reduced to a
/// primitive, and elements without a raw value contribute nothing.
pub open spec fn spec_prim_raws(vs: Seq<SpecValue>) -> Seq<SpecRawValue>
    decreases vs,
{
    if vs.len() == 0 {
        Seq::empty()
    } else {
        let rest = spec_prim_raws(vs.drop_last());
        match spec_value_into_prim(vs.last()).raw {
            Some(r) => rest.push(r),
            None => rest,
        }
    }
}

/// Inserting every entry of `new`, in order, into the ordered table `es`.
pub open spec fn spec_insert_all(
    es: Seq<(Seq<char>, SpecRawValue)>,
    new: Seq<(Seq<char>, SpecRawValue)>,
) -> Seq<(Seq<char>, SpecRawValue)>
    decreases new,
{
    if new.len() == 0 {
        es
    } else {
        spec_insert_entry(spec_insert_all(es, new.drop_last()), new.last().0, new.last().1)
    }
}

/// The ordered table collected from a list of fields, later fields'
/// entries inserted after (and over) earlier ones.
pub open spec fn spec_table_entries(fs: Seq<SpecFieldValue>) -> Seq<(Seq<char>, SpecRawValue)>
    decreases fs,
{
    if fs.len() == 0 {
        Seq::empty()
    } else {
        spec_insert_all(spec_table_entries(fs.drop_last()), spec_field_map(fs.last()))
    }
}

/// The table entries one field contributes: a flattened field donates its own
/// table's entries; otherwise its raw value, if any, under its name.
pub open spec fn spec_field_map(f: SpecFieldValue) -> Seq<(Seq<char>, SpecRawValue)>
    decreases f,
{
    match spec_value_into_prim(f.value).raw {
        Some(SpecRawValue::Table(es)) => if f.flat {
            es
        } else {
            seq![(f.ident, SpecRawValue::Table(es))]
        },
        Some(r) => seq![(f.ident, r)],
        None => Seq::empty(),
    }
}

/// Reducing a value tree to a single primitive: an array becomes an inline
/// raw array of its elements' raw values, a table an inline raw table.
pub open spec fn spec_value_into_prim(v: SpecValue) -> SpecPrimValue
    decreases v,
{
    match v {
        SpecValue::Prim(p) => p,
        SpecValue::Array(vs) => SpecPrimValue {
            tag: Seq::empty(),
            raw: Some(SpecRawValue::Array(spec_prim_raws(vs))),
        },
        SpecValue::Table(fs) => SpecPrimValue {
            tag: Seq::empty(),
            raw: Some(SpecRawValue::Table(spec_table_entries(fs))),
        },
    }
}

/// The leaf re-addressed to element position `i` of an array of tables.
pub open spec fn spec_set_array_index(b: SpecBlockValue, i: usize) -> SpecBlockValue {
    SpecBlockValue { array_index: Some(i), ..b }
}

/// The leaves of an array: every element's leaves in order, each stamped with
/// its element position.
pub open spec fn spec_array_flatten(vs: Seq<SpecValue>) -> Seq<SpecBlockValue>
    decreases vs,
{
    if vs.len() == 0 {
        Seq::empty()
    } else {
        spec_array_flatten(vs.drop_last()) + spec_value_flatten(vs.last()).map_values(
            |b: SpecBlockValue| spec_set_array_index(b, (vs.len() - 1) as usize),
        )
    }
}

/// The leaves of a table: every field's leaves, in field order.
pub open spec fn spec_table_flatten(fs: Seq<SpecFieldValue>) -> Seq<SpecBlockValue>
    decreases fs,
{
    if fs.len() == 0 {
        Seq::empty()
    } else {
        spec_table_flatten(fs.drop_last()) + spec_field_flatten(fs.last())
    }
}

/// The leaves of one field: its value's leaves, each key extended with the
/// field's name unless the field is flattened.
pub open spec fn spec_field_flatten(f: SpecFieldValue) -> Seq<SpecBlockValue>
    decreases f,
{
    let blocks = spec_value_flatten(f.value);
    if f.flat {
        blocks
    } else {
        blocks.map_values(
            |b: SpecBlockValue| SpecBlockValue { key: spec_increase_key(b.key, f.ident), ..b },
        )
    }
}

/// The addressed leaves of a value tree.
pub open spec fn spec_value_flatten(v: SpecValue) -> Seq<SpecBlockValue>
    decreases v,
{
    match v {
        SpecValue::Prim(p) => seq![spec_prim_flatten(p)],
        SpecValue::Array(vs) => spec_array_flatten(vs),
        SpecValue::Table(fs) => spec_table_flatten(fs),
    }
}

// ---- reference-based workers ----

/// The raw values collected from the elements of `vs`.
fn prim_raws_ref(vs: &Vec<Value>) -> (r: Vec<RawValue>)
    ensures
        crate::raw::spec_raw_view_list(r@) == spec_prim_raws(spec_value_view_list(vs@)),
    decreases *vs,
{
    let ghost model = spec_value_view_list(vs@);
    let mut raws: Vec<RawValue> = Vec::new();
    let mut i: usize = 0;
    proof {
        lemma_value_view_list_len(vs@);
        assert(crate::raw::spec_raw_view_list(raws@) =~= spec_prim_raws(model.take(0)));
    }
    while i < vs.len()
        invariant
            i <= vs@.len(),
            model == spec_value_view_list(vs@),
            model.len() == vs@.len(),
            forall|j: int| #![all_triggers]
                0 <= j < vs@.len() ==> model[j] == spec_value_view(vs@[j]),
            crate::raw::spec_raw_view_list(raws@) == spec_prim_raws(model.take(i as int)),
        decreases vs@.len() - i,
    {
        proof {
            assert(decreases_to!(*vs => vs@[i as int]));
        }
        let p = prim_ref(&vs[i]);
        let ghost prev_raws = raws@;
        if let Some(raw) = p.raw {
            raws.push(raw);
            proof {
                assert(raws@.drop_last() =~= prev_raws);
            }
        }
        proof {
            let t = model.take(i + 1);
            assert(t.drop_last() =~= model.take(i as int));
            assert(t.last() == model[i as int]);
            assert(crate::raw::spec_raw_view_list(raws@) =~= spec_prim_raws(t));
        }
        i = i + 1;
    }
    proof {
        assert(model.take(vs@.len() as int) =~= model);
    }
    raws
}

/// The ordered inline table collected from the fields of `fs`.
fn table_entries_ref(fs: &Vec<FieldValue>) -> (r: Vec<RawEntry>)
    ensures
        spec_raw_view_entries(r@) == spec_table_entries(spec_field_view_list(fs@)),
    decreases *fs,
{
    let ghost model = spec_field_view_list(fs@);
    let mut entries: Vec<RawEntry> = Vec::new();
    let mut i: usize = 0;
    proof {
        lemma_field_view_list_len(fs@);
        assert(spec_raw_view_entries(entries@) =~= spec_table_entries(model.take(0)));
    }
    while i < fs.len()
        invariant
            i <= fs@.len(),
            model == spec_field_view_list(fs@),
            model.len() == fs@.len(),
            forall|j: int| #![all_triggers] 0 <= j < fs@.len() ==> model[j] == fs@[j]@,
            spec_raw_view_entries(entries@) == spec_table_entries(model.take(i as int)),
        decreases fs@.len() - i,
    {
        proof {
            assert(decreases_to!(*fs => fs@[i as int]));
        }
        let mut map = field_map_ref(&fs[i]);
        let ghost map_model = spec_raw_view_entries(map@);
        let ghost entries0 = spec_raw_view_entries(entries@);
        let mut k: usize = 0;
        let n0 = map.len();
        proof {
            crate::raw::lemma_raw_view_entries_len(map@);
            assert(map@.skip(0) =~= map@);
            assert(spec_insert_all(entries0, map_model.take(0)) == entries0);
        }
        while map.len() > 0
            invariant
                k + map.len() == n0,
                map_model.len() == n0,
                spec_raw_view_entries(map@).len() == map@.len(),
                forall|j: int| #![all_triggers]
                    0 <= j < map@.len() ==> spec_raw_view_entries(map@)[j] == map_model[k + j],
                spec_raw_view_entries(entries@) == spec_insert_all(
                    entries0,
                    map_model.take(k as int),
                ),
            decreases map.len(),
        {
            let ghost mv_prev = map@;
            let e = map.remove(0);
            proof {
                crate::raw::lemma_raw_view_entries_len(mv_prev);
                crate::raw::lemma_raw_view_entries_len(map@);
                assert(spec_raw_view_entries(mv_prev)[0] == map_model[k as int]);
                assert((e.key@, spec_raw_view(e.value)) == map_model[k as int]);
                assert forall|j: int| 0 <= j < map@.len() implies #[trigger] spec_raw_view_entries(
                    map@,
                )[j] == map_model[k + 1 + j] by {
                    assert(map@[j] == mv_prev[j + 1]);
                    assert(spec_raw_view_entries(mv_prev)[j + 1] == map_model[k + j + 1]);
                    assert(spec_raw_view_entries(map@)[j] == (
                        map@[j].key@,
                        spec_raw_view(map@[j].value),
                    ));
                    assert(spec_raw_view_entries(mv_prev)[j + 1] == (
                        mv_prev[j + 1].key@,
                        spec_raw_view(mv_prev[j + 1].value),
                    ));
                }
            }
            let RawEntry { key, value } = e;
            insert_entry(&mut entries, key, value);
            proof {
                let t = map_model.take(k + 1);
                assert(t.drop_last() =~= map_model.take(k as int));
                assert(t.last() == map_model[k as int]);
            }
            k = k + 1;
        }
        proof {
            assert(map_model.take(k as int) =~= map_model);
            let t = model.take(i + 1);
            assert(t.drop_last() =~= model.take(i as int));
            assert(t.last() == model[i as int]);
            assert(spec_raw_view_entries(entries@) == spec_table_entries(t));
        }
        i = i + 1;
    }
    proof {
        assert(model.take(fs@.len() as int) =~= model);
    }
    entries
}

/// Reduces a borrowed value tree to a single primitive.
fn prim_ref(v: &Value) -> (r: PrimValue)
    ensures
        r@ == spec_value_into_prim(v@),
    decreases *v,
{
    match v {
        Value::Prim(p) => p.clone(),
        Value::Array(a) => {
            let raws = prim_raws_ref(&a.values);
            PrimValue { tag: String::new(), raw: Some(RawValue::Array(raws)) }
        },
        Value::Table(t) => {
            let entries = table_entries_ref(&t.fields);
            PrimValue { tag: String::new(), raw: Some(RawValue::Table(entries)) }
        },
    }
}

/// The table entries a borrowed field contributes to its parent.
fn field_map_ref(f: &FieldValue) -> (r: Vec<RawEntry>)
    ensures
        spec_raw_view_entries(r@) == spec_field_map(f@),
    decreases *f,
{
    proof {
        assert(decreases_to!(*f => f.value));
    }
    let prim = prim_ref(&f.value);
    match prim.raw {
        Some(RawValue::Table(map)) => {
            if f.flat {
                proof {
                    crate::raw::lemma_raw_view_entries_len(map@);
                }
                map
            } else {
                let mut r: Vec<RawEntry> = Vec::new();
                let other = RawValue::Table(map);
                let ghost om = other@;
                r.push(RawEntry { key: f.ident.clone(), value: other });
                proof {
                    assert(r@.drop_last() =~= Seq::<RawEntry>::empty());
                    assert(r@.last().key@ == f.ident@);
                    assert(spec_raw_view(r@.last().value) == om);
                    assert(spec_raw_view_entries(r@) == spec_raw_view_entries(
                        r@.drop_last(),
                    ).push((r@.last().key@, spec_raw_view(r@.last().value))));
                    assert(spec_raw_view_entries(r@) =~= seq![(f.ident@, om)]);
                }
                r
            }
        },
        Some(other) => {
            let mut r: Vec<RawEntry> = Vec::new();
            let ghost om = other@;
            r.push(RawEntry { key: f.ident.clone(), value: other });
            proof {
                assert(r@.drop_last() =~= Seq::<RawEntry>::empty());
                assert(r@.last().key@ == f.ident@);
                assert(spec_raw_view(r@.last().value) == om);
                assert(spec_raw_view_entries(r@) == spec_raw_view_entries(r@.drop_last()).push(
                    (r@.last().key@, spec_raw_view(r@.last().value)),
                ));
                assert(spec_raw_view_entries(r@) =~= seq![(f.ident@, om)]);
            }
            r
        },
        None => {
            let r: Vec<RawEntry> = Vec::new();
            proof {
                assert(spec_raw_view_entries(r@) =~= Seq::<(Seq<char>, SpecRawValue)>::empty());
            }
            r
        },
    }
}

/// The addressed leaves of a borrowed value tree.
fn flatten_ref(v: &Value) -> (r: Vec<BlockValue>)
    ensures
        r@.map_values(|b: BlockValue| b@) == spec_value_flatten(v@),
    decreases *v,
{
    match v {
        Value::Prim(p) => {
            let b = BlockValue {
                key: String::new(),
                tag: p.tag.clone(),
                value: match &p.raw {
                    Some(raw) => Some(raw.clone()),
                    None => None,
                },
                array_index: None,
            };
            let ghost bm = b@;
            let mut r: Vec<BlockValue> = Vec::new();
            r.push(b);
            proof {
                assert(bm == spec_prim_flatten(p@));
                assert(r@.map_values(|x: BlockValue| x@) =~= seq![bm]);
            }
            r
        },
        Value::Array(a) => array_flatten_ref(&a.values),
        Value::Table(t) => table_flatten_ref(&t.fields),
    }
}

/// The leaves of the elements of `vs`, stamped with their positions.
fn array_flatten_ref(vs: &Vec<Value>) -> (r: Vec<BlockValue>)
    ensures
        r@.map_values(|b: BlockValue| b@) == spec_array_flatten(spec_value_view_list(vs@)),
    decreases *vs,
{
    let ghost model = spec_value_view_list(vs@);
    let mut blocks: Vec<BlockValue> = Vec::new();
    let mut i: usize = 0;
    proof {
        lemma_value_view_list_len(vs@);
        assert(blocks@.map_values(|b: BlockValue| b@) =~= spec_array_flatten(model.take(0)));
    }
    while i < vs.len()
        invariant
            i <= vs@.len(),
            model == spec_value_view_list(vs@),
            model.len() == vs@.len(),
            forall|j: int| #![all_triggers]
                0 <= j < vs@.len() ==> model[j] == spec_value_view(vs@[j]),
            blocks@.map_values(|b: BlockValue| b@) == spec_array_flatten(model.take(i as int)),
        decreases vs@.len() - i,
    {
        proof {
            assert(decreases_to!(*vs => vs@[i as int]));
        }
        let mut tmp = flatten_ref(&vs[i]);
        let ghost tmp_model = tmp@.map_values(|b: BlockValue| b@);
        let mut j: usize = 0;
        while j < tmp.len()
            invariant
                j <= tmp.len(),
                tmp@.len() == tmp_model.len(),
                forall|k: int|
                    0 <= k < j ==> (#[trigger] tmp@[k])@ == spec_set_array_index(
                        tmp_model[k],
                        i as usize,
                    ),
                forall|k: int| j <= k < tmp.len() ==> (#[trigger] tmp@[k])@ == tmp_model[k],
            decreases tmp.len() - j,
        {
            let mut b = tmp.remove(j);
            b.array_index = Some(i);
            tmp.insert(j, b);
            j = j + 1;
        }
        let ghost prev = blocks@.map_values(|b: BlockValue| b@);
        blocks.append(&mut tmp);
        proof {
            let t = model.take(i + 1);
            assert(t.drop_last() =~= model.take(i as int));
            assert(t.last() == model[i as int]);
            assert(blocks@.map_values(|b: BlockValue| b@) =~= prev + tmp_model.map_values(
                |b: SpecBlockValue| spec_set_array_index(b, i as usize),
            ));
            assert(blocks@.map_values(|b: BlockValue| b@) =~= spec_array_flatten(t));
        }
        i = i + 1;
    }
    proof {
        assert(model.take(vs@.len() as int) =~= model);
    }
    blocks
}

/// The leaves of the fields of `fs`, in field order.
fn table_flatten_ref(fs: &Vec<FieldValue>) -> (r: Vec<BlockValue>)
    ensures
        r@.map_values(|b: BlockValue| b@) == spec_table_flatten(spec_field_view_list(fs@)),
    decreases *fs,
{
    let ghost model = spec_field_view_list(fs@);
    let mut blocks: Vec<BlockValue> = Vec::new();
    let mut i: usize = 0;
    proof {
        lemma_field_view_list_len(fs@);
        assert(blocks@.map_values(|b: BlockValue| b@) =~= spec_table_flatten(model.take(0)));
    }
    while i < fs.len()
        invariant
            i <= fs@.len(),
            model == spec_field_view_list(fs@),
            model.len() == fs@.len(),
            forall|j: int| #![all_triggers] 0 <= j < fs@.len() ==> model[j] == fs@[j]@,
            blocks@.map_values(|b: BlockValue| b@) == spec_table_flatten(model.take(i as int)),
        decreases fs@.len() - i,
    {
        proof {
            assert(decreases_to!(*fs => fs@[i as int]));
        }
        let mut tmp = field_flatten_ref(&fs[i]);
        let ghost tmp_model = tmp@.map_values(|b: BlockValue| b@);
        let ghost prev = blocks@.map_values(|b: BlockValue| b@);
        blocks.append(&mut tmp);
        proof {
            let t = model.take(i + 1);
            assert(t.drop_last() =~= model.take(i as int));
            assert(t.last() == model[i as int]);
            assert(blocks@.map_values(|b: BlockValue| b@) =~= prev + tmp_model);
            assert(blocks@.map_values(|b: BlockValue| b@) =~= spec_table_flatten(t));
        }
        i = i + 1;
    }
    proof {
        assert(model.take(fs@.len() as int) =~= model);
    }
    blocks
}

/// The leaves of one borrowed field, keyed under the field's name unless it
/// is flattened.
fn field_flatten_ref(f: &FieldValue) -> (r: Vec<BlockValue>)
    ensures
        r@.map_values(|b: BlockValue| b@) == spec_field_flatten(f@),
    decreases *f,
{
    proof {
        assert(decreases_to!(*f => f.value));
    }
    let mut blocks = flatten_ref(&f.value);
    if !f.flat {
        let ghost model = blocks@.map_values(|b: BlockValue| b@);
        let mut i: usize = 0;
        while i < blocks.len()
            invariant
                i <= blocks.len(),
                blocks@.len() == model.len(),
                forall|k: int|
                    0 <= k < i ==> (#[trigger] blocks@[k])@ == (SpecBlockValue {
                        key: spec_increase_key(model[k].key, f.ident@),
                        ..model[k]
                    }),
                forall|k: int| i <= k < blocks@.len() ==> (#[trigger] blocks@[k])@ == model[k],
            decreases blocks.len() - i,
        {
            let mut b = blocks.remove(i);
            increase_key(&mut b.key, f.ident.as_str());
            blocks.insert(i, b);
            i = i + 1;
        }
        proof {
            assert(blocks@.map_values(|b: BlockValue| b@) =~= model.map_values(
                |b: SpecBlockValue| SpecBlockValue {
                    key: spec_increase_key(b.key, f.ident@),
                    ..b
                },
            ));
        }
    }
    blocks
}

// ---- the consuming interface ----

impl ArrayValue {
    /// Reduces the array to one primitive holding an inline raw array.
    pub fn into_prim(self) -> (r: PrimValue)
        ensures
            r@ == (SpecPrimValue {
                tag: Seq::<char>::empty(),
                raw: Some(SpecRawValue::Array(spec_prim_raws(self@))),
            }),
    {
        let raws = prim_raws_ref(&self.values);
        PrimValue { tag: String::new(), raw: Some(RawValue::Array(raws)) }
    }

    /// The leaves of every element, each stamped with its element position.
    pub fn flatten(self) -> (r: Vec<BlockValue>)
        ensures
            r@.map_values(|b: BlockValue| b@) == spec_array_flatten(self@),
    {
        array_flatten_ref(&self.values)
    }
}

impl TableValue {
    /// Reduces the table to one primitive holding an inline raw table.
    pub fn into_prim(self) -> (r: PrimValue)
        ensures
            r@ == (SpecPrimValue {
                tag: Seq::<char>::empty(),
                raw: Some(SpecRawValue::Table(spec_table_entries(self@))),
            }),
    {
        let entries = table_entries_ref(&self.fields);
        PrimValue { tag: String::new(), raw: Some(RawValue::Table(entries)) }
    }

    /// The leaves of every field, in field order.
    pub fn flatten(self) -> (r: Vec<BlockValue>)
        ensures
            r@.map_values(|b: BlockValue| b@) == spec_table_flatten(self@),
    {
        table_flatten_ref(&self.fields)
    }
}

impl Value {
    /// A primitive value wrapping an already-formatted raw value.
    pub fn new_prim(raw: RawValue) -> (r: Self)
        ensures
            r@ == SpecValue::Prim(
                SpecPrimValue { tag: Seq::<char>::empty(), raw: Some(raw@) },
            ),
    {
        let prim = PrimValue::new(raw);
        Value::Prim(prim)
    }

    /// Reduces the tree to a single primitive.
    pub fn into_prim(self) -> (r: PrimValue)
        ensures
            r@ == spec_value_into_prim(self@),
    {
        prim_ref(&self)
    }

    pub fn is_prim(&self) -> (r: bool)
        ensures
            r == (self@ is Prim),
    {
        matches!(self, Value::Prim(_))
    }

    pub fn is_array(&self) -> (r: bool)
        ensures
            r == (self@ is Array),
    {
        matches!(self, Value::Array(_))
    }

    pub fn is_table(&self) -> (r: bool)
        ensures
            r == (self@ is Table),
    {
        matches!(self, Value::Table(_))
    }

    /// The addressed leaves of the tree.
    pub fn flatten(self) -> (r: Vec<BlockValue>)
        ensures
            r@.map_values(|b: BlockValue| b@) == spec_value_flatten(self@),
    {
        flatten_ref(&self)
    }
}

impl FieldValue {
    /// The table entries this field contributes to its parent's inline table.
    pub fn into_map(self) -> (r: Vec<RawEntry>)
        ensures
            spec_raw_view_entries(r@) == spec_field_map(self@),
    {
        field_map_ref(&self)
    }

    /// The leaves of the field's value, keyed under the field's name unless
    /// the field is flattened.
    pub fn flatten(self) -> (r: Vec<BlockValue>)
        ensures
            r@.map_values(|b: BlockValue| b@) == spec_field_flatten(self@),
    {
        field_flatten_ref(&self)
    }
}

/// Flattening is transparent on the value side: a flattened field's leaves
/// are its value's leaves unchanged, with no extra key segment.
pub proof fn lemma_flat_field_value_transparent(f: SpecFieldValue)
    requires
        f.flat,
    ensures
        spec_field_flatten(f) == spec_value_flatten(f.value),
{
}

} // verus!
