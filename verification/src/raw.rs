//! The library's representation of an already-formatted configuration value:
//! a scalar is held as its literal text, and arrays and tables keep their
//! structure so they can be rendered inline and spliced during flattening.
//! Producing a scalar's literal text from a language-native value is the
//! scalar formatter's job: integers and booleans are formatted here, strings
//! by the TOML serializer behind a trusted wrapper.

use vstd::prelude::*;
use vstd::string::StringExecFns;
use crate::util::spec_join;
use crate::util::join_strings;

verus! {

broadcast use vstd::seq_lib::group_seq_lib_default, vstd::seq::group_seq_axioms, vstd::std_specs::vec::group_vec_axioms;

/// A raw configuration value: a scalar's literal text, an inline array, or an
/// inline table of named entries in insertion order.
pub enum RawValue {
    Scalar(String),
    Array(Vec<RawValue>),
    Table(Vec<RawEntry>),
}

/// One named entry of an inline table.
pub struct RawEntry {
    pub key: String,
    pub value: RawValue,
}

/// The mathematical model of a raw value.
#[verifier::ext_equal]
pub enum SpecRawValue {
    Scalar(Seq<char>),
    Array(Seq<SpecRawValue>),
    Table(Seq<(Seq<char>, SpecRawValue)>),
}

pub open spec fn spec_raw_view(v: RawValue) -> SpecRawValue
    decreases v,
{
    match v {
        RawValue::Scalar(s) => SpecRawValue::Scalar(s@),
        RawValue::Array(vs) => SpecRawValue::Array(spec_raw_view_list(vs@)),
        RawValue::Table(es) => SpecRawValue::Table(spec_raw_view_entries(es@)),
    }
}

pub open spec fn spec_raw_view_list(vs: Seq<RawValue>) -> Seq<SpecRawValue>
    decreases vs,
{
    if vs.len() == 0 {
        Seq::empty()
    } else {
        spec_raw_view_list(vs.drop_last()).push(spec_raw_view(vs.last()))
    }
}

pub open spec fn spec_raw_view_entries(es: Seq<RawEntry>) -> Seq<(Seq<char>, SpecRawValue)>
    decreases es,
{
    if es.len() == 0 {
        Seq::empty()
    } else {
        spec_raw_view_entries(es.drop_last()).push(
            (es.last().key@, spec_raw_view(es.last().value)),
        )
    }
}

impl View for RawValue {
    type V = SpecRawValue;

    open spec fn view(&self) -> SpecRawValue {
        spec_raw_view(*self)
    }
}

impl View for RawEntry {
    type V = (Seq<char>, SpecRawValue);

    open spec fn view(&self) -> (Seq<char>, SpecRawValue) {
        (self.key@, self.value@)
    }
}

pub proof fn lemma_raw_view_list_len(vs: Seq<RawValue>)
    ensures
        spec_raw_view_list(vs).len() == vs.len(),
        forall|i: int| 0 <= i < vs.len() ==> spec_raw_view_list(vs)[i] == spec_raw_view(vs[i]),
    decreases vs,
{
    if vs.len() > 0 {
        lemma_raw_view_list_len(vs.drop_last());
    }
}

pub proof fn lemma_raw_view_entries_len(es: Seq<RawEntry>)
    ensures
        spec_raw_view_entries(es).len() == es.len(),
        forall|i: int| 0 <= i < es.len() ==> spec_raw_view_entries(es)[i] == (
            es[i].key@,
            spec_raw_view(es[i].value),
        ),
    decreases es,
{
    if es.len() > 0 {
        lemma_raw_view_entries_len(es.drop_last());
    }
}

impl Clone for RawEntry {
    fn clone(&self) -> (r: Self)
        ensures
            r@ == self@,
        decreases *self,
    {
        RawEntry { key: self.key.clone(), value: self.value.clone() }
    }
}

impl Clone for RawValue {
    fn clone(&self) -> (r: Self)
        ensures
            r@ == self@,
        decreases *self,
    {
        match self {
            RawValue::Scalar(s) => RawValue::Scalar(s.clone()),
            RawValue::Array(vs) => {
                let mut out: Vec<RawValue> = Vec::new();
                let mut i: usize = 0;
                while i < vs.len()
                    invariant
                        i <= vs.len(),
                        out@.len() == i,
                        spec_raw_view_list(out@) == spec_raw_view_list(vs@.take(i as int)),
                        *self == RawValue::Array(*vs),
                    decreases vs.len() - i,
                {
                    proof {
                        assert(decreases_to!(*self => (self->Array_0)@[i as int]));
                    }
                    let ghost prev = out@;
                    out.push(vs[i].clone());
                    proof {
                        assert(out@.drop_last() =~= prev);
                        assert(spec_raw_view(out@.last()) == spec_raw_view(vs@[i as int]));
                        assert(spec_raw_view_list(out@) == spec_raw_view_list(prev).push(
                            spec_raw_view(vs@[i as int]),
                        ));
                        assert(vs@.take(i + 1).drop_last() =~= vs@.take(i as int));
                        assert(vs@.take(i + 1).last() == vs@[i as int]);
                        assert(spec_raw_view_list(vs@.take(i + 1)) == spec_raw_view_list(
                            vs@.take(i as int),
                        ).push(spec_raw_view(vs@[i as int])));
                    }
                    i = i + 1;
                }
                proof {
                    assert(vs@.take(vs@.len() as int) =~= vs@);
                }
                RawValue::Array(out)
            },
            RawValue::Table(es) => {
                let mut out: Vec<RawEntry> = Vec::new();
                let mut i: usize = 0;
                while i < es.len()
                    invariant
                        i <= es.len(),
                        out@.len() == i,
                        spec_raw_view_entries(out@) == spec_raw_view_entries(es@.take(i as int)),
                        *self == RawValue::Table(*es),
                    decreases es.len() - i,
                {
                    proof {
                        assert(decreases_to!(*self => (self->Table_0)@[i as int]));
                    }
                    let ghost prev = out@;
                    out.push(es[i].clone());
                    proof {
                        assert(out@.drop_last() =~= prev);
                        assert(out@.last().key@ == es@[i as int].key@);
                        assert(spec_raw_view(out@.last().value) == spec_raw_view(
                            es@[i as int].value,
                        ));
                        assert(spec_raw_view_entries(out@) == spec_raw_view_entries(prev).push(
                            (es@[i as int].key@, spec_raw_view(es@[i as int].value)),
                        ));
                        assert(es@.take(i + 1).drop_last() =~= es@.take(i as int));
                        assert(es@.take(i + 1).last() == es@[i as int]);
                        assert(spec_raw_view_entries(es@.take(i + 1)) == spec_raw_view_entries(
                            es@.take(i as int),
                        ).push((es@[i as int].key@, spec_raw_view(es@[i as int].value))));
                    }
                    i = i + 1;
                }
                proof {
                    assert(es@.take(es@.len() as int) =~= es@);
                }
                RawValue::Table(out)
            },
        }
    }
}

/// The inline rendering of a raw value: a scalar is its literal text, an
/// array is `[v, v]`, a table is `{ k = v, k = v }` (`{}` when empty).
pub open spec fn spec_raw_render(v: SpecRawValue) -> Seq<char>
    decreases v,
{
    match v {
        SpecRawValue::Scalar(s) => s,
        SpecRawValue::Array(vs) => seq!['['] + spec_join(
            spec_raw_render_list(vs),
            seq![',', ' '],
        ) + seq![']'],
        SpecRawValue::Table(es) => if es.len() == 0 {
            seq!['{', '}']
        } else {
            seq!['{', ' '] + spec_join(spec_raw_render_entries(es), seq![',', ' ']) + seq![
                ' ',
                '}',
            ]
        },
    }
}

pub open spec fn spec_raw_render_list(vs: Seq<SpecRawValue>) -> Seq<Seq<char>>
    decreases vs,
{
    if vs.len() == 0 {
        Seq::empty()
    } else {
        spec_raw_render_list(vs.drop_last()).push(spec_raw_render(vs.last()))
    }
}

pub open spec fn spec_raw_render_entries(es: Seq<(Seq<char>, SpecRawValue)>) -> Seq<Seq<char>>
    decreases es,
{
    if es.len() == 0 {
        Seq::empty()
    } else {
        spec_raw_render_entries(es.drop_last()).push(
            es.last().0 + seq![' ', '=', ' '] + spec_raw_render(es.last().1),
        )
    }
}

fn bracket_open_str() -> (r: &'static str)
    ensures
        r@ == seq!['['],
{
    let s = "[";
    proof {
        reveal_strlit("[");
        assert(s@ =~= seq!['[']);
    }
    s
}

fn bracket_close_str() -> (r: &'static str)
    ensures
        r@ == seq![']'],
{
    let s = "]";
    proof {
        reveal_strlit("]");
        assert(s@ =~= seq![']']);
    }
    s
}

fn comma_sep_str() -> (r: &'static str)
    ensures
        r@ == seq![',', ' '],
{
    let s = ", ";
    proof {
        reveal_strlit(", ");
        assert(s@ =~= seq![',', ' ']);
    }
    s
}

fn eq_sep_str() -> (r: &'static str)
    ensures
        r@ == seq![' ', '=', ' '],
{
    let s = " = ";
    proof {
        reveal_strlit(" = ");
        assert(s@ =~= seq![' ', '=', ' ']);
    }
    s
}

fn brace_empty_str() -> (r: &'static str)
    ensures
        r@ == seq!['{', '}'],
{
    let s = "{}";
    proof {
        reveal_strlit("{}");
        assert(s@ =~= seq!['{', '}']);
    }
    s
}

fn brace_open_str() -> (r: &'static str)
    ensures
        r@ == seq!['{', ' '],
{
    let s = "{ ";
    proof {
        reveal_strlit("{ ");
        assert(s@ =~= seq!['{', ' ']);
    }
    s
}

fn brace_close_str() -> (r: &'static str)
    ensures
        r@ == seq![' ', '}'],
{
    let s = " }";
    proof {
        reveal_strlit(" }");
        assert(s@ =~= seq![' ', '}']);
    }
    s
}

impl RawValue {
    /// Renders the value as its inline literal text.
    pub fn render(&self) -> (r: String)
        ensures
            r@ == spec_raw_render(self@),
        decreases *self,
    {
        match self {
            RawValue::Scalar(s) => s.clone(),
            RawValue::Array(vs) => {
                let mut parts: Vec<String> = Vec::new();
                let mut i: usize = 0;
                proof {
                    lemma_raw_view_list_len(vs@);
                }
                while i < vs.len()
                    invariant
                        i <= vs.len(),
                        *self == RawValue::Array(*vs),
                        spec_raw_view_list(vs@).len() == vs@.len(),
                        forall|j: int| #![all_triggers]
                            0 <= j < vs@.len() ==> spec_raw_view_list(vs@)[j] == spec_raw_view(
                                vs@[j],
                            ),
                        parts@.map_values(|p: String| p@) == spec_raw_render_list(
                            spec_raw_view_list(vs@).take(i as int),
                        ),
                    decreases vs.len() - i,
                {
                    proof {
                        assert(decreases_to!(*self => (self->Array_0)@[i as int]));
                    }
                    let piece = vs[i].render();
                    parts.push(piece);
                    proof {
                        let m = spec_raw_view_list(vs@);
                        assert(m.take(i + 1).drop_last() =~= m.take(i as int));
                        assert(m.take(i + 1).last() == m[i as int]);
                        assert(parts@.map_values(|p: String| p@) =~= spec_raw_render_list(
                            m.take(i as int),
                        ).push(spec_raw_render(m[i as int])));
                    }
                    i = i + 1;
                }
                proof {
                    let m = spec_raw_view_list(vs@);
                    assert(m.take(vs@.len() as int) =~= m);
                }
                let mut r = String::from_str(bracket_open_str());
                let inner = join_strings(&parts, comma_sep_str());
                r.append(inner.as_str());
                r.append(bracket_close_str());
                proof {
                    assert(r@ =~= spec_raw_render(self@));
                }
                r
            },
            RawValue::Table(es) => {
                if es.len() == 0 {
                    proof {
                        assert(spec_raw_view_entries(es@) =~= Seq::<(
                            Seq<char>,
                            SpecRawValue,
                        )>::empty());
                    }
                    String::from_str(brace_empty_str())
                } else {
                    let mut parts: Vec<String> = Vec::new();
                    let mut i: usize = 0;
                    proof {
                        lemma_raw_view_entries_len(es@);
                    }
                    while i < es.len()
                        invariant
                            i <= es.len(),
                            *self == RawValue::Table(*es),
                            spec_raw_view_entries(es@).len() == es@.len(),
                            forall|j: int| #![all_triggers]
                                0 <= j < es@.len() ==> spec_raw_view_entries(es@)[j] == (
                                    es@[j].key@,
                                    spec_raw_view(es@[j].value),
                                ),
                            parts@.map_values(|p: String| p@) == spec_raw_render_entries(
                                spec_raw_view_entries(es@).take(i as int),
                            ),
                        decreases es.len() - i,
                    {
                        let mut piece = es[i].key.clone();
                        piece.append(eq_sep_str());
                        proof {
                            assert(decreases_to!(*self => (self->Table_0)@[i as int].value));
                        }
                        let rendered = es[i].value.render();
                        piece.append(rendered.as_str());
                        parts.push(piece);
                        proof {
                            let m = spec_raw_view_entries(es@);
                            assert(m.take(i + 1).drop_last() =~= m.take(i as int));
                            assert(m.take(i + 1).last() == m[i as int]);
                            assert(parts@.map_values(|p: String| p@) =~= spec_raw_render_entries(
                                m.take(i as int),
                            ).push(m[i as int].0 + seq![' ', '=', ' '] + spec_raw_render(
                                m[i as int].1,
                            )));
                        }
                        i = i + 1;
                    }
                    proof {
                        let m = spec_raw_view_entries(es@);
                        assert(m.take(es@.len() as int) =~= m);
                    }
                    let mut r = String::from_str(brace_open_str());
                    let inner = join_strings(&parts, comma_sep_str());
                    r.append(inner.as_str());
                    r.append(brace_close_str());
                    proof {
                        assert(spec_raw_view_entries(es@).len() != 0);
                        assert(r@ =~= spec_raw_render(self@));
                    }
                    r
                }
            },
        }
    }
}

/// Inserting into an ordered table: the first entry with the same key is
/// replaced in place, otherwise the new entry is appended.
pub open spec fn spec_insert_entry(
    es: Seq<(Seq<char>, SpecRawValue)>,
    k: Seq<char>,
    v: SpecRawValue,
) -> Seq<(Seq<char>, SpecRawValue)>
    decreases es,
{
    if es.len() == 0 {
        seq![(k, v)]
    } else if es[0].0 == k {
        seq![(k, v)] + es.skip(1)
    } else {
        seq![es[0]] + spec_insert_entry(es.skip(1), k, v)
    }
}

proof fn lemma_insert_entry_found(
    es: Seq<(Seq<char>, SpecRawValue)>,
    k: Seq<char>,
    v: SpecRawValue,
    j: int,
)
    requires
        0 <= j < es.len(),
        es[j].0 == k,
        forall|i: int| 0 <= i < j ==> es[i].0 != k,
    ensures
        spec_insert_entry(es, k, v) == es.update(j, (k, v)),
    decreases es,
{
    if j == 0 {
        assert(spec_insert_entry(es, k, v) =~= es.update(0, (k, v)));
    } else {
        lemma_insert_entry_found(es.skip(1), k, v, j - 1);
        assert(es.skip(1).update(j - 1, (k, v)) =~= es.update(j, (k, v)).skip(1));
        assert(spec_insert_entry(es, k, v) =~= es.update(j, (k, v)));
    }
}

proof fn lemma_insert_entry_missing(es: Seq<(Seq<char>, SpecRawValue)>, k: Seq<char>, v: SpecRawValue)
    requires
        forall|i: int| 0 <= i < es.len() ==> es[i].0 != k,
    ensures
        spec_insert_entry(es, k, v) == es.push((k, v)),
    decreases es,
{
    if es.len() == 0 {
        assert(spec_insert_entry(es, k, v) =~= es.push((k, v)));
    } else {
        lemma_insert_entry_missing(es.skip(1), k, v);
        assert(es.skip(1).push((k, v)) =~= es.push((k, v)).skip(1));
        assert(spec_insert_entry(es, k, v) =~= es.push((k, v)));
    }
}

/// Inserts `(key, value)` into the table entries: replaces the first entry
/// holding `key`, or appends a new one.
pub fn insert_entry(es: &mut Vec<RawEntry>, key: String, value: RawValue)
    ensures
        spec_raw_view_entries(final(es)@) == spec_insert_entry(
            spec_raw_view_entries(old(es)@),
            key@,
            value@,
        ),
{
    proof {
        lemma_raw_view_entries_len(es@);
    }
    let ghost m = spec_raw_view_entries(es@);
    let ghost gk = key@;
    let ghost gv = value@;
    let mut j: usize = 0;
    while j < es.len()
        invariant
            j <= es.len(),
            es@ == old(es)@,
            m == spec_raw_view_entries(es@),
            m.len() == es@.len(),
            gk == key@,
            gv == value@,
            forall|i: int| #![all_triggers] 0 <= i < es@.len() ==> m[i] == (
                es@[i].key@,
                spec_raw_view(es@[i].value),
            ),
            forall|i: int| 0 <= i < j ==> m[i].0 != gk,
        decreases es.len() - j,
    {
        if crate::util::eq_str(es[j].key.as_str(), key.as_str()) {
            let ghost old_es = es@;
            es.set(j, RawEntry { key, value });
            proof {
                lemma_raw_view_entries_update(old_es, j as int, es@[j as int]);
                lemma_insert_entry_found(m, gk, gv, j as int);
                assert(es@[j as int].key@ == gk);
                assert(spec_raw_view(es@[j as int].value) == gv);
                assert(spec_raw_view_entries(es@) =~= spec_insert_entry(m, gk, gv));
            }
            return ;
        }
        j = j + 1;
    }
    proof {
        lemma_insert_entry_missing(m, gk, gv);
    }
    let ghost old_es = es@;
    es.push(RawEntry { key, value });
    proof {
        assert(es@.drop_last() =~= old_es);
        assert(es@.last().key@ == gk);
        assert(spec_raw_view(es@.last().value) == gv);
        assert(spec_raw_view_entries(es@) =~= m.push((gk, gv)));
    }
}

proof fn lemma_raw_view_entries_update(es: Seq<RawEntry>, j: int, e: RawEntry)
    requires
        0 <= j < es.len(),
    ensures
        spec_raw_view_entries(es.update(j, e)) == spec_raw_view_entries(es).update(
            j,
            (e.key@, spec_raw_view(e.value)),
        ),
    decreases es,
{
    lemma_raw_view_entries_len(es);
    lemma_raw_view_entries_len(es.update(j, e));
    let a = spec_raw_view_entries(es.update(j, e));
    let b = spec_raw_view_entries(es).update(j, (e.key@, spec_raw_view(e.value)));
    assert forall|i: int| 0 <= i < es.len() implies a[i] == b[i] by {
        if i == j {
        } else {
            assert(es.update(j, e)[i] == es[i]);
        }
    }
    assert(a =~= b);
}

// ---- scalar literal formatting ----

/// The decimal digit character of `d`, for `d < 10`.
pub open spec fn spec_digit_char(d: nat) -> char {
    if d == 0 {
        '0'
    } else if d == 1 {
        '1'
    } else if d == 2 {
        '2'
    } else if d == 3 {
        '3'
    } else if d == 4 {
        '4'
    } else if d == 5 {
        '5'
    } else if d == 6 {
        '6'
    } else if d == 7 {
        '7'
    } else if d == 8 {
        '8'
    } else {
        '9'
    }
}

/// The decimal digits of a natural number, most significant first.
pub open spec fn spec_dec_digits(n: nat) -> Seq<char>
    decreases n,
{
    if n < 10 {
        seq![spec_digit_char(n)]
    } else {
        spec_dec_digits(n / 10) + seq![spec_digit_char(n % 10)]
    }
}

/// The literal text of an integer: its decimal digits, with a leading `-`
/// when it is negative.
pub open spec fn spec_int_literal(v: int) -> Seq<char> {
    if v < 0 {
        seq!['-'] + spec_dec_digits((-v) as nat)
    } else {
        spec_dec_digits(v as nat)
    }
}

fn digit_str(d: u64) -> (r: &'static str)
    requires
        d < 10,
    ensures
        r@ == seq![spec_digit_char(d as nat)],
{
    let s = if d == 0 {
        let t = "0";
        proof {
            reveal_strlit("0");
        }
        t
    } else if d == 1 {
        let t = "1";
        proof {
            reveal_strlit("1");
        }
        t
    } else if d == 2 {
        let t = "2";
        proof {
            reveal_strlit("2");
        }
        t
    } else if d == 3 {
        let t = "3";
        proof {
            reveal_strlit("3");
        }
        t
    } else if d == 4 {
        let t = "4";
        proof {
            reveal_strlit("4");
        }
        t
    } else if d == 5 {
        let t = "5";
        proof {
            reveal_strlit("5");
        }
        t
    } else if d == 6 {
        let t = "6";
        proof {
            reveal_strlit("6");
        }
        t
    } else if d == 7 {
        let t = "7";
        proof {
            reveal_strlit("7");
        }
        t
    } else if d == 8 {
        let t = "8";
        proof {
            reveal_strlit("8");
        }
        t
    } else {
        let t = "9";
        proof {
            reveal_strlit("9");
        }
        t
    };
    proof {
        assert(s@ =~= seq![spec_digit_char(d as nat)]);
    }
    s
}

/// The decimal text of an unsigned integer.
pub fn format_u64(n: u64) -> (r: String)
    ensures
        r@ == spec_dec_digits(n as nat),
    decreases n,
{
    if n < 10 {
        String::from_str(digit_str(n))
    } else {
        let mut r = format_u64(n / 10);
        r.append(digit_str(n % 10));
        r
    }
}

/// The decimal text of a signed integer, with a leading `-` when negative.
pub fn format_i64(v: i64) -> (r: String)
    ensures
        r@ == spec_int_literal(v as int),
{
    if v >= 0 {
        format_u64(v as u64)
    } else {
        let w: i128 = v as i128;
        let m: u64 = (-w) as u64;
        let mut r = String::from_str(minus_str());
        let digits = format_u64(m);
        r.append(digits.as_str());
        r
    }
}

fn minus_str() -> (r: &'static str)
    ensures
        r@ == seq!['-'],
{
    let s = "-";
    proof {
        reveal_strlit("-");
        assert(s@ =~= seq!['-']);
    }
    s
}

/// The literal text of a boolean: `true` or `false`.
pub open spec fn spec_bool_literal(b: bool) -> Seq<char> {
    if b {
        seq!['t', 'r', 'u', 'e']
    } else {
        seq!['f', 'a', 'l', 's', 'e']
    }
}

pub fn format_bool(b: bool) -> (r: String)
    ensures
        r@ == spec_bool_literal(b),
{
    if b {
        let s = "true";
        proof {
            reveal_strlit("true");
            assert(s@ =~= spec_bool_literal(true));
        }
        String::from_str(s)
    } else {
        let s = "false";
        proof {
            reveal_strlit("false");
            assert(s@ =~= spec_bool_literal(false));
        }
        String::from_str(s)
    }
}

/// What the TOML serializer prints for a string value: its quoted, escaped
/// literal, a function of the characters alone.
pub uninterp spec fn spec_toml_str_literal(s: Seq<char>) -> Seq<char>;

/// Relies on `toml::Value`'s `Display`, which serializes a string value as
/// its quoted, escaped TOML literal.
#[verifier::external_body]
pub(crate) fn toml_string_literal(s: &str) -> (r: String)
    ensures
        r@ == spec_toml_str_literal(s@),
{
    toml::Value::String(s.to_owned()).to_string()
}

} // verus!
