//! One field's line (or lines) within a section. A block with variants is a
//! tagged-union block: exactly one variant is active, and the enum style
//! decides whether the others are expanded as inactive lines, folded into a
//! hint line, or omitted.

use vstd::prelude::*;
use vstd::string::StringExecFns;
use crate::comment::Comment;
use crate::comment::CommentType;
use crate::comment::SpecComment;
use crate::comment::spec_comment_render;
use crate::config::EnumStyle;
use crate::error::Error;
use crate::raw::SpecRawValue;
use crate::raw::spec_raw_render;
use crate::schema::Meta;
use crate::schema::SpecMeta;
use crate::schema::SpecVariantSchema;
use crate::schema::VariantSchema;
use crate::schema::spec_meta_comment;
use crate::schema::spec_option_wrap;
use crate::util::assign_line;
use crate::util::comment_lines;
use crate::util::join_nonblank;
use crate::util::join_strings;
use crate::util::spec_assign_line;
use crate::util::spec_comment_lines;
use crate::util::spec_join;
use crate::util::spec_join_nonblank;
use crate::value::BlockValue;
use crate::value::SpecBlockValue;
use crate::value::spec_prim_flatten;

verus! {

broadcast use vstd::seq_lib::group_seq_lib_default, vstd::seq::group_seq_axioms, vstd::std_specs::vec::group_vec_axioms;

/// One field's entry in a section: its key path, the attribute name as
/// written, its metadata, the merged value if any, and — for tagged-union
/// fields — the ordered variants.
pub struct Block {
    pub key: String,
    pub ident: String,
    pub meta: Meta,
    pub value: Option<BlockValue>,
    pub variants: Vec<VariantSchema>,
}

#[verifier::ext_equal]
pub struct SpecBlock {
    pub key: Seq<char>,
    pub ident: Seq<char>,
    pub meta: SpecMeta,
    pub value: Option<SpecBlockValue>,
    pub variants: Seq<SpecVariantSchema>,
}

impl View for Block {
    type V = SpecBlock;

    open spec fn view(&self) -> SpecBlock {
        SpecBlock {
            key: self.key@,
            ident: self.ident@,
            meta: self.meta@,
            value: match self.value {
                Some(v) => Some(v@),
                None => None,
            },
            variants: self.variants@.map_values(|v: VariantSchema| v@),
        }
    }
}

impl Default for Block {
    /// An anonymous block with no value and no variants.
    fn default() -> (r: Self)
        ensures
            r@ == (SpecBlock {
                key: Seq::<char>::empty(),
                ident: Seq::<char>::empty(),
                meta: crate::schema::spec_default_meta(),
                value: None::<SpecBlockValue>,
                variants: Seq::<SpecVariantSchema>::empty(),
            }),
    {
        let r = Block {
            key: String::new(),
            ident: String::new(),
            meta: Meta::default(),
            value: None,
            variants: Vec::new(),
        };
        proof {
            assert(r.variants@.map_values(|v: VariantSchema| v@) =~= Seq::<
                SpecVariantSchema,
            >::empty());
        }
        r
    }
}

impl Clone for Block {
    fn clone(&self) -> (r: Self)
        ensures
            r@ == self@,
    {
        let value = match &self.value {
            Some(v) => Some(v.clone()),
            None => None,
        };
        let mut variants: Vec<VariantSchema> = Vec::new();
        let mut i: usize = 0;
        while i < self.variants.len()
            invariant
                i <= self.variants@.len(),
                variants@.len() == i,
                forall|j: int| 0 <= j < i ==> (#[trigger] variants@[j])@ == self.variants@[j]@,
            decreases self.variants@.len() - i,
        {
            variants.push(self.variants[i].clone());
            i = i + 1;
        }
        let r = Block {
            key: self.key.clone(),
            ident: self.ident.clone(),
            meta: self.meta.clone(),
            value,
            variants,
        };
        proof {
            assert(r.variants@.map_values(|v: VariantSchema| v@) =~= self.variants@.map_values(
                |v: VariantSchema| v@,
            ));
        }
        r
    }
}

// ---- predicates ----

pub open spec fn spec_block_is_enum(b: SpecBlock) -> bool {
    b.variants.len() != 0
}

pub open spec fn spec_block_is_value(b: SpecBlock) -> bool {
    b.ident.len() == 0
}

pub open spec fn spec_block_is_comented(b: SpecBlock) -> bool {
    b.value is None && b.meta.config.commented
}

pub open spec fn spec_block_is_none_skipped(b: SpecBlock) -> bool {
    b.meta.wrap_type == spec_option_wrap() && b.meta.config.spec_is_none_skipped() && b.value
        is None
}

/// The block's enum style, its config's or the global default.
pub open spec fn spec_block_enum_style(b: SpecBlock) -> EnumStyle {
    match b.meta.config.enum_style {
        Some(s) => s,
        None => EnumStyle::Flex(4usize),
    }
}

pub open spec fn spec_block_enum_is_expand(b: SpecBlock) -> bool {
    spec_block_is_enum(b) && spec_block_enum_style(b).spec_can_expand(b.variants.len() as int)
}

pub open spec fn spec_block_enum_is_fold(b: SpecBlock) -> bool {
    spec_block_is_enum(b) && spec_block_enum_style(b).spec_can_fold(b.variants.len() as int)
}

impl Block {
    /// Whether the block describes a tagged-union field.
    pub fn is_enum(&self) -> (r: bool)
        ensures
            r == spec_block_is_enum(self@),
    {
        let r = !self.variants.is_empty();
        proof {
            assert(self@.variants.len() == self.variants@.len());
        }
        r
    }

    /// Whether the block stands for a bare value rather than a named field.
    pub fn is_value(&self) -> (r: bool)
        ensures
            r == spec_block_is_value(self@),
    {
        self.ident.as_str().is_empty()
    }

    /// Whether the block stands for a named field.
    pub fn is_field(&self) -> (r: bool)
        ensures
            r == !spec_block_is_value(self@),
    {
        !self.is_value()
    }

    /// Whether the block renders as an inactive, comment-prefixed line:
    /// it has no merged value and its configuration says so.
    pub fn is_comented(&self) -> (r: bool)
        ensures
            r == spec_block_is_comented(self@),
    {
        self.value.is_none() && self.meta.config.commented
    }

    /// Whether the block contributes no line at all: an absent optional
    /// field under the skip-none policy.
    pub fn is_none_skipped(&self) -> (r: bool)
        ensures
            r == spec_block_is_none_skipped(self@),
    {
        self.meta.is_option_type() && self.meta.config.is_none_skipped() && self.value.is_none()
    }

    /// Whether the block's variants are laid out in expanded form.
    pub fn enum_is_expand(&self) -> (r: bool)
        ensures
            r == spec_block_enum_is_expand(self@),
    {
        if !self.is_enum() {
            return false;
        }
        let style = match self.meta.config.enum_style {
            Some(s) => s,
            None => EnumStyle::default(),
        };
        proof {
            assert(self@.variants.len() == self.variants@.len());
        }
        style.can_expand(self.variants.len())
    }

    /// Whether the block's variants are folded into a hint line.
    pub fn enum_is_fold(&self) -> (r: bool)
        ensures
            r == spec_block_enum_is_fold(self@),
    {
        if !self.is_enum() {
            return false;
        }
        let style = match self.meta.config.enum_style {
            Some(s) => s,
            None => EnumStyle::default(),
        };
        proof {
            assert(self@.variants.len() == self.variants@.len());
        }
        style.can_fold(self.variants.len())
    }

    /// The block's documentation comment, marked as a field or variant
    /// comment.
    pub fn comment(&self) -> (r: Comment)
        ensures
            r@ == spec_block_comment(self@),
    {
        let mut comment = self.meta.comment();
        if self.variants.is_empty() {
            comment.comment_type = CommentType::BlockField;
        } else {
            comment.comment_type = CommentType::BlockVariant;
        }
        proof {
            assert(self@.variants.len() == self.variants@.len());
        }
        comment
    }
}

pub open spec fn spec_block_comment(b: SpecBlock) -> SpecComment {
    SpecComment {
        comment_type: if b.variants.len() == 0 {
            CommentType::BlockField
        } else {
            CommentType::BlockVariant
        },
        ..spec_meta_comment(b.meta)
    }
}

// ---- rendering ----

/// The lines of a single-strategy variant render: only the first variant
/// whose tag is active contributes its doc comment and the active line.
pub open spec fn spec_enum_single_lines(
    variants: Seq<SpecVariantSchema>,
    hidden: bool,
    commented: bool,
    ident: Seq<char>,
    tag: Seq<char>,
    raw: SpecRawValue,
) -> Seq<Seq<char>>
    decreases variants,
{
    if variants.len() == 0 {
        Seq::empty()
    } else if variants[0].value.tag == tag {
        (if hidden {
            Seq::empty()
        } else {
            seq![spec_comment_lines(variants[0].docs)]
        }) + seq![spec_assign_line(commented, ident, spec_raw_render(raw))]
    } else {
        spec_enum_single_lines(variants.skip(1), hidden, commented, ident, tag, raw)
    }
}

/// The lines one variant contributes to an expanded render: its doc comment,
/// then the active line if its tag is active, else its own literal as an
/// inactive line.
pub open spec fn spec_enum_expand_variant_lines(
    v: SpecVariantSchema,
    hidden: bool,
    commented: bool,
    ident: Seq<char>,
    tag: Seq<char>,
    raw: SpecRawValue,
) -> Seq<Seq<char>> {
    (if hidden {
        Seq::empty()
    } else {
        seq![spec_comment_lines(v.docs)]
    }) + (if v.value.tag == tag {
        seq![spec_assign_line(commented, ident, spec_raw_render(raw))]
    } else if v.value.raw is Some {
        seq![spec_assign_line(true, ident, spec_raw_render(v.value.raw->0))]
    } else {
        Seq::empty()
    })
}

pub open spec fn spec_enum_expand_lines(
    variants: Seq<SpecVariantSchema>,
    hidden: bool,
    commented: bool,
    ident: Seq<char>,
    tag: Seq<char>,
    raw: SpecRawValue,
) -> Seq<Seq<char>>
    decreases variants,
{
    if variants.len() == 0 {
        Seq::empty()
    } else {
        spec_enum_expand_lines(variants.drop_last(), hidden, commented, ident, tag, raw)
            + spec_enum_expand_variant_lines(variants.last(), hidden, commented, ident, tag, raw)
    }
}

/// The literal of every variant that has one, in declaration order.
pub open spec fn spec_enum_fold_values(variants: Seq<SpecVariantSchema>) -> Seq<Seq<char>>
    decreases variants,
{
    if variants.len() == 0 {
        Seq::empty()
    } else {
        spec_enum_fold_values(variants.drop_last()) + (if variants.last().value.raw is Some {
            seq![spec_raw_render(variants.last().value.raw->0)]
        } else {
            Seq::empty()
        })
    }
}

/// The synthesized hint line of a folded render: the variants' literals
/// joined by `|` behind the field's name.
pub open spec fn spec_enum_fold_hint(ident: Seq<char>, values: Seq<Seq<char>>) -> Seq<char> {
    seq!['#', ' '] + ident + seq![' ', '=', ' '] + spec_join(values, seq![' ', '|', ' '])
}

/// The lines of a folded render: one synthesized hint line listing every
/// variant's literal (when more than one variant has one), followed by the
/// active variant's doc comment and its line; all other variants are
/// suppressed.
pub open spec fn spec_enum_fold_lines(b: SpecBlock, commented: bool, tag: Seq<char>, raw: SpecRawValue) -> Seq<
    Seq<char>,
> {
    let values = spec_enum_fold_values(b.variants);
    (if values.len() > 1 {
        seq![spec_enum_fold_hint(b.ident, values)]
    } else {
        Seq::<Seq<char>>::empty()
    }) + spec_enum_single_lines(
        b.variants,
        b.meta.config.spec_is_comment_hidden(),
        commented,
        b.ident,
        tag,
        raw,
    )
}

/// The lines of a plain field render: the block comment and the assignment.
pub open spec fn spec_single_lines(b: SpecBlock, commented: bool, raw: SpecRawValue) -> Seq<
    Seq<char>,
> {
    (if b.meta.config.spec_is_comment_hidden() {
        Seq::empty()
    } else {
        seq![spec_comment_render(spec_block_comment(b))]
    }) + seq![spec_assign_line(commented, b.ident, spec_raw_render(raw))]
}

/// The full rendering of a block: nothing for a skipped optional field or a
/// block without any literal; otherwise the lines of the strategy the block's
/// style selects, blank lines dropped, joined with line breaks.
pub open spec fn spec_block_render(b: SpecBlock) -> Seq<char> {
    if spec_block_is_none_skipped(b) {
        Seq::empty()
    } else {
        let bv = match b.value {
            Some(v) => v,
            None => spec_prim_flatten(b.meta.inner_default),
        };
        let commented = match b.value {
            Some(_) => false,
            None => b.meta.config.commented,
        };
        match bv.value {
            None => Seq::empty(),
            Some(raw) => {
                let hidden = b.meta.config.spec_is_comment_hidden();
                let lines = if spec_block_enum_is_expand(b) {
                    spec_enum_expand_lines(b.variants, hidden, commented, b.ident, bv.tag, raw)
                } else if spec_block_enum_is_fold(b) {
                    spec_enum_fold_lines(b, commented, bv.tag, raw)
                } else if spec_block_is_enum(b) {
                    spec_enum_single_lines(b.variants, hidden, commented, b.ident, bv.tag, raw)
                } else {
                    spec_single_lines(b, commented, raw)
                };
                spec_join_nonblank(lines, seq!['\n'])
            },
        }
    }
}

impl Block {
    /// Renders the block. Never fails: a skipped or literal-less block
    /// renders as the empty text.
    pub fn render(&self) -> (r: Result<String, Error>)
        ensures
            r is Ok,
            r->Ok_0@ == spec_block_render(self@),
    {
        if self.is_none_skipped() {
            return Ok(String::new());
        }
        let mut block_value = self.meta.inner_default.clone().flatten();
        let mut commented = self.meta.config.commented;
        if let Some(value) = &self.value {
            block_value = value.clone();
            commented = false;
        }
        let raw_value = match block_value.value {
            Some(raw) => raw,
            None => {
                return Ok(String::new());
            },
        };
        let tag = block_value.tag;
        let text;
        if self.enum_is_expand() {
            text = match self.render_enum_expand(commented, tag, raw_value) {
                Ok(t) => t,
                Err(e) => {
                    return Err(e);
                },
            };
        } else if self.enum_is_fold() {
            text = match self.render_enum_fold(commented, tag, raw_value) {
                Ok(t) => t,
                Err(e) => {
                    return Err(e);
                },
            };
        } else if self.is_enum() {
            text = match self.render_enum_single(commented, tag, raw_value) {
                Ok(t) => t,
                Err(e) => {
                    return Err(e);
                },
            };
        } else {
            text = match self.render_single(commented, raw_value) {
                Ok(t) => t,
                Err(e) => {
                    return Err(e);
                },
            };
        }
        Ok(text)
    }

    /// Renders a tagged-union block in single form: only the first variant
    /// whose tag equals `tag` contributes its comment and line.
    pub fn render_enum_single(
        &self,
        commented: bool,
        tag: String,
        raw_value: crate::raw::RawValue,
    ) -> (r: Result<String, Error>)
        ensures
            r is Ok,
            r->Ok_0@ == spec_join_nonblank(
                spec_enum_single_lines(
                    self@.variants,
                    self@.meta.config.spec_is_comment_hidden(),
                    commented,
                    self@.ident,
                    tag@,
                    raw_value@,
                ),
                seq!['\n'],
            ),
    {
        let ghost model = self@.variants;
        let hidden = self.meta.config.is_comment_hidden();
        let rendered = raw_value.render();
        let mut lines: Vec<String> = Vec::new();
        let mut i: usize = 0;
        let mut found: bool = false;
        proof {
            assert(model.skip(0) =~= model);
        }
        while i < self.variants.len() && !found
            invariant
                i <= self.variants@.len(),
                model == self@.variants,
                model.len() == self.variants@.len(),
                forall|j: int| 0 <= j < model.len() ==> model[j] == (#[trigger] self.variants@[j])@,
                rendered@ == spec_raw_render(raw_value@),
                hidden == self@.meta.config.spec_is_comment_hidden(),
                !found ==> lines@.len() == 0 && spec_enum_single_lines(
                    model,
                    hidden,
                    commented,
                    self@.ident,
                    tag@,
                    raw_value@,
                ) == spec_enum_single_lines(
                    model.skip(i as int),
                    hidden,
                    commented,
                    self@.ident,
                    tag@,
                    raw_value@,
                ),
                found ==> lines@.map_values(|p: String| p@) == spec_enum_single_lines(
                    model,
                    hidden,
                    commented,
                    self@.ident,
                    tag@,
                    raw_value@,
                ),
            decreases self.variants@.len() - i,
        {
            let v = &self.variants[i];
            if crate::util::eq_str(v.value.tag.as_str(), tag.as_str()) {
                let comment = comment_lines(v.docs.as_str());
                let ghost cm = comment@;
                if !hidden {
                    lines.push(comment);
                }
                let line = assign_line(commented, self.ident.as_str(), rendered.as_str());
                let ghost lm = line@;
                lines.push(line);
                found = true;
                proof {
                    let rest = model.skip(i as int);
                    assert(rest[0] == model[i as int]);
                    if hidden {
                        assert(lines@.map_values(|p: String| p@) =~= seq![lm]);
                        assert(spec_enum_single_lines(
                            rest,
                            hidden,
                            commented,
                            self@.ident,
                            tag@,
                            raw_value@,
                        ) =~= seq![lm]);
                    } else {
                        assert(lines@.map_values(|p: String| p@) =~= seq![cm, lm]);
                        assert(spec_enum_single_lines(
                            rest,
                            hidden,
                            commented,
                            self@.ident,
                            tag@,
                            raw_value@,
                        ) =~= seq![cm, lm]);
                    }
                }
            } else {
                proof {
                    let rest = model.skip(i as int);
                    assert(rest[0] == model[i as int]);
                    assert(rest.skip(1) =~= model.skip(i + 1));
                }
            }
            i = i + 1;
        }
        proof {
            if !found {
                assert(model.skip(model.len() as int).len() == 0);
                assert(lines@.map_values(|p: String| p@) =~= Seq::<Seq<char>>::empty());
            }
        }
        let nl = crate::util::newline_str();
        Ok(join_nonblank(&lines, nl))
    }

    /// Renders a tagged-union block in expanded form: every variant's doc
    /// comment and line, the inactive ones comment-prefixed. Fails with an
    /// enum-style error when the block's style does not expand.
    pub fn render_enum_expand(
        &self,
        commented: bool,
        tag: String,
        raw_value: crate::raw::RawValue,
    ) -> (r: Result<String, Error>)
        ensures
            r is Ok <==> spec_block_enum_is_expand(self@),
            r is Ok ==> r->Ok_0@ == spec_join_nonblank(
                spec_enum_expand_lines(
                    self@.variants,
                    self@.meta.config.spec_is_comment_hidden(),
                    commented,
                    self@.ident,
                    tag@,
                    raw_value@,
                ),
                seq!['\n'],
            ),
            r is Err ==> r->Err_0 is EnumStyleError,
    {
        if !self.enum_is_expand() {
            return Err(Error::EnumStyleError(not_expand_msg()));
        }
        let ghost model = self@.variants;
        let hidden = self.meta.config.is_comment_hidden();
        let rendered = raw_value.render();
        let mut lines: Vec<String> = Vec::new();
        let mut i: usize = 0;
        proof {
            assert(lines@.map_values(|p: String| p@) =~= Seq::<Seq<char>>::empty());
            assert(spec_enum_expand_lines(
                model.take(0),
                hidden,
                commented,
                self@.ident,
                tag@,
                raw_value@,
            ) =~= Seq::<Seq<char>>::empty());
        }
        while i < self.variants.len()
            invariant
                i <= self.variants@.len(),
                model == self@.variants,
                model.len() == self.variants@.len(),
                forall|j: int| 0 <= j < model.len() ==> model[j] == (#[trigger] self.variants@[j])@,
                rendered@ == spec_raw_render(raw_value@),
                hidden == self@.meta.config.spec_is_comment_hidden(),
                lines@.map_values(|p: String| p@) == spec_enum_expand_lines(
                    model.take(i as int),
                    hidden,
                    commented,
                    self@.ident,
                    tag@,
                    raw_value@,
                ),
            decreases self.variants@.len() - i,
        {
            let ghost prev = lines@.map_values(|p: String| p@);
            let v = &self.variants[i];
            if !hidden {
                let comment = comment_lines(v.docs.as_str());
                lines.push(comment);
            }
            if crate::util::eq_str(v.value.tag.as_str(), tag.as_str()) {
                let line = assign_line(commented, self.ident.as_str(), rendered.as_str());
                lines.push(line);
            } else if let Some(value) = &v.value.raw {
                let other = value.render();
                let line = assign_line(true, self.ident.as_str(), other.as_str());
                lines.push(line);
            }
            proof {
                let t = model.take(i + 1);
                assert(t.drop_last() =~= model.take(i as int));
                assert(t.last() == model[i as int]);
                assert(lines@.map_values(|p: String| p@) =~= prev
                    + spec_enum_expand_variant_lines(
                    model[i as int],
                    hidden,
                    commented,
                    self@.ident,
                    tag@,
                    raw_value@,
                ));
            }
            i = i + 1;
        }
        proof {
            assert(model.take(model.len() as int) =~= model);
        }
        let nl = crate::util::newline_str();
        Ok(join_nonblank(&lines, nl))
    }

    /// Renders a tagged-union block in folded form: a hint line listing
    /// every variant's literal, then the active variant's doc comment and
    /// line. Fails with an enum-style error when the block's style does not
    /// fold.
    pub fn render_enum_fold(
        &self,
        commented: bool,
        tag: String,
        raw_value: crate::raw::RawValue,
    ) -> (r: Result<String, Error>)
        ensures
            r is Ok <==> spec_block_enum_is_fold(self@),
            r is Ok ==> r->Ok_0@ == spec_join_nonblank(
                spec_enum_fold_lines(self@, commented, tag@, raw_value@),
                seq!['\n'],
            ),
            r is Err ==> r->Err_0 is EnumStyleError,
    {
        if !self.enum_is_fold() {
            return Err(Error::EnumStyleError(not_fold_msg()));
        }
        let ghost model = self@.variants;
        let hidden = self.meta.config.is_comment_hidden();
        let rendered = raw_value.render();
        let mut values: Vec<String> = Vec::new();
        let mut i: usize = 0;
        proof {
            assert(spec_enum_fold_values(model.take(0)) =~= Seq::<Seq<char>>::empty());
            assert(values@.map_values(|p: String| p@) =~= Seq::<Seq<char>>::empty());
        }
        while i < self.variants.len()
            invariant
                i <= self.variants@.len(),
                model == self@.variants,
                model.len() == self.variants@.len(),
                forall|j: int| 0 <= j < model.len() ==> model[j] == (#[trigger] self.variants@[j])@,
                values@.map_values(|p: String| p@) == spec_enum_fold_values(model.take(i as int)),
            decreases self.variants@.len() - i,
        {
            let ghost prev_values = values@.map_values(|p: String| p@);
            let v = &self.variants[i];
            if let Some(value) = &v.value.raw {
                let other = value.render();
                values.push(other);
            }
            proof {
                let t = model.take(i + 1);
                assert(t.drop_last() =~= model.take(i as int));
                assert(t.last() == model[i as int]);
                assert(values@.map_values(|p: String| p@) =~= prev_values + (
                if model[i as int].value.raw is Some {
                    seq![spec_raw_render(model[i as int].value.raw->0)]
                } else {
                    Seq::<Seq<char>>::empty()
                }));
            }
            i = i + 1;
        }
        proof {
            assert(model.take(model.len() as int) =~= model);
        }
        let mut lines: Vec<String> = Vec::new();
        if values.len() > 1 {
            let sep = pipe_sep_str();
            let joined = join_strings(&values, sep);
            let mut hint = String::from_str(hint_head_str());
            hint.append(self.ident.as_str());
            hint.append(crate::util::eq_sep_str());
            hint.append(joined.as_str());
            proof {
                assert(hint@ =~= spec_enum_fold_hint(self@.ident, spec_enum_fold_values(model)));
            }
            lines.push(hint);
        }
        let ghost head_lines = lines@.map_values(|p: String| p@);
        proof {
            if spec_enum_fold_values(model).len() > 1 {
                assert(head_lines =~= seq![
                    spec_enum_fold_hint(self@.ident, spec_enum_fold_values(model)),
                ]);
            } else {
                assert(head_lines =~= Seq::<Seq<char>>::empty());
            }
        }
        let mut i: usize = 0;
        let mut found: bool = false;
        proof {
            assert(model.skip(0) =~= model);
        }
        while i < self.variants.len() && !found
            invariant
                i <= self.variants@.len(),
                model == self@.variants,
                model.len() == self.variants@.len(),
                forall|j: int| 0 <= j < model.len() ==> model[j] == (#[trigger] self.variants@[j])@,
                rendered@ == spec_raw_render(raw_value@),
                hidden == self@.meta.config.spec_is_comment_hidden(),
                head_lines == (if spec_enum_fold_values(model).len() > 1 {
                    seq![spec_enum_fold_hint(self@.ident, spec_enum_fold_values(model))]
                } else {
                    Seq::<Seq<char>>::empty()
                }),
                !found ==> lines@.map_values(|p: String| p@) == head_lines
                    && spec_enum_single_lines(
                    model,
                    hidden,
                    commented,
                    self@.ident,
                    tag@,
                    raw_value@,
                ) == spec_enum_single_lines(
                    model.skip(i as int),
                    hidden,
                    commented,
                    self@.ident,
                    tag@,
                    raw_value@,
                ),
                found ==> lines@.map_values(|p: String| p@) == head_lines
                    + spec_enum_single_lines(
                    model,
                    hidden,
                    commented,
                    self@.ident,
                    tag@,
                    raw_value@,
                ),
            decreases self.variants@.len() - i,
        {
            let v = &self.variants[i];
            if crate::util::eq_str(v.value.tag.as_str(), tag.as_str()) {
                let comment = comment_lines(v.docs.as_str());
                let ghost cm = comment@;
                if !hidden {
                    lines.push(comment);
                }
                let line = assign_line(commented, self.ident.as_str(), rendered.as_str());
                let ghost lm = line@;
                lines.push(line);
                found = true;
                proof {
                    let rest = model.skip(i as int);
                    assert(rest[0] == model[i as int]);
                    if hidden {
                        assert(lines@.map_values(|p: String| p@) =~= head_lines + seq![lm]);
                        assert(spec_enum_single_lines(
                            rest,
                            hidden,
                            commented,
                            self@.ident,
                            tag@,
                            raw_value@,
                        ) =~= seq![lm]);
                    } else {
                        assert(lines@.map_values(|p: String| p@) =~= head_lines + seq![cm, lm]);
                        assert(spec_enum_single_lines(
                            rest,
                            hidden,
                            commented,
                            self@.ident,
                            tag@,
                            raw_value@,
                        ) =~= seq![cm, lm]);
                    }
                }
            } else {
                proof {
                    let rest = model.skip(i as int);
                    assert(rest[0] == model[i as int]);
                    assert(rest.skip(1) =~= model.skip(i + 1));
                }
            }
            i = i + 1;
        }
        proof {
            if !found {
                assert(model.skip(model.len() as int).len() == 0);
                assert(lines@.map_values(|p: String| p@) =~= head_lines + Seq::<Seq<char>>::empty());
            }
        }
        let nl = crate::util::newline_str();
        Ok(join_nonblank(&lines, nl))
    }

    /// Renders a plain field: its doc comment and its `key = value` line.
    /// Must not be called on a tagged-union block.
    pub fn render_single(&self, commented: bool, raw_value: crate::raw::RawValue) -> (r: Result<
        String,
        Error,
    >)
        requires
            !spec_block_is_enum(self@),
        ensures
            r is Ok,
            r->Ok_0@ == spec_join_nonblank(
                spec_single_lines(self@, commented, raw_value@),
                seq!['\n'],
            ),
    {
        let hidden = self.meta.config.is_comment_hidden();
        let rendered = raw_value.render();
        let mut lines: Vec<String> = Vec::new();
        if !hidden {
            let comment = self.comment();
            let text = match comment.render() {
                Ok(t) => t,
                Err(e) => {
                    return Err(e);
                },
            };
            lines.push(text);
        }
        let line = assign_line(commented, self.ident.as_str(), rendered.as_str());
        let ghost lm = line@;
        lines.push(line);
        proof {
            if hidden {
                assert(lines@.map_values(|p: String| p@) =~= seq![lm]);
                assert(spec_single_lines(self@, commented, raw_value@) =~= seq![lm]);
            } else {
                assert(lines@.map_values(|p: String| p@) =~= seq![
                    spec_comment_render(spec_block_comment(self@)),
                    lm,
                ]);
                assert(spec_single_lines(self@, commented, raw_value@) =~= seq![
                    spec_comment_render(spec_block_comment(self@)),
                    lm,
                ]);
            }
        }
        let nl = crate::util::newline_str();
        Ok(join_nonblank(&lines, nl))
    }
}

fn not_expand_msg() -> String {
    let s = "not enum_expand style";
    String::from_str(s)
}

fn not_fold_msg() -> String {
    let s = "not enum_fold style";
    String::from_str(s)
}

fn pipe_sep_str() -> (r: &'static str)
    ensures
        r@ == seq![' ', '|', ' '],
{
    let s = " | ";
    proof {
        reveal_strlit(" | ");
        assert(s@ =~= seq![' ', '|', ' ']);
    }
    s
}

fn hint_head_str() -> (r: &'static str)
    ensures
        r@ == seq!['#', ' '],
{
    let s = "# ";
    proof {
        reveal_strlit("# ");
        assert(s@ =~= seq!['#', ' ']);
    }
    s
}

/// Variant activation in an expanded render of a merged value: the variant
/// whose tag is the active one renders live, and every variant whose tag is
/// not active renders its own literal behind the inactive marker.
pub proof fn lemma_expand_variant_activation(
    v: SpecVariantSchema,
    hidden: bool,
    ident: Seq<char>,
    tag: Seq<char>,
    raw: SpecRawValue,
)
    ensures
        v.value.tag == tag ==> spec_enum_expand_variant_lines(v, hidden, false, ident, tag, raw)
            .last() == spec_assign_line(false, ident, spec_raw_render(raw)),
        v.value.tag != tag && v.value.raw is Some ==> spec_enum_expand_variant_lines(
            v,
            hidden,
            false,
            ident,
            tag,
            raw,
        ).last() == spec_assign_line(true, ident, spec_raw_render(v.value.raw->0)),
{
}

/// Variant activation in a single-strategy render: when the first variant
/// holding the active tag stands at position `j`, the render holds that
/// variant's doc comment and its live line, and nothing of any other variant.
pub proof fn lemma_single_variant_activation(
    variants: Seq<SpecVariantSchema>,
    hidden: bool,
    commented: bool,
    ident: Seq<char>,
    tag: Seq<char>,
    raw: SpecRawValue,
    j: int,
)
    requires
        0 <= j < variants.len(),
        variants[j].value.tag == tag,
        forall|i: int| 0 <= i < j ==> variants[i].value.tag != tag,
    ensures
        spec_enum_single_lines(variants, hidden, commented, ident, tag, raw) == (if hidden {
            Seq::<Seq<char>>::empty()
        } else {
            seq![spec_comment_lines(variants[j].docs)]
        }) + seq![spec_assign_line(commented, ident, spec_raw_render(raw))],
    decreases variants,
{
    if j > 0 {
        lemma_single_variant_activation(variants.skip(1), hidden, commented, ident, tag, raw, j - 1);
    }
}

/// The adaptive threshold at the block level: a tagged-union block whose
/// resolved style is `Flex(limit)` is expanded exactly when its variant
/// count is at most `limit` (the boundary is inclusive), and folded exactly
/// when the count exceeds it; the two outcomes partition all counts.
pub proof fn lemma_flex_block_threshold(b: SpecBlock, limit: usize)
    requires
        spec_block_is_enum(b),
        b.meta.config.enum_style == Some(EnumStyle::Flex(limit)),
    ensures
        spec_block_enum_is_expand(b) <==> b.variants.len() <= limit,
        spec_block_enum_is_fold(b) <==> b.variants.len() > limit,
        spec_block_enum_is_expand(b) <==> !spec_block_enum_is_fold(b),
{
}

/// An absent optional field under the skip-none policy contributes no line
/// at all.
pub proof fn lemma_skip_none_no_line(b: SpecBlock)
    requires
        spec_block_is_none_skipped(b),
    ensures
        spec_block_render(b) == Seq::<char>::empty(),
{
}

/// An absent optional field under the expand-none policy renders its
/// declared default as an inactive, comment-prefixed line.
pub proof fn lemma_expand_none_inactive_line(b: SpecBlock)
    requires
        !spec_block_is_none_skipped(b),
        b.value is None,
        b.meta.config.commented,
        !spec_block_is_enum(b),
        b.meta.inner_default.raw is Some,
    ensures
        spec_block_render(b) == spec_join_nonblank(
            spec_single_lines(b, true, b.meta.inner_default.raw->0),
            seq!['\n'],
        ),
{
}

} // verus!
