//! Rendering policy: how tagged-union fields are laid out, how absent
//! optional fields are treated, and whether documentation comments appear.
//! Policies are inherited: a field's unset axis falls back to its parent's
//! resolved value, and globally to `Flex(4)`, `ExpandNone`, `Show`.

use vstd::prelude::*;

verus! {

/// Layout of a tagged-union field's variants in the rendered document.
#[derive(Debug, Clone, Copy, PartialEq, Eq, Structural)]
pub enum EnumStyle {
    /// Only the active variant's line is emitted.
    Single,
    /// Every variant is emitted; inactive ones are comment-prefixed.
    Expand,
    /// One synthesized hint line lists all variants; only the active one is emitted.
    Fold,
    /// Behaves as `Expand` when the variant count is at most the threshold,
    /// as `Fold` otherwise.
    Flex(usize),
}

/// Treatment of an optional field whose value is absent.
#[derive(Debug, Clone, Copy, PartialEq, Eq, Structural)]
pub enum OptionStyle {
    /// The field contributes no line at all.
    SkipNone,
    /// The field's default is rendered as an inactive, comment-prefixed line.
    ExpandNone,
}

/// Whether documentation comments are emitted.
#[derive(Debug, Clone, Copy, PartialEq, Eq, Structural)]
pub enum CommentStyle {
    Show,
    Hide,
}

/// The per-node rendering policy. An unset axis (`None`) falls back to the
/// nearest ancestor's value, and globally to the defaults below.
#[derive(Debug, Clone, Copy)]
pub struct TomlConfig {
    pub enum_style: Option<EnumStyle>,
    pub option_style: Option<OptionStyle>,
    /// Whether a block without a merged value renders as an inactive line.
    pub commented: bool,
    pub comment_style: Option<CommentStyle>,
}

impl Default for TomlConfig {
    /// All axes unset; blocks without values render inactive.
    fn default() -> (r: Self)
        ensures
            r == TomlConfig::spec_default(),
    {
        TomlConfig { enum_style: None, option_style: None, commented: true, comment_style: None }
    }
}

impl TomlConfig {
    pub open spec fn spec_default() -> TomlConfig {
        TomlConfig { enum_style: None, option_style: None, commented: true, comment_style: None }
    }

    /// The result of filling this config's unset axes from `parent`.
    /// `commented` is local and never inherited.
    pub open spec fn spec_merge_parent(self, parent: TomlConfig) -> TomlConfig {
        TomlConfig {
            enum_style: if self.enum_style is None { parent.enum_style } else { self.enum_style },
            option_style: if self.option_style is None {
                parent.option_style
            } else {
                self.option_style
            },
            commented: self.commented,
            comment_style: if self.comment_style is None {
                parent.comment_style
            } else {
                self.comment_style
            },
        }
    }

    /// Fills each unset policy axis from `parent`; explicitly set axes win.
    pub fn merge_parent(&mut self, parent: &TomlConfig)
        ensures
            *final(self) == old(self).spec_merge_parent(*parent),
    {
        if self.enum_style.is_none() {
            self.enum_style = parent.enum_style;
        }
        if self.option_style.is_none() {
            self.option_style = parent.option_style;
        }
        if self.comment_style.is_none() {
            self.comment_style = parent.comment_style;
        }
    }

    pub open spec fn spec_is_none_skipped(self) -> bool {
        self.option_style == Some(OptionStyle::SkipNone)
    }

    /// Whether this config's option policy omits absent optional fields.
    pub fn is_none_skipped(&self) -> (r: bool)
        ensures
            r == self.spec_is_none_skipped(),
    {
        if let Some(style) = self.option_style {
            style.is_skip_none()
        } else {
            false
        }
    }

    pub open spec fn spec_is_comment_hidden(self) -> bool {
        self.comment_style == Some(CommentStyle::Hide)
    }

    /// Whether documentation comments are suppressed.
    pub fn is_comment_hidden(&self) -> (r: bool)
        ensures
            r == self.spec_is_comment_hidden(),
    {
        matches!(self.comment_style, Some(CommentStyle::Hide))
    }
}

impl Default for EnumStyle {
    /// The global default: adaptive with threshold 4.
    fn default() -> (r: Self)
        ensures
            r == EnumStyle::Flex(4usize),
    {
        EnumStyle::Flex(4)
    }
}

impl EnumStyle {
    /// Whether a variant set of `variants_len` alternatives is laid out in
    /// expanded form: always under `Expand`, and under `Flex(n)` exactly when
    /// the count is at most `n`.
    pub open spec fn spec_can_expand(self, variants_len: int) -> bool {
        match self {
            EnumStyle::Expand => true,
            EnumStyle::Flex(limit) => variants_len <= limit,
            _ => false,
        }
    }

    pub fn can_expand(&self, variants_len: usize) -> (r: bool)
        ensures
            r == self.spec_can_expand(variants_len as int),
    {
        match self {
            EnumStyle::Expand => true,
            EnumStyle::Flex(limit) => variants_len <= *limit,
            _ => false,
        }
    }

    /// Whether a variant set of `variants_len` alternatives is folded into a
    /// single hint line: always under `Fold`, and under `Flex(n)` exactly when
    /// the count exceeds `n`.
    pub open spec fn spec_can_fold(self, variants_len: int) -> bool {
        match self {
            EnumStyle::Fold => true,
            EnumStyle::Flex(limit) => variants_len > limit,
            _ => false,
        }
    }

    pub fn can_fold(&self, variants_len: usize) -> (r: bool)
        ensures
            r == self.spec_can_fold(variants_len as int),
    {
        match self {
            EnumStyle::Fold => true,
            EnumStyle::Flex(limit) => variants_len > *limit,
            _ => false,
        }
    }
}

impl Default for OptionStyle {
    fn default() -> (r: Self)
        ensures
            r == OptionStyle::ExpandNone,
    {
        OptionStyle::ExpandNone
    }
}

impl OptionStyle {
    pub fn is_skip_none(&self) -> (r: bool)
        ensures
            r == (*self == OptionStyle::SkipNone),
    {
        matches!(self, OptionStyle::SkipNone)
    }
}

impl Default for CommentStyle {
    fn default() -> (r: Self)
        ensures
            r == CommentStyle::Show,
    {
        CommentStyle::Show
    }
}

/// A `Flex(n)` policy expands exactly the variant sets of at most `n`
/// alternatives and folds exactly the larger ones: the boundary is inclusive
/// (`<=`, not `<`), and the two outcomes partition all counts.
pub proof fn lemma_flex_threshold(limit: usize, variants_len: int)
    ensures
        EnumStyle::Flex(limit).spec_can_expand(variants_len) <==> variants_len <= limit,
        EnumStyle::Flex(limit).spec_can_fold(variants_len) <==> variants_len > limit,
        EnumStyle::Flex(limit).spec_can_expand(variants_len) <==> !EnumStyle::Flex(
            limit,
        ).spec_can_fold(variants_len),
{
}

} // verus!
