//! A documentation comment attached to a section or block: the docs written
//! at the declaration, the docs written at the field that uses it, and the
//! metadata a renderer may fold into a hint line.

use vstd::prelude::*;
use crate::config::TomlConfig;
use crate::error::Error;
use crate::util::spec_comment_lines;
use crate::util::spec_trim_empty;
use crate::util::comment_lines;
use crate::util::trim_empty;
use crate::value::PrimValue;
use crate::value::SpecPrimValue;

verus! {

/// Where a comment stands in the document.
#[derive(Debug, Clone, Copy, PartialEq, Eq, Structural)]
pub enum CommentType {
    Unset,
    Root,
    Section,
    BlockField,
    BlockVariant,
}

impl Default for CommentType {
    fn default() -> (r: Self)
        ensures
            r == CommentType::Unset,
    {
        CommentType::Unset
    }
}

/// The documentation attached to one rendered element.
pub struct Comment {
    /// Docs written where the type was declared.
    pub defined_docs: String,
    /// Docs written at the field holding the value; they win over the
    /// declaration's docs.
    pub valued_docs: String,
    pub wrap_type: String,
    pub inner_type: String,
    pub inner_default: PrimValue,
    pub comment_type: CommentType,
    pub config: TomlConfig,
}

#[verifier::ext_equal]
pub struct SpecComment {
    pub defined_docs: Seq<char>,
    pub valued_docs: Seq<char>,
    pub wrap_type: Seq<char>,
    pub inner_type: Seq<char>,
    pub inner_default: SpecPrimValue,
    pub comment_type: CommentType,
    pub config: TomlConfig,
}

impl View for Comment {
    type V = SpecComment;

    open spec fn view(&self) -> SpecComment {
        SpecComment {
            defined_docs: self.defined_docs@,
            valued_docs: self.valued_docs@,
            wrap_type: self.wrap_type@,
            inner_type: self.inner_type@,
            inner_default: self.inner_default@,
            comment_type: self.comment_type,
            config: self.config,
        }
    }
}

impl Default for Comment {
    /// An empty comment.
    fn default() -> (r: Self)
        ensures
            r@ == (SpecComment {
                defined_docs: Seq::<char>::empty(),
                valued_docs: Seq::<char>::empty(),
                wrap_type: Seq::<char>::empty(),
                inner_type: Seq::<char>::empty(),
                inner_default: SpecPrimValue {
                    tag: Seq::<char>::empty(),
                    raw: None::<crate::raw::SpecRawValue>,
                },
                comment_type: CommentType::Unset,
                config: TomlConfig::spec_default(),
            }),
    {
        Comment {
            defined_docs: String::new(),
            valued_docs: String::new(),
            wrap_type: String::new(),
            inner_type: String::new(),
            inner_default: PrimValue::default(),
            comment_type: CommentType::Unset,
            config: TomlConfig::default(),
        }
    }
}

/// The comment's rendered text: its docs, each line prefixed with `#`. The
/// field's docs win over the declaration's.
pub open spec fn spec_comment_render(c: SpecComment) -> Seq<char> {
    if c.valued_docs.len() > 0 {
        spec_comment_lines(c.valued_docs)
    } else {
        spec_comment_lines(c.defined_docs)
    }
}

impl Comment {
    /// Whether both doc texts are blank.
    pub fn is_empty(&self) -> (r: bool)
        ensures
            r == (spec_trim_empty(self@.defined_docs) && spec_trim_empty(self@.valued_docs)),
    {
        trim_empty(self.defined_docs.as_str()) && trim_empty(self.valued_docs.as_str())
    }

    /// Renders the docs as `#`-prefixed comment lines; never fails.
    pub fn render(&self) -> (r: Result<String, Error>)
        ensures
            r is Ok,
            r->Ok_0@ == spec_comment_render(self@),
    {
        let text = if !self.valued_docs.as_str().is_empty() {
            comment_lines(self.valued_docs.as_str())
        } else {
            comment_lines(self.defined_docs.as_str())
        };
        Ok(text)
    }
}

} // verus!
