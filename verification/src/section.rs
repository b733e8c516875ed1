//! A section of the document: a dotted key path, its metadata, an ordered
//! list of blocks, and — for arrays of tables — the element position the
//! section instance stands for.

use vstd::prelude::*;
use vstd::string::StringExecFns;
use crate::block::Block;
use crate::block::SpecBlock;
use crate::block::spec_block_is_comented;
use crate::block::spec_block_is_none_skipped;
use crate::block::spec_block_is_value;
use crate::block::spec_block_render;
use crate::comment::Comment;
use crate::comment::CommentType;
use crate::comment::SpecComment;
use crate::comment::spec_comment_render;
use crate::error::Error;
use crate::schema::Meta;
use crate::schema::SpecMeta;
use crate::schema::spec_meta_comment;
use crate::schema::spec_option_wrap;
use crate::util::bang_comment_seq;
use crate::util::bang_comment_str;
use crate::util::increase_key;
use crate::util::join_strings;
use crate::util::spec_increase_key;
use crate::util::spec_join;

verus! {

broadcast use vstd::seq_lib::group_seq_lib_default, vstd::seq::group_seq_axioms, vstd::std_specs::vec::group_vec_axioms;

/// One section of the rendered document.
pub struct Section {
    pub key: String,
    pub meta: Meta,
    pub array_index: Option<usize>,
    pub blocks: Vec<Block>,
}

#[verifier::ext_equal]
pub struct SpecSection {
    pub key: Seq<char>,
    pub meta: SpecMeta,
    pub array_index: Option<usize>,
    pub blocks: Seq<SpecBlock>,
}

impl View for Section {
    type V = SpecSection;

    open spec fn view(&self) -> SpecSection {
        SpecSection {
            key: self.key@,
            meta: self.meta@,
            array_index: self.array_index,
            blocks: self.blocks@.map_values(|b: Block| b@),
        }
    }
}

impl Default for Section {
    /// The root section: empty key path, no blocks.
    fn default() -> (r: Self)
        ensures
            r@ == (SpecSection {
                key: Seq::<char>::empty(),
                meta: crate::schema::spec_default_meta(),
                array_index: None::<usize>,
                blocks: Seq::<SpecBlock>::empty(),
            }),
    {
        let r = Section {
            key: String::new(),
            meta: Meta::default(),
            array_index: None,
            blocks: Vec::new(),
        };
        proof {
            assert(r.blocks@.map_values(|b: Block| b@) =~= Seq::<SpecBlock>::empty());
        }
        r
    }
}

impl Clone for Section {
    fn clone(&self) -> (r: Self)
        ensures
            r@ == self@,
    {
        let mut blocks: Vec<Block> = Vec::new();
        let mut i: usize = 0;
        while i < self.blocks.len()
            invariant
                i <= self.blocks@.len(),
                blocks@.len() == i,
                forall|j: int| 0 <= j < i ==> (#[trigger] blocks@[j])@ == self.blocks@[j]@,
            decreases self.blocks@.len() - i,
        {
            blocks.push(self.blocks[i].clone());
            i = i + 1;
        }
        let r = Section {
            key: self.key.clone(),
            meta: self.meta.clone(),
            array_index: self.array_index,
            blocks,
        };
        proof {
            assert(r.blocks@.map_values(|b: Block| b@) =~= self.blocks@.map_values(|b: Block| b@));
        }
        r
    }
}

// ---- predicates ----

/// The root section: the empty key path with at least one block.
pub open spec fn spec_section_is_root(s: SpecSection) -> bool {
    s.key.len() == 0 && s.blocks.len() != 0
}

/// A section standing for a bare value: one anonymous block at the root key.
pub open spec fn spec_section_is_value(s: SpecSection) -> bool {
    s.key.len() == 0 && s.blocks.len() == 1 && spec_block_is_value(s.blocks[0])
}

/// Whether the whole section renders as inactive: its own configuration says
/// so, and so does every block.
pub open spec fn spec_section_is_commented(s: SpecSection) -> bool {
    s.meta.config.commented && forall|i: int|
        0 <= i < s.blocks.len() ==> spec_block_is_comented(#[trigger] s.blocks[i])
}

/// Whether the whole section is omitted: an absent optional record under the
/// skip-none policy, every block skipped as well.
pub open spec fn spec_section_is_none_skipped(s: SpecSection) -> bool {
    s.meta.wrap_type == spec_option_wrap() && s.meta.config.spec_is_none_skipped() && forall|
        i: int,
    | 0 <= i < s.blocks.len() ==> spec_block_is_none_skipped(#[trigger] s.blocks[i])
}

impl Section {
    pub fn is_root(&self) -> (r: bool)
        ensures
            r == spec_section_is_root(self@),
    {
        let r = self.key.as_str().is_empty() && !self.blocks.is_empty();
        proof {
            assert(self@.blocks.len() == self.blocks@.len());
        }
        r
    }

    pub fn is_value(&self) -> (r: bool)
        ensures
            r == spec_section_is_value(self@),
    {
        proof {
            assert(self@.blocks.len() == self.blocks@.len());
        }
        if self.key.as_str().is_empty() && self.blocks.len() == 1 {
            let r = self.blocks[0].is_value();
            proof {
                assert(self@.blocks[0] == self.blocks@[0]@);
            }
            r
        } else {
            false
        }
    }

    /// Whether the section renders as a fully inactive block, header included.
    pub fn is_commented(&self) -> (r: bool)
        ensures
            r == spec_section_is_commented(self@),
    {
        let mut commented = self.meta.config.commented;
        if !commented {
            proof {
                assert(!spec_section_is_commented(self@));
            }
            return false;
        }
        let mut i: usize = 0;
        while i < self.blocks.len()
            invariant
                i <= self.blocks@.len(),
                self@.blocks.len() == self.blocks@.len(),
                forall|j: int| 0 <= j < self.blocks@.len() ==> self@.blocks[j] == (
                #[trigger] self.blocks@[j])@,
                self@.meta.config.commented,
                forall|j: int| 0 <= j < i ==> spec_block_is_comented(#[trigger] self@.blocks[j]),
            decreases self.blocks@.len() - i,
        {
            if !self.blocks[i].is_comented() {
                return false;
            }
            i = i + 1;
        }
        true
    }

    /// Whether the section is omitted entirely under the skip-none policy.
    pub fn is_none_skipped(&self) -> (r: bool)
        ensures
            r == spec_section_is_none_skipped(self@),
    {
        if !(self.meta.is_option_type() && self.meta.config.is_none_skipped()) {
            proof {
                assert(!spec_section_is_none_skipped(self@));
            }
            return false;
        }
        let mut i: usize = 0;
        while i < self.blocks.len()
            invariant
                i <= self.blocks@.len(),
                self@.blocks.len() == self.blocks@.len(),
                forall|j: int| 0 <= j < self.blocks@.len() ==> self@.blocks[j] == (
                #[trigger] self.blocks@[j])@,
                self@.meta.wrap_type == spec_option_wrap(),
                self@.meta.config.spec_is_none_skipped(),
                forall|j: int| 0 <= j < i ==> spec_block_is_none_skipped(#[trigger] self@.blocks[j]),
            decreases self.blocks@.len() - i,
        {
            if !self.blocks[i].is_none_skipped() {
                return false;
            }
            i = i + 1;
        }
        true
    }
}

// ---- assignment under a field name ----

/// A block renamed to stand for the field `ident`.
pub open spec fn spec_block_assigned(b: SpecBlock, ident: Seq<char>) -> SpecBlock {
    SpecBlock { key: ident, ident: ident, ..b }
}

/// A block whose key gains `ident` as a new leading segment.
pub open spec fn spec_block_increased(b: SpecBlock, ident: Seq<char>) -> SpecBlock {
    SpecBlock { key: spec_increase_key(b.key, ident), ..b }
}

/// The section as it stands after being assigned to the field `ident`: a
/// bare-value section renames its single block; any other section gains
/// `ident` as a leading segment on its own key and every block's key.
pub open spec fn spec_section_assigned_to(s: SpecSection, ident: Seq<char>) -> SpecSection {
    if spec_section_is_value(s) {
        SpecSection { blocks: s.blocks.map_values(|b: SpecBlock| spec_block_assigned(b, ident)), ..s }
    } else {
        SpecSection {
            key: spec_increase_key(s.key, ident),
            blocks: s.blocks.map_values(|b: SpecBlock| spec_block_increased(b, ident)),
            ..s
        }
    }
}

impl Section {
    /// Assigns the section to the field `ident`.
    pub fn assigned_to(&mut self, ident: &str)
        ensures
            final(self)@ == spec_section_assigned_to(old(self)@, ident@),
    {
        let ghost model = self@.blocks;
        if self.is_value() {
            let mut i: usize = 0;
            while i < self.blocks.len()
                invariant
                    i <= self.blocks@.len(),
                    self.blocks@.len() == model.len(),
                    self.key@ == old(self)@.key,
                    self.meta@ == old(self)@.meta,
                    self.array_index == old(self)@.array_index,
                    model == old(self)@.blocks,
                    forall|j: int|
                        0 <= j < i ==> (#[trigger] self.blocks@[j])@ == spec_block_assigned(
                            model[j],
                            ident@,
                        ),
                    forall|j: int| i <= j < model.len() ==> (#[trigger] self.blocks@[j])@ == model[j],
                decreases self.blocks@.len() - i,
            {
                let mut b = self.blocks.remove(i);
                b.key = String::from_str(ident);
                b.ident = String::from_str(ident);
                self.blocks.insert(i, b);
                i = i + 1;
            }
            proof {
                assert(self@.blocks =~= model.map_values(
                    |b: SpecBlock| spec_block_assigned(b, ident@),
                ));
                assert(self@ =~= spec_section_assigned_to(old(self)@, ident@));
            }
        } else {
            increase_key(&mut self.key, ident);
            let mut i: usize = 0;
            while i < self.blocks.len()
                invariant
                    i <= self.blocks@.len(),
                    self.blocks@.len() == model.len(),
                    self.key@ == spec_increase_key(old(self)@.key, ident@),
                    self.meta@ == old(self)@.meta,
                    self.array_index == old(self)@.array_index,
                    model == old(self)@.blocks,
                    forall|j: int|
                        0 <= j < i ==> (#[trigger] self.blocks@[j])@ == spec_block_increased(
                            model[j],
                            ident@,
                        ),
                    forall|j: int| i <= j < model.len() ==> (#[trigger] self.blocks@[j])@ == model[j],
                decreases self.blocks@.len() - i,
            {
                let mut b = self.blocks.remove(i);
                increase_key(&mut b.key, ident);
                self.blocks.insert(i, b);
                i = i + 1;
            }
            proof {
                assert(self@.blocks =~= model.map_values(
                    |b: SpecBlock| spec_block_increased(b, ident@),
                ));
                assert(self@ =~= spec_section_assigned_to(old(self)@, ident@));
            }
        }
    }
}

// ---- deduplication ----

/// Folding one section into an already-deduplicated list: the first section
/// holding the same key absorbs its blocks, otherwise it is appended.
pub open spec fn spec_reduce_insert(out: Seq<SpecSection>, s: SpecSection) -> Seq<SpecSection>
    decreases out,
{
    if out.len() == 0 {
        seq![s]
    } else if out[0].key == s.key {
        seq![SpecSection { blocks: out[0].blocks + s.blocks, ..out[0] }] + out.skip(1)
    } else {
        seq![out[0]] + spec_reduce_insert(out.skip(1), s)
    }
}

/// Deduplicating a section list by key path: blocks of later sections with an
/// already-seen key are appended to the first such section, which keeps its
/// own metadata; first-seen order is preserved.
pub open spec fn spec_reduce(ss: Seq<SpecSection>) -> Seq<SpecSection>
    decreases ss,
{
    if ss.len() == 0 {
        Seq::empty()
    } else {
        spec_reduce_insert(spec_reduce(ss.drop_last()), ss.last())
    }
}

proof fn lemma_reduce_insert_found(out: Seq<SpecSection>, s: SpecSection, j: int)
    requires
        0 <= j < out.len(),
        out[j].key == s.key,
        forall|i: int| 0 <= i < j ==> out[i].key != s.key,
    ensures
        spec_reduce_insert(out, s) == out.update(
            j,
            SpecSection { blocks: out[j].blocks + s.blocks, ..out[j] },
        ),
    decreases out,
{
    if j == 0 {
        assert(spec_reduce_insert(out, s) =~= out.update(
            0,
            SpecSection { blocks: out[0].blocks + s.blocks, ..out[0] },
        ));
    } else {
        lemma_reduce_insert_found(out.skip(1), s, j - 1);
        assert(out.skip(1).update(
            j - 1,
            SpecSection { blocks: out[j].blocks + s.blocks, ..out[j] },
        ) =~= out.update(j, SpecSection { blocks: out[j].blocks + s.blocks, ..out[j] }).skip(1));
        assert(spec_reduce_insert(out, s) =~= out.update(
            j,
            SpecSection { blocks: out[j].blocks + s.blocks, ..out[j] },
        ));
    }
}

proof fn lemma_reduce_insert_missing(out: Seq<SpecSection>, s: SpecSection)
    requires
        forall|i: int| 0 <= i < out.len() ==> out[i].key != s.key,
    ensures
        spec_reduce_insert(out, s) == out.push(s),
    decreases out,
{
    if out.len() == 0 {
        assert(spec_reduce_insert(out, s) =~= out.push(s));
    } else {
        lemma_reduce_insert_missing(out.skip(1), s);
        assert(out.skip(1).push(s) =~= out.push(s).skip(1));
        assert(spec_reduce_insert(out, s) =~= out.push(s));
    }
}

impl Section {
    /// Concatenates the blocks of sections sharing a key path into the first
    /// such section, keeping first-seen section metadata and order.
    pub fn reduce(sections: &mut Vec<Section>)
        ensures
            final(sections)@.map_values(|s: Section| s@) == spec_reduce(
                old(sections)@.map_values(|s: Section| s@),
            ),
    {
        let mut input: Vec<Section> = Vec::new();
        core::mem::swap(sections, &mut input);
        let ghost model = input@.map_values(|s: Section| s@);
        let mut out: Vec<Section> = Vec::new();
        let n0 = input.len();
        let mut i: usize = 0;
        proof {
            assert(model.take(0) =~= Seq::<SpecSection>::empty());
            assert(out@.map_values(|s: Section| s@) =~= spec_reduce(model.take(0)));
        }
        while input.len() > 0
            invariant
                i + input.len() == n0,
                model.len() == n0,
                forall|j: int| 0 <= j < input@.len() ==> (#[trigger] input@[j])@ == model[i + j],
                out@.map_values(|s: Section| s@) == spec_reduce(model.take(i as int)),
            decreases input.len(),
        {
            let ghost in_prev = input@;
            let mut s = input.remove(0);
            proof {
                assert(in_prev[0]@ == model[i as int]);
                assert forall|j: int| 0 <= j < input@.len() implies (#[trigger] input@[j])@ == model[
                    i + 1 + j
                ] by {
                    assert(input@[j] == in_prev[j + 1]);
                }
            }
            let ghost out_model = out@.map_values(|s2: Section| s2@);
            let mut j: usize = 0;
            let mut found: bool = false;
            let mut found_at: usize = 0;
            while j < out.len() && !found
                invariant
                    j <= out@.len(),
                    out_model == out@.map_values(|s2: Section| s2@),
                    out_model.len() == out@.len(),
                    forall|k: int| 0 <= k < out@.len() ==> (#[trigger] out@[k])@ == out_model[k],
                    s@ == model[i as int],
                    !found ==> forall|k: int| 0 <= k < j ==> out_model[k].key != s@.key,
                    found ==> found_at < out@.len() && out_model[found_at as int].key == s@.key
                        && (forall|k: int| 0 <= k < found_at ==> out_model[k].key != s@.key),
                decreases out@.len() - j,
            {
                if crate::util::eq_str(out[j].key.as_str(), s.key.as_str()) {
                    found = true;
                    found_at = j;
                }
                j = j + 1;
            }
            if found {
                let ghost s_model = s@;
                let mut entry = out.remove(found_at);
                entry.blocks.append(&mut s.blocks);
                out.insert(found_at, entry);
                proof {
                    lemma_reduce_insert_found(out_model, s_model, found_at as int);
                    assert(out@[found_at as int]@.blocks =~= out_model[found_at as int].blocks
                        + s_model.blocks);
                    assert(out@.map_values(|s2: Section| s2@) =~= out_model.update(
                        found_at as int,
                        SpecSection {
                            blocks: out_model[found_at as int].blocks + s_model.blocks,
                            ..out_model[found_at as int]
                        },
                    ));
                    let t = model.take(i + 1);
                    assert(t.drop_last() =~= model.take(i as int));
                    assert(t.last() == model[i as int]);
                }
            } else {
                let ghost s_model = s@;
                out.push(s);
                proof {
                    lemma_reduce_insert_missing(out_model, s_model);
                    assert(out@.map_values(|s2: Section| s2@) =~= out_model.push(s_model));
                    let t = model.take(i + 1);
                    assert(t.drop_last() =~= model.take(i as int));
                    assert(t.last() == model[i as int]);
                }
            }
            i = i + 1;
        }
        proof {
            assert(model.take(n0 as int) =~= model);
        }
        core::mem::swap(sections, &mut out);
    }
}

// ---- rendering ----

/// The section's documentation comment, marked as the root's or a section's.
pub open spec fn spec_section_comment(s: SpecSection) -> SpecComment {
    SpecComment {
        comment_type: if spec_section_is_root(s) {
            CommentType::Root
        } else {
            CommentType::Section
        },
        ..spec_meta_comment(s.meta)
    }
}

/// The section's header line: nothing around the root's empty key, `[[key]]`
/// for an array of tables, `[key]` otherwise; the whole line is prefixed with
/// the inactive marker when a non-root section is fully commented.
pub open spec fn spec_section_header(s: SpecSection) -> Seq<char> {
    let bang: Seq<char> = if spec_section_is_commented(s) && s.key.len() != 0 {
        bang_comment_seq()
    } else {
        Seq::empty()
    };
    if spec_section_is_root(s) {
        bang + s.key
    } else if s.meta.is_array {
        bang + seq!['[', '['] + s.key + seq![']', ']']
    } else {
        bang + seq!['['] + s.key + seq![']']
    }
}

/// The renderings of a list of blocks, in order.
pub open spec fn spec_block_render_list(blocks: Seq<SpecBlock>) -> Seq<Seq<char>>
    decreases blocks,
{
    if blocks.len() == 0 {
        Seq::empty()
    } else {
        spec_block_render_list(blocks.drop_last()).push(spec_block_render(blocks.last()))
    }
}

/// The lines of a section: its comment (unless hidden), its header, and each
/// block's rendering that is not empty.
pub open spec fn spec_section_lines(s: SpecSection) -> Seq<Seq<char>> {
    (if s.meta.config.spec_is_comment_hidden() {
        Seq::empty()
    } else {
        seq![spec_comment_render(spec_section_comment(s))]
    }) + seq![spec_section_header(s)] + spec_block_render_list(s.blocks).filter(
        |l: Seq<char>| l.len() != 0,
    )
}

/// The full rendering of a section: empty when the section is omitted under
/// skip-none, otherwise its lines joined with line breaks.
pub open spec fn spec_section_render(s: SpecSection) -> Seq<char> {
    if spec_section_is_none_skipped(s) {
        Seq::empty()
    } else {
        spec_join(spec_section_lines(s), seq!['\n'])
    }
}

impl Section {
    /// The section's documentation comment.
    pub fn comment(&self) -> (r: Comment)
        ensures
            r@ == spec_section_comment(self@),
    {
        let mut comment = self.meta.comment();
        comment.comment_type = if self.is_root() {
            CommentType::Root
        } else {
            CommentType::Section
        };
        comment
    }

    /// Renders the section. Never fails: an omitted section renders as the
    /// empty text.
    pub fn render(&self) -> (r: Result<String, Error>)
        ensures
            r is Ok,
            r->Ok_0@ == spec_section_render(self@),
    {
        if self.is_none_skipped() {
            return Ok(String::new());
        }
        let comment = self.comment();
        let text = match comment.render() {
            Ok(t) => t,
            Err(e) => {
                return Err(e);
            },
        };
        let mut lines: Vec<String> = Vec::new();
        if !self.meta.config.is_comment_hidden() {
            lines.push(text);
        }
        let header = self.render_header();
        lines.push(header);
        let ghost head_lines = lines@.map_values(|p: String| p@);
        proof {
            if self@.meta.config.spec_is_comment_hidden() {
                assert(head_lines =~= seq![spec_section_header(self@)]);
            } else {
                assert(head_lines =~= seq![
                    spec_comment_render(spec_section_comment(self@)),
                    spec_section_header(self@),
                ]);
            }
        }
        let ghost model = self@.blocks;
        let ghost pred = |l: Seq<char>| l.len() != 0;
        let mut i: usize = 0;
        proof {
            assert(spec_block_render_list(model.take(0)) =~= Seq::<Seq<char>>::empty());
            assert(Seq::<Seq<char>>::empty().filter(pred) =~= Seq::<Seq<char>>::empty());
        }
        while i < self.blocks.len()
            invariant
                i <= self.blocks@.len(),
                model == self@.blocks,
                model.len() == self.blocks@.len(),
                forall|j: int| 0 <= j < model.len() ==> model[j] == (#[trigger] self.blocks@[j])@,
                pred == (|l: Seq<char>| l.len() != 0),
                lines@.map_values(|p: String| p@) == head_lines + spec_block_render_list(
                    model.take(i as int),
                ).filter(pred),
            decreases self.blocks@.len() - i,
        {
            let ghost prev = lines@.map_values(|p: String| p@);
            let line = match self.blocks[i].render() {
                Ok(t) => t,
                Err(e) => {
                    return Err(e);
                },
            };
            let nonempty = !line.as_str().is_empty();
            if nonempty {
                lines.push(line);
            }
            proof {
                let t = spec_block_render_list(model.take(i + 1));
                assert(model.take(i + 1).drop_last() =~= model.take(i as int));
                assert(model.take(i + 1).last() == model[i as int]);
                assert(t == spec_block_render_list(model.take(i as int)).push(
                    spec_block_render(model[i as int]),
                ));
                assert(t.drop_last() =~= spec_block_render_list(model.take(i as int)));
                assert(t.last() == spec_block_render(model[i as int]));
                reveal_with_fuel(Seq::filter, 2);
                if pred(spec_block_render(model[i as int])) {
                    assert(t.filter(pred) =~= spec_block_render_list(model.take(i as int)).filter(
                        pred,
                    ).push(spec_block_render(model[i as int])));
                    assert(lines@.map_values(|p: String| p@) =~= prev.push(
                        spec_block_render(model[i as int]),
                    ));
                } else {
                    assert(t.filter(pred) =~= spec_block_render_list(model.take(i as int)).filter(
                        pred,
                    ));
                }
            }
            i = i + 1;
        }
        proof {
            assert(model.take(model.len() as int) =~= model);
            assert(lines@.map_values(|p: String| p@) =~= spec_section_lines(self@));
        }
        let nl = crate::util::newline_str();
        Ok(join_strings(&lines, nl))
    }

    /// The section's header line, inactive marker included when due.
    fn render_header(&self) -> (r: String)
        ensures
            r@ == spec_section_header(self@),
    {
        let commented = self.is_commented();
        let root = self.is_root();
        let mut r = if commented && !self.key.as_str().is_empty() {
            String::from_str(bang_comment_str())
        } else {
            String::new()
        };
        if root {
            r.append(self.key.as_str());
        } else if self.meta.is_array {
            r.append(double_open_str());
            r.append(self.key.as_str());
            r.append(double_close_str());
        } else {
            r.append(single_open_str());
            r.append(self.key.as_str());
            r.append(single_close_str());
        }
        proof {
            assert(r@ =~= spec_section_header(self@));
        }
        r
    }
}

fn double_open_str() -> (r: &'static str)
    ensures
        r@ == seq!['[', '['],
{
    let s = "[[";
    proof {
        reveal_strlit("[[");
        assert(s@ =~= seq!['[', '[']);
    }
    s
}

fn double_close_str() -> (r: &'static str)
    ensures
        r@ == seq![']', ']'],
{
    let s = "]]";
    proof {
        reveal_strlit("]]");
        assert(s@ =~= seq![']', ']']);
    }
    s
}

fn single_open_str() -> (r: &'static str)
    ensures
        r@ == seq!['['],
{
    let s = "[";
    proof {
        reveal_strlit("[");
        assert(s@ =~= seq!['[']);
    }
    s
}

fn single_close_str() -> (r: &'static str)
    ensures
        r@ == seq![']'],
{
    let s = "]";
    proof {
        reveal_strlit("]");
        assert(s@ =~= seq![']']);
    }
    s
}

/// An absent optional record under the skip-none policy is omitted entirely:
/// the whole section, header included, contributes no text.
pub proof fn lemma_skip_none_no_section(s: SpecSection)
    requires
        spec_section_is_none_skipped(s),
    ensures
        spec_section_render(s) == Seq::<char>::empty(),
{
}

} // verus!
