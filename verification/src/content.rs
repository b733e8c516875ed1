//! The document: an ordered list of sections built from a schema, onto which
//! a runtime instance's value tree is overlaid. Merging never deletes
//! sections or blocks: it only duplicates array sections, marks activity and
//! sets literals, so the skeleton stays complete even for partially
//! populated instances.

use vstd::prelude::*;
use crate::block::SpecBlock;
use crate::config::CommentStyle;
use crate::config::TomlConfig;
use crate::error::Error;
use crate::schema::SpecMeta;
use crate::section::Section;
use crate::section::SpecSection;
use crate::section::spec_section_render;
use crate::util::join_nonblank;
use crate::util::spec_join_nonblank;
use crate::util::spec_key_parent;
use crate::util::spec_trim;
use crate::util::trim_str;
use crate::value::SpecBlockValue;
use crate::value::SpecValue;
use crate::value::Value;
use crate::value::BlockValue;
use crate::value::spec_value_flatten;

verus! {

broadcast use vstd::seq_lib::group_seq_lib_default, vstd::seq::group_seq_axioms, vstd::std_specs::vec::group_vec_axioms;

/// A whole document: its sections in render order.
pub struct TomlContent {
    pub sections: Vec<Section>,
}

impl View for TomlContent {
    type V = Seq<SpecSection>;

    open spec fn view(&self) -> Seq<SpecSection> {
        self.sections@.map_values(|s: Section| s@)
    }
}

// ---- the merge engine ----

/// Whether some section holds the key path.
pub open spec fn spec_exists_key(ss: Seq<SpecSection>, k: Seq<char>) -> bool {
    exists|i: int| 0 <= i < ss.len() && (#[trigger] ss[i]).key == k
}

/// Whether some section holds the key path at exactly this element position.
pub open spec fn spec_exists_exact(ss: Seq<SpecSection>, k: Seq<char>, idx: usize) -> bool {
    exists|i: int|
        0 <= i < ss.len() && (#[trigger] ss[i]).key == k && ss[i].array_index == Some(idx)
}

/// The first section holding the key path (meaningful only when one exists).
pub open spec fn spec_first_with_key(ss: Seq<SpecSection>, k: Seq<char>) -> SpecSection
    decreases ss,
{
    if ss.len() == 0 {
        SpecSection {
            key: k,
            meta: crate::schema::spec_default_meta(),
            array_index: None,
            blocks: Seq::empty(),
        }
    } else if ss[0].key == k {
        ss[0]
    } else {
        spec_first_with_key(ss.skip(1), k)
    }
}

/// What one addressed leaf does to the section list before values are
/// assigned: a leaf lying at an element position whose section instance does
/// not exist yet clones the first section sharing its parent path, stamped
/// with the new position; any other leaf changes nothing.
pub open spec fn spec_merge_clone_step(ss: Seq<SpecSection>, leaf: SpecBlockValue) -> Seq<
    SpecSection,
> {
    match leaf.array_index {
        None => ss,
        Some(idx) => {
            let k = spec_key_parent(leaf.key);
            if spec_exists_key(ss, k) && !spec_exists_exact(ss, k, idx) {
                ss.push(SpecSection { array_index: Some(idx), ..spec_first_with_key(ss, k) })
            } else {
                ss
            }
        },
    }
}

/// The section list after every leaf's array section exists.
pub open spec fn spec_merge_clone_phase(
    ss: Seq<SpecSection>,
    leaves: Seq<SpecBlockValue>,
) -> Seq<SpecSection>
    decreases leaves,
{
    if leaves.len() == 0 {
        ss
    } else {
        spec_merge_clone_step(spec_merge_clone_phase(ss, leaves.drop_last()), leaves.last())
    }
}

/// The block list with the leaf assigned to the first block holding its key.
pub open spec fn spec_assign_block_list(blocks: Seq<SpecBlock>, leaf: SpecBlockValue) -> Seq<
    SpecBlock,
>
    decreases blocks,
{
    if blocks.len() == 0 {
        Seq::empty()
    } else if blocks[0].key == leaf.key {
        seq![SpecBlock { value: Some(leaf), ..blocks[0] }] + blocks.skip(1)
    } else {
        seq![blocks[0]] + spec_assign_block_list(blocks.skip(1), leaf)
    }
}

/// Whether the leaf lands in this section: the element positions agree and
/// some block holds the leaf's key.
pub open spec fn spec_section_matches(s: SpecSection, leaf: SpecBlockValue) -> bool {
    s.array_index == leaf.array_index && exists|j: int|
        0 <= j < s.blocks.len() && (#[trigger] s.blocks[j]).key == leaf.key
}

/// The section list with the leaf assigned into the first section it lands
/// in; a leaf no section takes is ignored.
pub open spec fn spec_assign_sections(ss: Seq<SpecSection>, leaf: SpecBlockValue) -> Seq<
    SpecSection,
>
    decreases ss,
{
    if ss.len() == 0 {
        ss
    } else if spec_section_matches(ss[0], leaf) {
        seq![SpecSection { blocks: spec_assign_block_list(ss[0].blocks, leaf), ..ss[0] }]
            + ss.skip(1)
    } else {
        seq![ss[0]] + spec_assign_sections(ss.skip(1), leaf)
    }
}

/// What one leaf does in the assignment phase: a leaf without a raw value
/// changes nothing.
pub open spec fn spec_merge_assign_step(ss: Seq<SpecSection>, leaf: SpecBlockValue) -> Seq<
    SpecSection,
> {
    if leaf.value is Some {
        spec_assign_sections(ss, leaf)
    } else {
        ss
    }
}

/// The section list after every leaf has been assigned.
pub open spec fn spec_merge_assign_phase(
    ss: Seq<SpecSection>,
    leaves: Seq<SpecBlockValue>,
) -> Seq<SpecSection>
    decreases leaves,
{
    if leaves.len() == 0 {
        ss
    } else {
        spec_merge_assign_step(spec_merge_assign_phase(ss, leaves.drop_last()), leaves.last())
    }
}

/// The whole merge: the instance tree is flattened into addressed leaves,
/// missing array section instances are cloned, and every leaf's value is
/// assigned to the block holding its key path.
pub open spec fn spec_merge_value(ss: Seq<SpecSection>, v: SpecValue) -> Seq<SpecSection> {
    let leaves = spec_value_flatten(v);
    spec_merge_assign_phase(spec_merge_clone_phase(ss, leaves), leaves)
}

proof fn lemma_first_with_key(ss: Seq<SpecSection>, k: Seq<char>, j: int)
    requires
        0 <= j < ss.len(),
        ss[j].key == k,
        forall|i: int| 0 <= i < j ==> ss[i].key != k,
    ensures
        spec_first_with_key(ss, k) == ss[j],
    decreases ss,
{
    if j > 0 {
        lemma_first_with_key(ss.skip(1), k, j - 1);
    }
}

proof fn lemma_assign_block_list_found(blocks: Seq<SpecBlock>, leaf: SpecBlockValue, j: int)
    requires
        0 <= j < blocks.len(),
        blocks[j].key == leaf.key,
        forall|i: int| 0 <= i < j ==> blocks[i].key != leaf.key,
    ensures
        spec_assign_block_list(blocks, leaf) == blocks.update(
            j,
            SpecBlock { value: Some(leaf), ..blocks[j] },
        ),
    decreases blocks,
{
    if j == 0 {
        assert(spec_assign_block_list(blocks, leaf) =~= blocks.update(
            0,
            SpecBlock { value: Some(leaf), ..blocks[0] },
        ));
    } else {
        lemma_assign_block_list_found(blocks.skip(1), leaf, j - 1);
        assert(blocks.skip(1).update(j - 1, SpecBlock { value: Some(leaf), ..blocks[j] })
            =~= blocks.update(j, SpecBlock { value: Some(leaf), ..blocks[j] }).skip(1));
        assert(spec_assign_block_list(blocks, leaf) =~= blocks.update(
            j,
            SpecBlock { value: Some(leaf), ..blocks[j] },
        ));
    }
}

proof fn lemma_assign_sections_found(ss: Seq<SpecSection>, leaf: SpecBlockValue, i: int)
    requires
        0 <= i < ss.len(),
        spec_section_matches(ss[i], leaf),
        forall|j: int| 0 <= j < i ==> !spec_section_matches(ss[j], leaf),
    ensures
        spec_assign_sections(ss, leaf) == ss.update(
            i,
            SpecSection { blocks: spec_assign_block_list(ss[i].blocks, leaf), ..ss[i] },
        ),
    decreases ss,
{
    if i == 0 {
        assert(spec_assign_sections(ss, leaf) =~= ss.update(
            0,
            SpecSection { blocks: spec_assign_block_list(ss[0].blocks, leaf), ..ss[0] },
        ));
    } else {
        lemma_assign_sections_found(ss.skip(1), leaf, i - 1);
        assert(ss.skip(1).update(
            i - 1,
            SpecSection { blocks: spec_assign_block_list(ss[i].blocks, leaf), ..ss[i] },
        ) =~= ss.update(
            i,
            SpecSection { blocks: spec_assign_block_list(ss[i].blocks, leaf), ..ss[i] },
        ).skip(1));
        assert(spec_assign_sections(ss, leaf) =~= ss.update(
            i,
            SpecSection { blocks: spec_assign_block_list(ss[i].blocks, leaf), ..ss[i] },
        ));
    }
}

proof fn lemma_assign_sections_missing(ss: Seq<SpecSection>, leaf: SpecBlockValue)
    requires
        forall|j: int| 0 <= j < ss.len() ==> !spec_section_matches(ss[j], leaf),
    ensures
        spec_assign_sections(ss, leaf) == ss,
    decreases ss,
{
    if ss.len() > 0 {
        lemma_assign_sections_missing(ss.skip(1), leaf);
        assert(spec_assign_sections(ss, leaf) =~= ss);
    }
}

fn eq_opt_idx(a: Option<usize>, b: Option<usize>) -> (r: bool)
    ensures
        r == (a == b),
{
    match (a, b) {
        (None, None) => true,
        (Some(x), Some(y)) => x == y,
        _ => false,
    }
}

impl TomlContent {
    /// Overlays an instance tree onto the skeleton. The tree must be a
    /// table, since a document's top level is a record; any other shape is
    /// rejected and the skeleton is left as it was. Leaves whose key path
    /// has no block in the skeleton are ignored.
    pub fn merge_value(&mut self, value: Value) -> (r: Result<(), Error>)
        ensures
            value@ is Table ==> r is Ok && final(self)@ == spec_merge_value(old(self)@, value@),
            !(value@ is Table) ==> r is Err && r->Err_0 is RootMustStruct && final(self)@ == old(
                self,
            )@,
    {
        if !value.is_table() {
            return Err(Error::RootMustStruct);
        }
        let ghost ss0 = self@;
        let values = value.flatten();
        let ghost leaves = values@.map_values(|b: BlockValue| b@);
        // clone phase: make sure every leaf's array section instance exists
        let mut i: usize = 0;
        proof {
            assert(leaves.take(0) =~= Seq::<SpecBlockValue>::empty());
        }
        while i < values.len()
            invariant
                i <= values@.len(),
                leaves == values@.map_values(|b: BlockValue| b@),
                leaves.len() == values@.len(),
                self@ == spec_merge_clone_phase(ss0, leaves.take(i as int)),
            decreases values@.len() - i,
        {
            let ghost prev = self@;
            let leaf = &values[i];
            if leaf.array_index.is_some() {
                let idx = match leaf.array_index {
                    Some(x) => x,
                    None => 0,
                };
                let section_key = crate::util::key_parent(leaf.key.as_str());
                // does the exact section instance already exist?
                let mut exact: bool = false;
                let mut j: usize = 0;
                while j < self.sections.len()
                    invariant
                        j <= self.sections@.len(),
                        self@ == prev,
                        self@.len() == self.sections@.len(),
                        forall|t: int| 0 <= t < self.sections@.len() ==> self@[t] == (
                        #[trigger] self.sections@[t])@,
                        section_key@ == spec_key_parent(leaves[i as int].key),
                        idx == leaves[i as int].array_index->0,
                        exact ==> spec_exists_exact(prev, section_key@, idx),
                        !exact ==> forall|t: int|
                            0 <= t < j ==> !(prev[t].key == section_key@ && prev[t].array_index
                                == Some(idx)),
                    decreases self.sections@.len() - j,
                {
                    if crate::util::eq_str(self.sections[j].key.as_str(), section_key.as_str())
                        && eq_opt_idx(self.sections[j].array_index, Some(idx)) {
                        exact = true;
                    }
                    j = j + 1;
                }
                if !exact {
                    // find the first section sharing the parent path
                    let mut fnd: bool = false;
                    let mut fnd_at: usize = 0;
                    let mut t: usize = 0;
                    while t < self.sections.len() && !fnd
                        invariant
                            t <= self.sections@.len(),
                            self@ == prev,
                            self@.len() == self.sections@.len(),
                            forall|u: int| 0 <= u < self.sections@.len() ==> self@[u] == (
                            #[trigger] self.sections@[u])@,
                            !fnd ==> forall|u: int| 0 <= u < t ==> prev[u].key != section_key@,
                            fnd ==> fnd_at < self.sections@.len() && prev[fnd_at as int].key
                                == section_key@ && (forall|u: int|
                                0 <= u < fnd_at ==> prev[u].key != section_key@),
                        decreases self.sections@.len() - t,
                    {
                        if crate::util::eq_str(
                            self.sections[t].key.as_str(),
                            section_key.as_str(),
                        ) {
                            fnd = true;
                            fnd_at = t;
                        }
                        t = t + 1;
                    }
                    if fnd {
                        let mut section = self.sections[fnd_at].clone();
                        section.array_index = Some(idx);
                        let ghost sm = section@;
                        self.sections.push(section);
                        proof {
                            lemma_first_with_key(prev, section_key@, fnd_at as int);
                            assert(sm =~= (SpecSection {
                                array_index: Some(idx),
                                ..spec_first_with_key(prev, section_key@)
                            }));
                            assert(self@ =~= prev.push(sm));
                            assert(spec_exists_key(prev, section_key@));
                            assert(!spec_exists_exact(prev, section_key@, idx));
                        }
                    } else {
                        proof {
                            assert(!spec_exists_key(prev, section_key@));
                        }
                    }
                }
            }
            proof {
                let tk = leaves.take(i + 1);
                assert(tk.drop_last() =~= leaves.take(i as int));
                assert(tk.last() == leaves[i as int]);
                assert(self@ =~= spec_merge_clone_step(prev, leaves[i as int]));
            }
            i = i + 1;
        }
        proof {
            assert(leaves.take(values@.len() as int) =~= leaves);
        }
        // assignment phase: set each leaf's value on the block holding its key
        let ghost ss1 = self@;
        let mut values = values;
        let n0 = values.len();
        let mut k: usize = 0;
        proof {
            assert(leaves.take(0) =~= Seq::<SpecBlockValue>::empty());
            assert(values@.skip(0) =~= values@);
        }
        while values.len() > 0
            invariant
                k + values.len() == n0,
                leaves.len() == n0,
                forall|j: int| 0 <= j < values@.len() ==> (#[trigger] values@[j])@ == leaves[k + j],
                self@ == spec_merge_assign_phase(ss1, leaves.take(k as int)),
            decreases values.len(),
        {
            let ghost vprev = values@;
            let leaf = values.remove(0);
            let ghost lm = leaf@;
            proof {
                assert(vprev[0]@ == leaves[k as int]);
                assert forall|j: int| 0 <= j < values@.len() implies (#[trigger] values@[j])@
                    == leaves[k + 1 + j] by {
                    assert(values@[j] == vprev[j + 1]);
                }
            }
            let ghost sprev = self@;
            if leaf.value.is_some() {
                // find the first section the leaf lands in
                let mut sfound: bool = false;
                let mut sfound_at: usize = 0;
                let mut bfound_at: usize = 0;
                let mut si: usize = 0;
                while si < self.sections.len() && !sfound
                    invariant
                        si <= self.sections@.len(),
                        self@ == sprev,
                        self@.len() == self.sections@.len(),
                        forall|u: int| 0 <= u < self.sections@.len() ==> self@[u] == (
                        #[trigger] self.sections@[u])@,
                        lm == leaf@,
                        !sfound ==> forall|u: int|
                            0 <= u < si ==> !spec_section_matches(sprev[u], lm),
                        sfound ==> sfound_at < self.sections@.len() && spec_section_matches(
                            sprev[sfound_at as int],
                            lm,
                        ) && (forall|u: int|
                            0 <= u < sfound_at ==> !spec_section_matches(sprev[u], lm))
                            && bfound_at < sprev[sfound_at as int].blocks.len()
                            && sprev[sfound_at as int].blocks[bfound_at as int].key == lm.key && (
                        forall|u: int|
                            0 <= u < bfound_at ==> sprev[sfound_at as int].blocks[u].key
                                != lm.key),
                    decreases self.sections@.len() - si,
                {
                    if eq_opt_idx(self.sections[si].array_index, leaf.array_index) {
                        let ghost bm = self.sections@[si as int]@.blocks;
                        let mut bfound: bool = false;
                        let mut bi: usize = 0;
                        let nblocks = self.sections[si].blocks.len();
                        while bi < nblocks && !bfound
                            invariant
                                bi <= bm.len(),
                                nblocks == bm.len(),
                                si < self.sections@.len(),
                                self@ == sprev,
                                bm == sprev[si as int].blocks,
                                self@.len() == self.sections@.len(),
                                forall|u: int| 0 <= u < self.sections@.len() ==> self@[u] == (
                                #[trigger] self.sections@[u])@,
                                lm == leaf@,
                                !bfound ==> forall|u: int| 0 <= u < bi ==> bm[u].key != lm.key,
                                bfound ==> bfound_at < bm.len() && bm[bfound_at as int].key
                                    == lm.key && (forall|u: int|
                                    0 <= u < bfound_at ==> bm[u].key != lm.key),
                            decreases bm.len() - bi,
                        {
                            proof {
                                assert(bm[bi as int] == self.sections@[si as int]@.blocks[
                                    bi as int
                                ]);
                            }
                            if crate::util::eq_str(
                                self.sections[si].blocks[bi].key.as_str(),
                                leaf.key.as_str(),
                            ) {
                                bfound = true;
                                bfound_at = bi;
                            }
                            bi = bi + 1;
                        }
                        if bfound {
                            sfound = true;
                            sfound_at = si;
                        } else {
                            proof {
                                assert(!spec_section_matches(sprev[si as int], lm));
                            }
                        }
                    } else {
                        proof {
                            assert(!spec_section_matches(sprev[si as int], lm));
                        }
                    }
                    si = si + 1;
                }
                if sfound {
                    let mut section = self.sections.remove(sfound_at);
                    let mut block = section.blocks.remove(bfound_at);
                    block.value = Some(leaf);
                    let ghost blockm = block@;
                    section.blocks.insert(bfound_at, block);
                    let ghost sectionm = section@;
                    self.sections.insert(sfound_at, section);
                    proof {
                        lemma_assign_block_list_found(
                            sprev[sfound_at as int].blocks,
                            lm,
                            bfound_at as int,
                        );
                        assert(blockm =~= (SpecBlock {
                            value: Some(lm),
                            ..sprev[sfound_at as int].blocks[bfound_at as int]
                        }));
                        assert(sectionm.blocks =~= spec_assign_block_list(
                            sprev[sfound_at as int].blocks,
                            lm,
                        ));
                        assert(sectionm =~= (SpecSection {
                            blocks: spec_assign_block_list(sprev[sfound_at as int].blocks, lm),
                            ..sprev[sfound_at as int]
                        }));
                        lemma_assign_sections_found(sprev, lm, sfound_at as int);
                        assert(self@ =~= sprev.update(sfound_at as int, sectionm));
                        assert(self@ =~= spec_assign_sections(sprev, lm));
                    }
                } else {
                    proof {
                        lemma_assign_sections_missing(sprev, lm);
                    }
                }
            }
            proof {
                let tk = leaves.take(k + 1);
                assert(tk.drop_last() =~= leaves.take(k as int));
                assert(tk.last() == leaves[k as int]);
                assert(self@ =~= spec_merge_assign_step(sprev, leaves[k as int]));
            }
            k = k + 1;
        }
        proof {
            assert(leaves.take(n0 as int) =~= leaves);
        }
        Ok(())
    }
}

// ---- bulk configuration ----

/// A block with its commented flag set to `c`.
pub open spec fn spec_block_with_commented(b: SpecBlock, c: bool) -> SpecBlock {
    SpecBlock { meta: SpecMeta { config: TomlConfig { commented: c, ..b.meta.config }, ..b.meta }, ..b }
}

/// A section, blocks included, with every commented flag set to `c`.
pub open spec fn spec_section_with_commented(s: SpecSection, c: bool) -> SpecSection {
    SpecSection {
        meta: SpecMeta { config: TomlConfig { commented: c, ..s.meta.config }, ..s.meta },
        blocks: s.blocks.map_values(|b: SpecBlock| spec_block_with_commented(b, c)),
        ..s
    }
}

/// A block with its comment style forced to `Hide`.
pub open spec fn spec_block_with_hide(b: SpecBlock) -> SpecBlock {
    SpecBlock {
        meta: SpecMeta {
            config: TomlConfig { comment_style: Some(CommentStyle::Hide), ..b.meta.config },
            ..b.meta
        },
        ..b
    }
}

/// A section, blocks included, with every comment style forced to `Hide`.
pub open spec fn spec_section_with_hide(s: SpecSection) -> SpecSection {
    SpecSection {
        meta: SpecMeta {
            config: TomlConfig { comment_style: Some(CommentStyle::Hide), ..s.meta.config },
            ..s.meta
        },
        blocks: s.blocks.map_values(|b: SpecBlock| spec_block_with_hide(b)),
        ..s
    }
}

impl TomlContent {
    /// Sets the commented flag of every section and block: `false` renders
    /// the whole skeleton active, `true` renders unmerged lines inactive.
    pub fn config_commented(&mut self, commented: bool)
        ensures
            final(self)@ == old(self)@.map_values(
                |s: SpecSection| spec_section_with_commented(s, commented),
            ),
    {
        let ghost model = self@;
        let mut i: usize = 0;
        while i < self.sections.len()
            invariant
                i <= self.sections@.len(),
                self.sections@.len() == model.len(),
                forall|j: int|
                    0 <= j < i ==> (#[trigger] self.sections@[j])@ == spec_section_with_commented(
                        model[j],
                        commented,
                    ),
                forall|j: int|
                    i <= j < model.len() ==> (#[trigger] self.sections@[j])@ == model[j],
            decreases self.sections@.len() - i,
        {
            let mut section = self.sections.remove(i);
            let ghost sm = section@;
            section.meta.config.commented = commented;
            let ghost bmodel = sm.blocks;
            let mut j: usize = 0;
            while j < section.blocks.len()
                invariant
                    j <= section.blocks@.len(),
                    section.blocks@.len() == bmodel.len(),
                    section.key@ == sm.key,
                    section.array_index == sm.array_index,
                    section.meta@ == (SpecMeta {
                        config: TomlConfig { commented: commented, ..sm.meta.config },
                        ..sm.meta
                    }),
                    forall|u: int|
                        0 <= u < j ==> (#[trigger] section.blocks@[u])@
                            == spec_block_with_commented(bmodel[u], commented),
                    forall|u: int|
                        j <= u < bmodel.len() ==> (#[trigger] section.blocks@[u])@ == bmodel[u],
                decreases section.blocks@.len() - j,
            {
                let mut b = section.blocks.remove(j);
                b.meta.config.commented = commented;
                section.blocks.insert(j, b);
                j = j + 1;
            }
            proof {
                assert(section@.blocks =~= bmodel.map_values(
                    |b: SpecBlock| spec_block_with_commented(b, commented),
                ));
                assert(section@ =~= spec_section_with_commented(sm, commented));
            }
            self.sections.insert(i, section);
            i = i + 1;
        }
        proof {
            assert(self@ =~= model.map_values(
                |s: SpecSection| spec_section_with_commented(s, commented),
            ));
        }
    }

    /// Forces the comment style of every section and block to `Hide`, so
    /// only headers and assignment lines are rendered.
    pub fn config_comment_style_hide(&mut self)
        ensures
            final(self)@ == old(self)@.map_values(|s: SpecSection| spec_section_with_hide(s)),
    {
        let ghost model = self@;
        let mut i: usize = 0;
        while i < self.sections.len()
            invariant
                i <= self.sections@.len(),
                self.sections@.len() == model.len(),
                forall|j: int|
                    0 <= j < i ==> (#[trigger] self.sections@[j])@ == spec_section_with_hide(
                        model[j],
                    ),
                forall|j: int|
                    i <= j < model.len() ==> (#[trigger] self.sections@[j])@ == model[j],
            decreases self.sections@.len() - i,
        {
            let mut section = self.sections.remove(i);
            let ghost sm = section@;
            section.meta.config.comment_style = Some(CommentStyle::Hide);
            let ghost bmodel = sm.blocks;
            let mut j: usize = 0;
            while j < section.blocks.len()
                invariant
                    j <= section.blocks@.len(),
                    section.blocks@.len() == bmodel.len(),
                    section.key@ == sm.key,
                    section.array_index == sm.array_index,
                    section.meta@ == (SpecMeta {
                        config: TomlConfig {
                            comment_style: Some(CommentStyle::Hide),
                            ..sm.meta.config
                        },
                        ..sm.meta
                    }),
                    forall|u: int|
                        0 <= u < j ==> (#[trigger] section.blocks@[u])@ == spec_block_with_hide(
                            bmodel[u],
                        ),
                    forall|u: int|
                        j <= u < bmodel.len() ==> (#[trigger] section.blocks@[u])@ == bmodel[u],
                decreases section.blocks@.len() - j,
            {
                let mut b = section.blocks.remove(j);
                b.meta.config.comment_style = Some(CommentStyle::Hide);
                section.blocks.insert(j, b);
                j = j + 1;
            }
            proof {
                assert(section@.blocks =~= bmodel.map_values(
                    |b: SpecBlock| spec_block_with_hide(b),
                ));
                assert(section@ =~= spec_section_with_hide(sm));
            }
            self.sections.insert(i, section);
            i = i + 1;
        }
        proof {
            assert(self@ =~= model.map_values(|s: SpecSection| spec_section_with_hide(s)));
        }
    }
}

// ---- rendering ----

/// The renderings of the sections, in order.
pub open spec fn spec_section_render_list(ss: Seq<SpecSection>) -> Seq<Seq<char>>
    decreases ss,
{
    if ss.len() == 0 {
        Seq::empty()
    } else {
        spec_section_render_list(ss.drop_last()).push(spec_section_render(ss.last()))
    }
}

/// The whole document: the sections' non-blank renderings separated by one
/// blank line, the result trimmed of leading and trailing blank space.
pub open spec fn spec_content_render(ss: Seq<SpecSection>) -> Seq<char> {
    spec_trim(spec_join_nonblank(spec_section_render_list(ss), seq!['\n', '\n']))
}

impl TomlContent {
    /// Renders the document; never fails.
    pub fn render(&self) -> (r: Result<String, Error>)
        ensures
            r is Ok,
            r->Ok_0@ == spec_content_render(self@),
    {
        let ghost model = self@;
        let mut lines: Vec<String> = Vec::new();
        let mut i: usize = 0;
        proof {
            assert(spec_section_render_list(model.take(0)) =~= Seq::<Seq<char>>::empty());
            assert(lines@.map_values(|p: String| p@) =~= Seq::<Seq<char>>::empty());
        }
        while i < self.sections.len()
            invariant
                i <= self.sections@.len(),
                model == self@,
                model.len() == self.sections@.len(),
                forall|j: int| 0 <= j < model.len() ==> model[j] == (
                #[trigger] self.sections@[j])@,
                lines@.map_values(|p: String| p@) == spec_section_render_list(
                    model.take(i as int),
                ),
            decreases self.sections@.len() - i,
        {
            let ghost prev = lines@.map_values(|p: String| p@);
            let line = match self.sections[i].render() {
                Ok(t) => t,
                Err(e) => {
                    return Err(e);
                },
            };
            lines.push(line);
            proof {
                let t = model.take(i + 1);
                assert(t.drop_last() =~= model.take(i as int));
                assert(t.last() == model[i as int]);
                assert(lines@.map_values(|p: String| p@) =~= prev.push(
                    spec_section_render(model[i as int]),
                ));
            }
            i = i + 1;
        }
        proof {
            assert(model.take(model.len() as int) =~= model);
        }
        let sep = double_newline_str();
        let joined = join_nonblank(&lines, sep);
        Ok(trim_str(joined.as_str()))
    }
}

fn double_newline_str() -> (r: &'static str)
    ensures
        r@ == seq!['\n', '\n'],
{
    let s = "\n\n";
    proof {
        reveal_strlit("\n\n");
        assert(s@ =~= seq!['\n', '\n']);
    }
    s
}

/// Rendering is stable: the document is a function of the section list
/// alone, so rendering the same skeleton twice yields the same text.
pub proof fn lemma_render_stable(ss: Seq<SpecSection>, r1: Seq<char>, r2: Seq<char>)
    requires
        r1 == spec_content_render(ss),
        r2 == spec_content_render(ss),
    ensures
        r1 == r2,
{
}

/// Building and rendering a skeleton is stable across repeated calls: the
/// text depends on the schema alone, with no hidden state.
pub proof fn lemma_skeleton_render_stable(schema: crate::schema::SpecSchema, r1: Seq<char>, r2: Seq<char>)
    requires
        r1 == spec_content_render(crate::schema::spec_schema_flatten(schema)),
        r2 == spec_content_render(crate::schema::spec_schema_flatten(schema)),
    ensures
        r1 == r2,
{
}

/// Assigning one leaf touches exactly one block: in the first section the
/// leaf lands in, the first block holding the leaf's key path takes the leaf
/// as its value; every other block of every section is left untouched.
pub proof fn lemma_assign_touches_one_block(ss: Seq<SpecSection>, leaf: SpecBlockValue, i: int, j: int)
    requires
        0 <= i < ss.len(),
        spec_section_matches(ss[i], leaf),
        forall|u: int| 0 <= u < i ==> !spec_section_matches(ss[u], leaf),
        0 <= j < ss[i].blocks.len(),
        ss[i].blocks[j].key == leaf.key,
        forall|u: int| 0 <= u < j ==> ss[i].blocks[u].key != leaf.key,
    ensures
        spec_assign_sections(ss, leaf).len() == ss.len(),
        forall|u: int| 0 <= u < ss.len() && u != i ==> spec_assign_sections(ss, leaf)[u] == ss[u],
        spec_assign_sections(ss, leaf)[i].blocks.len() == ss[i].blocks.len(),
        forall|u: int|
            0 <= u < ss[i].blocks.len() && u != j ==> spec_assign_sections(ss, leaf)[i].blocks[u]
                == ss[i].blocks[u],
        spec_assign_sections(ss, leaf)[i].blocks[j] == (SpecBlock {
            value: Some(leaf),
            ..ss[i].blocks[j]
        }),
        spec_assign_sections(ss, leaf)[i].key == ss[i].key,
{
    lemma_assign_block_list_found(ss[i].blocks, leaf, j);
    lemma_assign_sections_found(ss, leaf, i);
}

/// Two blocks that differ at most in their merged value.
pub open spec fn spec_same_block_shape(a: SpecBlock, b: SpecBlock) -> bool {
    a.key == b.key && a.ident == b.ident && a.meta == b.meta && a.variants == b.variants
}

/// Two sections with the same identity and the same block skeleton: merging
/// may only have changed which values the blocks hold.
pub open spec fn spec_same_section_shape(a: SpecSection, b: SpecSection) -> bool {
    a.key == b.key && a.meta == b.meta && a.array_index == b.array_index && a.blocks.len()
        == b.blocks.len() && forall|j: int|
        0 <= j < a.blocks.len() ==> spec_same_block_shape(a.blocks[j], b.blocks[j])
}

proof fn lemma_clone_phase_keeps_prefix(ss: Seq<SpecSection>, leaves: Seq<SpecBlockValue>)
    ensures
        spec_merge_clone_phase(ss, leaves).len() >= ss.len(),
        forall|i: int| 0 <= i < ss.len() ==> spec_merge_clone_phase(ss, leaves)[i] == ss[i],
    decreases leaves,
{
    if leaves.len() > 0 {
        lemma_clone_phase_keeps_prefix(ss, leaves.drop_last());
    }
}

proof fn lemma_assign_block_list_keeps_shape(blocks: Seq<SpecBlock>, leaf: SpecBlockValue)
    ensures
        spec_assign_block_list(blocks, leaf).len() == blocks.len(),
        forall|j: int|
            0 <= j < blocks.len() ==> spec_same_block_shape(
                spec_assign_block_list(blocks, leaf)[j],
                blocks[j],
            ),
    decreases blocks,
{
    if blocks.len() > 0 {
        lemma_assign_block_list_keeps_shape(blocks.skip(1), leaf);
        let r = spec_assign_block_list(blocks, leaf);
        if blocks[0].key == leaf.key {
            assert forall|j: int| 0 <= j < blocks.len() implies spec_same_block_shape(
                r[j],
                blocks[j],
            ) by {
                if j > 0 {
                    assert(r[j] == blocks.skip(1)[j - 1]);
                }
            }
        } else {
            assert forall|j: int| 0 <= j < blocks.len() implies spec_same_block_shape(
                r[j],
                blocks[j],
            ) by {
                if j > 0 {
                    assert(r[j] == spec_assign_block_list(blocks.skip(1), leaf)[j - 1]);
                    assert(blocks[j] == blocks.skip(1)[j - 1]);
                }
            }
        }
    }
}

proof fn lemma_assign_sections_keeps_shape(ss: Seq<SpecSection>, leaf: SpecBlockValue)
    ensures
        spec_assign_sections(ss, leaf).len() == ss.len(),
        forall|i: int|
            0 <= i < ss.len() ==> spec_same_section_shape(
                spec_assign_sections(ss, leaf)[i],
                ss[i],
            ),
    decreases ss,
{
    if ss.len() > 0 {
        lemma_assign_sections_keeps_shape(ss.skip(1), leaf);
        let r = spec_assign_sections(ss, leaf);
        if spec_section_matches(ss[0], leaf) {
            lemma_assign_block_list_keeps_shape(ss[0].blocks, leaf);
            assert forall|i: int| 0 <= i < ss.len() implies spec_same_section_shape(
                r[i],
                ss[i],
            ) by {
                if i > 0 {
                    assert(r[i] == ss.skip(1)[i - 1]);
                    assert(spec_same_section_shape(ss[i], ss[i]));
                }
            }
        } else {
            assert forall|i: int| 0 <= i < ss.len() implies spec_same_section_shape(
                r[i],
                ss[i],
            ) by {
                if i > 0 {
                    assert(r[i] == spec_assign_sections(ss.skip(1), leaf)[i - 1]);
                    assert(ss[i] == ss.skip(1)[i - 1]);
                } else {
                    assert(spec_same_section_shape(ss[0], ss[0]));
                }
            }
        }
    }
}

proof fn lemma_assign_phase_keeps_shape(ss: Seq<SpecSection>, leaves: Seq<SpecBlockValue>)
    ensures
        spec_merge_assign_phase(ss, leaves).len() == ss.len(),
        forall|i: int|
            0 <= i < ss.len() ==> spec_same_section_shape(
                spec_merge_assign_phase(ss, leaves)[i],
                ss[i],
            ),
    decreases leaves,
{
    if leaves.len() > 0 {
        lemma_assign_phase_keeps_shape(ss, leaves.drop_last());
        let prev = spec_merge_assign_phase(ss, leaves.drop_last());
        let leaf = leaves.last();
        if leaf.value is Some {
            lemma_assign_sections_keeps_shape(prev, leaf);
            assert forall|i: int| 0 <= i < ss.len() implies spec_same_section_shape(
                spec_merge_assign_phase(ss, leaves)[i],
                ss[i],
            ) by {
                assert(spec_same_section_shape(spec_assign_sections(prev, leaf)[i], prev[i]));
                assert(spec_same_section_shape(prev[i], ss[i]));
            }
        }
    }
}

/// Merging never deletes: every section of the skeleton survives the merge
/// in place, with its key, metadata, element position and every block's
/// identity unchanged — merging only sets block values and appends cloned
/// array-section instances at the end. This is why the skeleton stays
/// complete even for partially populated instances.
pub proof fn lemma_merge_never_deletes(ss: Seq<SpecSection>, v: SpecValue)
    ensures
        spec_merge_value(ss, v).len() >= ss.len(),
        forall|i: int|
            0 <= i < ss.len() ==> spec_same_section_shape(spec_merge_value(ss, v)[i], ss[i]),
{
    let leaves = spec_value_flatten(v);
    let cloned = spec_merge_clone_phase(ss, leaves);
    lemma_clone_phase_keeps_prefix(ss, leaves);
    lemma_assign_phase_keeps_shape(cloned, leaves);
    assert forall|i: int| 0 <= i < ss.len() implies spec_same_section_shape(
        spec_merge_value(ss, v)[i],
        ss[i],
    ) by {
        assert(spec_same_section_shape(spec_merge_assign_phase(cloned, leaves)[i], cloned[i]));
        assert(cloned[i] == ss[i]);
        assert(spec_same_section_shape(ss[i], ss[i]));
    }
}

} // verus!
