//! The document being worked on and the operations on it.
use crate::blocks::{
    blocks_view_items, compress_block_types, compressed, item_holds, items_of_runs, runs_do_not_wrap,
    wrap16,
    Block, BlockItem, BlockType,
};
use crate::commands::{
    edit_model, label_view, same_outside_edits, EditModel, set_range, toggled, undo_message, redo_message, Command,
    UndoStack,
};
use crate::document::{duplicate_labels, DocumentSettings, ImmediateFormat, Label, SystemConfig};
use crate::maps::sorted_keys;
use crate::listing::{
    covers_address, is_first_match, line_for_address_spec, line_index_containing_address,
    line_index_for_address, DisassemblyLine,
};
use std::collections::{BTreeMap, BTreeSet, HashSet};
use vstd::prelude::*;

verus! {

broadcast use {vstd::std_specs::btree::group_btree_axioms, vstd::laws_cmp::group_laws_cmp};

/// The open document: memory image, its interpretation, annotations and
/// the undo history.
pub struct AppState {
    pub file_path: Option<String>,
    pub project_path: Option<String>,
    pub export_path: Option<String>,
    pub raw_data: Vec<u8>,
    pub disassembly: Vec<DisassemblyLine>,
    pub origin: u16,
    pub block_types: Vec<BlockType>,
    pub labels: BTreeMap<u16, Vec<Label>>,
    pub settings: DocumentSettings,
    pub system_comments: BTreeMap<u16, String>,
    pub user_side_comments: BTreeMap<u16, String>,
    pub user_line_comments: BTreeMap<u16, String>,
    pub immediate_value_formats: BTreeMap<u16, ImmediateFormat>,
    pub cross_refs: BTreeMap<u16, Vec<u16>>,
    pub system_config: SystemConfig,
    pub undo_stack: UndoStack,
    pub last_saved_pointer: usize,
    pub excluded_addresses: HashSet<u16>,
    pub collapsed_blocks: Vec<(usize, usize)>,
    pub splitters: BTreeSet<u16>,
}

/// `addr` lies outside the image of `len` bytes loaded at `origin`
/// (addresses wrap at 16 bits).
pub open spec fn outside_image(origin: u16, len: nat, addr: u16) -> bool {
    let end = wrap16(origin + wrap16(len as int));
    if origin < end {
        addr < origin || addr >= end
    } else {
        !(addr >= origin || addr < end)
    }
}

impl AppState {
    /// An empty document using the given application settings.
    pub fn with_config(system_config: SystemConfig) -> (s: AppState)
        ensures
            s.file_path is None,
            s.project_path is None,
            s.export_path is None,
            s.system_config == system_config,
            s.raw_data@.len() == 0,
            s.disassembly@.len() == 0,
            s.origin == 0,
            s.block_types@.len() == 0,
            s.labels@.is_empty(),
            s.settings == crate::document::default_settings(),
            s.system_comments@.is_empty(),
            s.user_side_comments@.is_empty(),
            s.user_line_comments@.is_empty(),
            s.immediate_value_formats@.is_empty(),
            s.cross_refs@.is_empty(),
            s.undo_stack.pointer() == 0,
            s.undo_stack.commands().len() == 0,
            s.last_saved_pointer == 0,
            s.excluded_addresses@.is_empty(),
            s.collapsed_blocks@.len() == 0,
            s.splitters@.is_empty(),
    {
        AppState {
            file_path: None,
            project_path: None,
            export_path: None,
            raw_data: Vec::new(),
            disassembly: Vec::new(),
            origin: 0,
            block_types: Vec::new(),
            labels: BTreeMap::new(),
            settings: DocumentSettings::default(),
            system_comments: BTreeMap::new(),
            user_side_comments: BTreeMap::new(),
            user_line_comments: BTreeMap::new(),
            immediate_value_formats: BTreeMap::new(),
            cross_refs: BTreeMap::new(),
            system_config,
            undo_stack: UndoStack::new(),
            last_saved_pointer: 0,
            excluded_addresses: HashSet::new(),
            collapsed_blocks: Vec::new(),
            splitters: BTreeSet::new(),
        }
    }

    /// An empty document with the default application settings.
    pub fn new() -> (s: AppState)
        ensures
            s.file_path is None,
            s.project_path is None,
            s.raw_data@.len() == 0,
            s.disassembly@.len() == 0,
            s.origin == 0,
            s.block_types@.len() == 0,
            s.labels@.is_empty(),
            s.settings == crate::document::default_settings(),
            s.undo_stack.pointer() == 0,
            s.last_saved_pointer == 0,
            s.collapsed_blocks@.len() == 0,
            s.splitters@.is_empty(),
            s.system_config.open_last_project,
            s.system_config.last_project_path is None,
    {
        AppState::with_config(SystemConfig::default())
    }

    /// The run-length encoding of the block types (see `compress_block_types`).
    pub fn get_compressed_blocks(&self) -> (r: Vec<Block>)
        ensures
            r@ == compressed(self.block_types@, self.collapsed_blocks@),
    {
        compress_block_types(self.block_types.as_slice(), self.collapsed_blocks.as_slice())
    }

    /// `addr` lies outside the loaded image.
    pub fn is_external(&self, addr: u16) -> (r: bool)
        ensures
            r == outside_image(self.origin, self.raw_data@.len(), addr),
            self.raw_data@.len() % 65536 != 0 ==> (r <==> (addr - self.origin) % 65536
                >= self.raw_data@.len() % 65536),
            self.raw_data@.len() % 65536 == 0 ==> !r,
    {
        let len = self.raw_data.len();
        proof {
            crate::blocks::lemma_trunc16(len);
            law_outside_image(self.origin, len as nat, addr);
        }
        let end = self.origin.wrapping_add(len as u16);
        if self.origin < end {
            addr < self.origin || addr >= end
        } else {
            !(addr >= self.origin || addr < end)
        }
    }

    /// Index of the listing line to show for `address` (see
    /// `line_for_address_spec`).
    pub fn get_line_index_for_address(&self, address: u16) -> (r: Option<usize>)
        ensures
            line_for_address_spec(self.disassembly@, address, r),
    {
        line_index_for_address(&self.disassembly, address)
    }

    /// Index of the first listing line that covers `address`.
    pub fn get_line_index_containing_address(&self, address: u16) -> (r: Option<usize>)
        ensures
            is_first_match(self.disassembly@, covers_address(address), r),
    {
        line_index_containing_address(&self.disassembly, address)
    }

    /// The address range of the run of equal block types around `address`,
    /// or `None` when the address is below the origin or past the image.
    pub fn get_block_range(&self, address: u16) -> (r: Option<(u16, u16)>)
        ensures
            address < self.origin || address - self.origin >= self.block_types@.len() ==> r is None,
            address >= self.origin && address - self.origin < self.block_types@.len() ==> exists|
                s: int,
                e: int,
            |
                #![trigger maximal_run(self.block_types@, (address - self.origin) as int, s, e)]
                maximal_run(self.block_types@, (address - self.origin) as int, s, e) && r == Some(
                    (wrap16(self.origin + wrap16(s)) as u16, wrap16(self.origin + wrap16(e)) as u16),
                ),
    {
        let origin = self.origin;
        if address < origin {
            return None;
        }
        let index = (address - origin) as usize;
        if index >= self.block_types.len() {
            return None;
        }
        let target_type = self.block_types[index];
        let mut start = index;
        let mut end = index;
        while start > 0 && self.block_types[start - 1] == target_type
            invariant
                start <= index < self.block_types@.len(),
                target_type == self.block_types@[index as int],
                forall|j: int| start <= j <= index ==> #[trigger] self.block_types@[j] == target_type,
            decreases start,
        {
            start = start - 1;
        }
        while end < self.block_types.len() - 1 && self.block_types[end + 1] == target_type
            invariant
                index <= end < self.block_types@.len(),
                target_type == self.block_types@[index as int],
                forall|j: int| index <= j <= end ==> #[trigger] self.block_types@[j] == target_type,
            decreases self.block_types@.len() - end,
        {
            end = end + 1;
        }
        proof {
            crate::blocks::lemma_trunc16(start);
            crate::blocks::lemma_trunc16(end);
        }
        let start_addr = origin.wrapping_add(start as u16);
        let end_addr = origin.wrapping_add(end as u16);
        assert(maximal_run(self.block_types@, index as int, start as int, end as int));
        Some((start_addr, end_addr))
    }

    /// Index of the first blocks-overview entry that holds `address` (a
    /// splitter entry holds only its own address).
    pub fn get_block_index_for_address(&self, address: u16) -> (r: Option<usize>)
        requires
            runs_do_not_wrap(compressed(self.block_types@, self.collapsed_blocks@), self.origin),
        ensures
            is_first_match(
                items_of_runs(
                    compressed(self.block_types@, self.collapsed_blocks@),
                    self.splitters@,
                    self.origin,
                    compressed(self.block_types@, self.collapsed_blocks@).len(),
                ),
                item_holds(self.origin, address),
                r,
            ),
    {
        let items = self.get_blocks_view_items();
        crate::blocks::first_item_holding(&items, self.origin, address)
    }

    /// The unsaved-changes indicator: the undo position differs from the
    /// position at the last save.
    pub fn is_dirty(&self) -> (r: bool)
        ensures
            r == (self.undo_stack.pointer() != self.last_saved_pointer),
    {
        self.undo_stack.get_pointer() != self.last_saved_pointer
    }

    /// The blocks overview of the document (see `blocks_view_items`).
    pub fn get_blocks_view_items(&self) -> (items: Vec<BlockItem>)
        requires
            runs_do_not_wrap(compressed(self.block_types@, self.collapsed_blocks@), self.origin),
        ensures
            items@ == items_of_runs(
                compressed(self.block_types@, self.collapsed_blocks@),
                self.splitters@,
                self.origin,
                compressed(self.block_types@, self.collapsed_blocks@).len(),
            ),
    {
        blocks_view_items(
            self.block_types.as_slice(),
            self.collapsed_blocks.as_slice(),
            &self.splitters,
            self.origin,
        )
    }

    /// Records a command that has just been applied. When the saved
    /// position lies among the undone commands that this drops, the saved
    /// state becomes unreachable and the saved position is set to
    /// `usize::MAX`.
    pub fn push_command(&mut self, command: Command)
        ensures
            final(self).undo_stack.commands() == old(self).undo_stack.commands().take(
                old(self).undo_stack.pointer() as int,
            ).push(command),
            final(self).undo_stack.pointer() == old(self).undo_stack.pointer() + 1,
            old(self).undo_stack.pointer() <= old(self).undo_stack.commands().len(),
            final(self).last_saved_pointer == if old(self).undo_stack.pointer()
                < old(self).last_saved_pointer {
                usize::MAX
            } else {
                old(self).last_saved_pointer
            },
            same_except_history(old(self), final(self)),
            old(self).undo_stack.pointer() + 1 < usize::MAX ==> final(self).undo_stack.pointer()
                != final(self).last_saved_pointer,
    {
        if self.undo_stack.get_pointer() < self.last_saved_pointer {
            self.last_saved_pointer = usize::MAX;
        }
        self.undo_stack.push(command);
    }

    /// Reverts the most recent applied edit; returns the status text.
    pub fn undo_last_command(&mut self) -> (msg: String)
        ensures
            undone(old(self), final(self), msg@),
    {
        let mut stack = UndoStack::new();
        std::mem::swap(&mut stack, &mut self.undo_stack);
        let msg = match stack.undo(self) {
            Some(msg) => msg,
            None => "Nothing to undo".to_string(),
        };
        std::mem::swap(&mut stack, &mut self.undo_stack);
        msg
    }

    /// Re-applies the first undone edit; returns the status text.
    pub fn redo_last_command(&mut self) -> (msg: String)
        ensures
            redone(old(self), final(self), msg@),
    {
        let _ = self.undo_stack.get_pointer();
        let mut stack = UndoStack::new();
        std::mem::swap(&mut stack, &mut self.undo_stack);
        let msg = match stack.redo(self) {
            Some(msg) => msg,
            None => "Nothing to redo".to_string(),
        };
        std::mem::swap(&mut stack, &mut self.undo_stack);
        msg
    }

    /// Installs an analysis result (new labels and cross references) as an
    /// undoable edit and returns the status text. The undo record keeps,
    /// for every address the result labels, the labels it had before.
    pub fn perform_analysis(
        &mut self,
        labels: BTreeMap<u16, Vec<Label>>,
        cross_refs: BTreeMap<u16, Vec<u16>>,
    ) -> (msg: String)
        ensures
            msg@ == "Analysis Complete"@,
            analysis_installed(old(self), final(self), labels, cross_refs),
    {
        let keys = sorted_keys(&labels);
        let mut old_labels: BTreeMap<u16, Vec<Label>> = BTreeMap::new();
        let ghost mut done: Set<u16> = Set::empty();
        let mut i: usize = 0;
        while i < keys.len()
            invariant
                i <= keys@.len(),
                keys@.to_set() == labels@.dom(),
                done.subset_of(labels@.dom()),
                forall|j: int| 0 <= j < i ==> done.contains(#[trigger] keys@[j]),
                label_view(old_labels@) == labels_before(label_view(self.labels@), done),
            decreases keys@.len() - i,
        {
            let k = keys[i];
            let before = match self.labels.get(&k) {
                Some(v) => duplicate_labels(v),
                None => Vec::new(),
            };
            assert(before@ == if label_view(self.labels@).contains_key(k) {
                label_view(self.labels@)[k]
            } else {
                Seq::<Label>::empty()
            });
            let ghost prev = label_view(old_labels@);
            let ghost done_old = done;
            old_labels.insert(k, before);
            proof {
                assert(keys@.contains(k));
                assert(keys@.to_set().contains(k));
                done = done.insert(k);
            }
            let ghost target = labels_before(label_view(self.labels@), done);
            assert forall|x: u16| #[trigger] label_view(old_labels@).contains_key(x) == target.contains_key(x) by {
                if x != k {
                    assert(done.contains(x) == done_old.contains(x));
                    assert(prev.contains_key(x) == label_view(old_labels@).contains_key(x));
                }
            }
            assert forall|x: u16| #[trigger] label_view(old_labels@).contains_key(x) implies label_view(
                old_labels@,
            )[x] == target[x] by {
                if x != k {
                    assert(done.contains(x) == done_old.contains(x));
                    assert(label_view(old_labels@)[x] == old_labels@[x]@);
                    assert(prev[x] == old_labels@[x]@);
                } else {
                    assert(label_view(old_labels@)[x] == old_labels@[x]@);
                }
            }
            assert(label_view(old_labels@) =~= target);
            i = i + 1;
        }
        assert(done =~= labels@.dom()) by {
            assert forall|x: u16| labels@.dom().contains(x) implies done.contains(x) by {
                assert(keys@.to_set().contains(x));
                let j = choose|j: int| 0 <= j < keys@.len() && keys@[j] == x;
                assert(done.contains(keys@[j]));
            }
        }
        let old_cross_refs = self.cross_refs.clone();
        let command = Command::SetAnalysisData {
            labels,
            cross_refs,
            old_labels,
            old_cross_refs,
        };
        let ghost before = *self;
        command.apply(self);
        let ghost applied = *self;
        self.push_command(command);
        proof {
            assert(same_outside_edits(&before, &applied));
            assert(same_except_history(&applied, self));
            assert(same_except_edits_and_history(
                &before,
                &AppState { last_saved_pointer: before.last_saved_pointer, ..*self },
            ));
            assert(before == *old(self));
            assert(label_view(self.labels@) == label_view(labels@));
            assert(self.cross_refs@ == cross_refs@);
            assert(self.undo_stack.commands().len() == before.undo_stack.pointer() + 1);
            assert(self.undo_stack.commands().take(before.undo_stack.pointer() as int) == before.undo_stack.commands().take(before.undo_stack.pointer() as int));
        }
        "Analysis Complete".to_string()
    }

    /// Sets the block type of the bytes of the selected listing lines (from
    /// `selection_start` to `cursor_index`, or the cursor line alone) as an
    /// undoable edit. Nothing happens when a line index is past the listing
    /// or the region starts past the image.
    #[verifier::spinoff_prover]
    #[verifier::rlimit(80)]
    pub fn set_block_type_region<F>(
        &mut self,
        new_type: BlockType,
        selection_start: Option<usize>,
        cursor_index: usize,
        analyze: &F,
    ) where F: Fn(&AppState) -> (BTreeMap<u16, Vec<Label>>, BTreeMap<u16, Vec<u16>>)
        requires
            forall|s: &AppState| #[trigger] analyze.requires((s,)),
            region_lines_fit(old(self).disassembly@, selection_start, cursor_index),
            region_within_image(
                old(self).disassembly@,
                old(self).origin,
                old(self).block_types@.len(),
                selection_start,
                cursor_index,
            ),
        ensures
            block_type_region_set(
                old(self),
                final(self),
                new_type,
                selection_start,
                cursor_index,
                *analyze,
            ),
    {
        let n = self.disassembly.len();
        let (first, last) = match selection_start {
            Some(sel) => {
                if sel < cursor_index {
                    (sel, cursor_index)
                } else {
                    (cursor_index, sel)
                }
            },
            None => (cursor_index, cursor_index),
        };
        if last >= n {
            return;
        }
        let start_addr = self.disassembly[first].address;
        let end_line = &self.disassembly[last];
        proof {
            crate::blocks::lemma_trunc16(end_line.bytes@.len() as usize);
        }
        let end_addr_inclusive = end_line.address + end_line.bytes.len() as u16 - 1;
        let start = start_addr.wrapping_sub(self.origin) as usize;
        let end = end_addr_inclusive.wrapping_sub(self.origin) as usize;
        let max_len = self.block_types.len();
        if start < max_len {
            let valid_end = if end < max_len {
                end
            } else {
                max_len
            };
            let range_end = valid_end + 1;
            record_type_edit(self, start, range_end, new_type, analyze);
        }
    }

    /// Adds a splitter at `address`, or removes the one there.
    pub fn toggle_splitter(&mut self, address: u16)
        ensures
            final(self).splitters@ == toggled(old(self).splitters@, address),
            final(self).block_types == old(self).block_types,
            final(self).labels == old(self).labels,
            final(self).collapsed_blocks == old(self).collapsed_blocks,
            final(self).immediate_value_formats == old(self).immediate_value_formats,
            final(self).cross_refs == old(self).cross_refs,
            same_outside_edits(old(self), final(self)),
    {
        if self.splitters.contains(&address) {
            self.splitters.remove(&address);
        } else {
            self.splitters.insert(address);
        }
    }
}

fn copy_range(v: &Vec<BlockType>, start: usize, end: usize) -> (r: Vec<BlockType>)
    requires
        start <= end <= v@.len(),
    ensures
        r@ == v@.subrange(start as int, end as int),
{
    let mut r: Vec<BlockType> = Vec::new();
    let mut i = start;
    while i < end
        invariant
            start <= i <= end <= v@.len(),
            r@ == v@.subrange(start as int, i as int),
        decreases end - i,
    {
        r.push(v[i]);
        i = i + 1;
    }
    r
}

/// The document after an analysis result (`labels`, `cross_refs`) was
/// installed as a recorded edit (see `AppState::perform_analysis`).
pub open spec fn analysis_installed(
    a0: &AppState,
    a1: &AppState,
    labels: BTreeMap<u16, Vec<Label>>,
    cross_refs: BTreeMap<u16, Vec<u16>>,
) -> bool {
    let p = a0.undo_stack.pointer();
    &&& label_view(a1.labels@) == label_view(labels@)
    &&& a1.cross_refs@ == cross_refs@
    &&& a1.block_types@ == a0.block_types@
    &&& a1.splitters@ == a0.splitters@
    &&& a1.collapsed_blocks@ == a0.collapsed_blocks@
    &&& a1.immediate_value_formats@ == a0.immediate_value_formats@
    &&& a1.last_saved_pointer == if p < a0.last_saved_pointer {
        usize::MAX
    } else {
        a0.last_saved_pointer
    }
    &&& a1.undo_stack.pointer() == p + 1
    &&& a1.undo_stack.commands().len() == p + 1
    &&& a1.undo_stack.commands().take(p as int) == a0.undo_stack.commands().take(p as int)
    &&& match a1.undo_stack.commands().last() {
        Command::SetAnalysisData { labels: l, cross_refs: x, old_labels, old_cross_refs } => {
            &&& label_view(l@) == label_view(labels@)
            &&& x@ == cross_refs@
            &&& label_view(old_labels@) == labels_before(label_view(a0.labels@), labels@.dom())
            &&& old_cross_refs@ == a0.cross_refs@
        },
        _ => false,
    }
    &&& same_except_edits_and_history(a0, &AppState { last_saved_pointer: a0.last_saved_pointer, ..*a1 })
}

/// The document after undoing the most recent applied edit, and the status
/// text (see `AppState::undo_last_command`).
pub open spec fn undone(a0: &AppState, a1: &AppState, msg: Seq<char>) -> bool {
    if a0.undo_stack.pointer() == 0 {
        msg == "Nothing to undo"@ && *a1 == *a0
    } else {
        let c = a0.undo_stack.commands()[a0.undo_stack.pointer() - 1];
        &&& msg == undo_message(c)
        &&& a1.undo_stack.commands() == a0.undo_stack.commands()
        &&& a1.undo_stack.pointer() == a0.undo_stack.pointer() - 1
        &&& edit_model(a1) == c.reverted(edit_model(a0))
        &&& same_except_edits_and_history(a0, a1)
    }
}

/// The document after redoing the first undone edit, and the status text
/// (see `AppState::redo_last_command`).
pub open spec fn redone(a0: &AppState, a1: &AppState, msg: Seq<char>) -> bool {
    if a0.undo_stack.pointer() == a0.undo_stack.commands().len() {
        msg == "Nothing to redo"@ && *a1 == *a0
    } else {
        let c = a0.undo_stack.commands()[a0.undo_stack.pointer() as int];
        &&& msg == redo_message(c)
        &&& a1.undo_stack.commands() == a0.undo_stack.commands()
        &&& a1.undo_stack.pointer() == a0.undo_stack.pointer() + 1
        &&& edit_model(a1) == c.applied(edit_model(a0))
        &&& same_except_edits_and_history(a0, a1)
    }
}

/// The document after the bytes `[start, end)` got type `new_type` as one
/// recorded edit: the labels and cross references are what `analyze` gives
/// for the document with the new types, and the record keeps the earlier
/// types, labels and cross references so that undo restores them.
pub open spec fn type_edit_recorded<F: Fn(&AppState) -> (
    BTreeMap<u16, Vec<Label>>,
    BTreeMap<u16, Vec<u16>>,
)>(a0: &AppState, a1: &AppState, start: int, end: int, new_type: BlockType, analyze: F) -> bool {
    let p = a0.undo_stack.pointer();
    &&& 0 <= start <= end <= a0.block_types@.len()
    &&& a1.block_types@ == set_range(a0.block_types@, start, end, new_type)
    &&& a1.undo_stack.pointer() == p + 1
    &&& a1.undo_stack.commands() == a0.undo_stack.commands().take(p as int).push(
        a1.undo_stack.commands().last(),
    )
    &&& exists|mid: AppState, res: (BTreeMap<u16, Vec<Label>>, BTreeMap<u16, Vec<u16>>)|
        mid == (AppState { block_types: mid.block_types, ..*a0 }) && mid.block_types@
            == a1.block_types@ && #[trigger] call_ensures(analyze, (&mid,), res) && label_view(
            a1.labels@,
        ) == label_view(res.0@) && a1.cross_refs@ == res.1@
    &&& a1.undo_stack.commands().last() matches Command::SetBlockType {
        start: s,
        end: e,
        new_type: t,
        old_types,
        labels,
        cross_refs,
        old_labels,
        old_cross_refs,
    } && s == start && e == end && t == new_type && old_types@ == a0.block_types@.subrange(start, end)
        && label_view(labels@) == label_view(a1.labels@) && cross_refs@ == a1.cross_refs@
        && label_view(old_labels@) == label_view(a0.labels@) && old_cross_refs@ == a0.cross_refs@
    &&& a1.last_saved_pointer == if p < a0.last_saved_pointer {
        usize::MAX
    } else {
        a0.last_saved_pointer
    }
    &&& a1.collapsed_blocks@ == a0.collapsed_blocks@
    &&& a1.splitters@ == a0.splitters@
    &&& a1.immediate_value_formats@ == a0.immediate_value_formats@
    &&& same_except_edits_and_history(a0, &AppState { last_saved_pointer: a0.last_saved_pointer, ..*a1 })
    &&& last_edit_consistent(a1)
}

/// The document after `set_block_type_region`: when the selected lines
/// start inside the image, their bytes get the new type, the labels and
/// cross references become what `analyze` gives for the document with the
/// new types, and all of it is one recorded edit that undo reverts (see
/// `type_edit_recorded`); otherwise nothing changes.
pub open spec fn block_type_region_set<F: Fn(&AppState) -> (
    BTreeMap<u16, Vec<Label>>,
    BTreeMap<u16, Vec<u16>>,
)>(
    a0: &AppState,
    a1: &AppState,
    new_type: BlockType,
    selection_start: Option<usize>,
    cursor_index: usize,
    analyze: F,
) -> bool {
    match region_offsets(a0.disassembly@, a0.origin, selection_start, cursor_index) {
        Some((start, end)) if start < a0.block_types@.len() => type_edit_recorded(
            a0,
            a1,
            start,
            end + 1,
            new_type,
            analyze,
        ),
        _ => *a1 == *a0,
    }
}

/// Sets the type of the bytes `[start, end)` and installs the analysis of
/// the result, as one recorded edit (see `type_edit_recorded`).
#[verifier::spinoff_prover]
#[verifier::rlimit(60)]
fn record_type_edit<F>(app: &mut AppState, start: usize, end: usize, new_type: BlockType, analyze: &F)
    where F: Fn(&AppState) -> (BTreeMap<u16, Vec<Label>>, BTreeMap<u16, Vec<u16>>)
    requires
        forall|s: &AppState| #[trigger] analyze.requires((s,)),
        start <= end <= old(app).block_types@.len(),
    ensures
        type_edit_recorded(old(app), final(app), start as int, end as int, new_type, *analyze),
{
    let old_types = copy_range(&app.block_types, start, end);
    let old_labels = app.labels.clone();
    let old_cross_refs = app.cross_refs.clone();
    let ghost before = *app;
    crate::commands::set_block_types(&mut app.block_types, start, end, new_type);
    let ghost mid = *app;
    let res = analyze(&*app);
    let ghost r = res;
    let (labels, cross_refs) = res;
    app.labels = labels.clone();
    app.cross_refs = cross_refs.clone();
    let command = Command::SetBlockType {
        start,
        end,
        new_type,
        old_types,
        labels,
        cross_refs,
        old_labels,
        old_cross_refs,
    };
    assert(command.records(edit_model(&before)));
    assert(edit_model(&*app) =~= command.applied(edit_model(&before)));
    assert(mid == (AppState { block_types: mid.block_types, ..before }));
    assert(call_ensures(*analyze, (&mid,), r));
    let ghost applied = *app;
    app.push_command(command);
    proof {
        assert(edit_model(&*app) == edit_model(&applied));
        law_recorded_edit_consistent(command, before, *app);
    }
}

/// `[s, e]` is the maximal run of bytes of the same type as byte `index`.
pub open spec fn maximal_run(types: Seq<BlockType>, index: int, s: int, e: int) -> bool {
    &&& 0 <= s <= index <= e < types.len()
    &&& forall|j: int| s <= j <= e ==> #[trigger] types[j] == types[index]
    &&& s == 0 || types[s - 1] != types[index]
    &&& e == types.len() - 1 || types[e + 1] != types[index]
}

/// Last address of a line's bytes, computed in 16-bit arithmetic without
/// wrapping (one below its address when it holds no bytes).
pub open spec fn line_last_address(l: DisassemblyLine) -> int {
    l.address + wrap16(l.bytes@.len() as int) - 1
}

/// Indices of the first and last selected listing lines, when both exist.
pub open spec fn selected_lines(n: nat, selection_start: Option<usize>, cursor: usize) -> Option<
    (int, int),
> {
    let (first, last) = match selection_start {
        Some(sel) => if sel < cursor {
            (sel as int, cursor as int)
        } else {
            (cursor as int, sel as int)
        },
        None => (cursor as int, cursor as int),
    };
    if last < n {
        Some((first, last))
    } else {
        None
    }
}

/// The last selected line (if any) ends within the 16-bit address space.
pub open spec fn region_lines_fit(
    lines: Seq<DisassemblyLine>,
    selection_start: Option<usize>,
    cursor: usize,
) -> bool {
    match selected_lines(lines.len(), selection_start, cursor) {
        Some((first, last)) => 0 <= line_last_address(lines[last]) < 65535,
        None => true,
    }
}

/// First and last image offsets covered by the selected lines.
pub open spec fn region_offsets(
    lines: Seq<DisassemblyLine>,
    origin: u16,
    selection_start: Option<usize>,
    cursor: usize,
) -> Option<(int, int)> {
    match selected_lines(lines.len(), selection_start, cursor) {
        Some((first, last)) => Some(
            (
                wrap16(lines[first].address - origin),
                wrap16(line_last_address(lines[last]) - origin),
            ),
        ),
        None => None,
    }
}

/// A region that starts inside an image of `len` bytes also ends inside
/// it, and does not end before its start.
pub open spec fn region_within_image(
    lines: Seq<DisassemblyLine>,
    origin: u16,
    len: nat,
    selection_start: Option<usize>,
    cursor: usize,
) -> bool {
    match region_offsets(lines, origin, selection_start, cursor) {
        Some((start, end)) => start < len ==> end < len && start <= end + 1,
        None => true,
    }
}

/// For every address in `keys`, the labels `labels` has there (empty when
/// none).
pub open spec fn labels_before(labels: Map<u16, Seq<Label>>, keys: Set<u16>) -> Map<u16, Seq<Label>> {
    Map::new(
        |k: u16| keys.contains(k),
        |k: u16|
            if labels.contains_key(k) {
                labels[k]
            } else {
                Seq::empty()
            },
    )
}

/// All fields but the undo history and the saved position are equal.
pub open spec fn same_except_history(a: &AppState, b: &AppState) -> bool {
    &&& a.file_path == b.file_path
    &&& a.project_path == b.project_path
    &&& a.export_path == b.export_path
    &&& a.raw_data == b.raw_data
    &&& a.disassembly == b.disassembly
    &&& a.origin == b.origin
    &&& a.block_types == b.block_types
    &&& a.labels == b.labels
    &&& a.settings == b.settings
    &&& a.system_comments == b.system_comments
    &&& a.user_side_comments == b.user_side_comments
    &&& a.user_line_comments == b.user_line_comments
    &&& a.immediate_value_formats == b.immediate_value_formats
    &&& a.cross_refs == b.cross_refs
    &&& a.system_config == b.system_config
    &&& a.excluded_addresses == b.excluded_addresses
    &&& a.collapsed_blocks == b.collapsed_blocks
    &&& a.splitters == b.splitters
}

/// All fields but the editable ones and the undo history are equal (the
/// saved position included).
pub open spec fn same_except_edits_and_history(a: &AppState, b: &AppState) -> bool {
    &&& a.file_path == b.file_path
    &&& a.project_path == b.project_path
    &&& a.export_path == b.export_path
    &&& a.raw_data == b.raw_data
    &&& a.disassembly == b.disassembly
    &&& a.origin == b.origin
    &&& a.settings == b.settings
    &&& a.system_comments == b.system_comments
    &&& a.user_side_comments == b.user_side_comments
    &&& a.user_line_comments == b.user_line_comments
    &&& a.system_config == b.system_config
    &&& a.last_saved_pointer == b.last_saved_pointer
    &&& a.excluded_addresses == b.excluded_addresses
}


/// Applying an edit, recording it (`push_command`) and undoing it
/// (`undo_last_command`) gives the document back, returns the undo
/// position to where it was, and a document that was saved before the
/// edit is unsaved after it and saved again after the undo.
pub proof fn law_undo_restores_edit(
    c: Command,
    s0: AppState,
    s1: AppState,
    s2: AppState,
    s3: AppState,
)
    requires
        c.records(edit_model(&s0)),
        // `c.apply(s0)` gave `s1`
        edit_model(&s1) == c.applied(edit_model(&s0)),
        same_outside_edits(&s0, &s1),
        // `s1.push_command(c)` gave `s2`
        s1.undo_stack.pointer() <= s1.undo_stack.commands().len(),
        s2.undo_stack.commands() == s1.undo_stack.commands().take(s1.undo_stack.pointer() as int).push(c),
        s2.undo_stack.pointer() == s1.undo_stack.pointer() + 1,
        s2.last_saved_pointer == if s1.undo_stack.pointer() < s1.last_saved_pointer {
            usize::MAX
        } else {
            s1.last_saved_pointer
        },
        same_except_history(&s1, &s2),
        // `s2.undo_last_command()` gave `s3`
        edit_model(&s3) == s2.undo_stack.commands()[s2.undo_stack.pointer() - 1].reverted(
            edit_model(&s2),
        ),
        s3.undo_stack.pointer() == s2.undo_stack.pointer() - 1,
        same_except_edits_and_history(&s2, &s3),
    ensures
        crate::commands::same_edits(edit_model(&s3), edit_model(&s0)),
        s3.undo_stack.pointer() == s0.undo_stack.pointer(),
        s0.undo_stack.pointer() == s0.last_saved_pointer ==> {
            &&& s2.undo_stack.pointer() != s2.last_saved_pointer
            &&& s3.undo_stack.pointer() == s3.last_saved_pointer
        },
{
    let p = s1.undo_stack.pointer() as int;
    assert(s2.undo_stack.commands()[s2.undo_stack.pointer() - 1] == c) by {
        assert(s2.undo_stack.commands().len() == p + 1);
    }
    assert(edit_model(&s2) == edit_model(&s1));
    crate::commands::law_revert_after_apply(c, edit_model(&s0));
}


/// The edit the undo position points past was recorded against the
/// document it turned into the current one, so undoing it reverts exactly
/// that edit.
pub open spec fn last_edit_consistent(s: &AppState) -> bool {
    s.undo_stack.pointer() > 0 ==> exists|m: EditModel|
        #[trigger] s.undo_stack.commands()[s.undo_stack.pointer() - 1].records(m)
            && edit_model(s) == s.undo_stack.commands()[s.undo_stack.pointer() - 1].applied(m)
}

/// Applying an edit that records the document it starts from and then
/// recording it (`push_command`) leaves a consistent last edit.
pub proof fn law_recorded_edit_consistent(c: Command, s0: AppState, s1: AppState)
    requires
        c.records(edit_model(&s0)),
        edit_model(&s1) == c.applied(edit_model(&s0)),
        s0.undo_stack.pointer() <= s0.undo_stack.commands().len(),
        s1.undo_stack.commands() == s0.undo_stack.commands().take(s0.undo_stack.pointer() as int).push(c),
        s1.undo_stack.pointer() == s0.undo_stack.pointer() + 1,
    ensures
        last_edit_consistent(&s1),
{
    assert(s1.undo_stack.commands()[s1.undo_stack.pointer() - 1] == c);
    assert(c.records(edit_model(&s0)));
}

/// Redoing right after a successful undo restores the document: the same
/// edits (block types, labels, cross references, formats, collapsed
/// ranges, splitters), the same undo position and history, and the same
/// saved-or-not state; the redo reports that it redid something.
pub proof fn law_redo_after_undo(
    s0: AppState,
    s1: AppState,
    s2: AppState,
    undo_msg: Seq<char>,
    redo_msg: Seq<char>,
)
    requires
        last_edit_consistent(&s0),
        s0.undo_stack.pointer() <= s0.undo_stack.commands().len(),
        undone(&s0, &s1, undo_msg),
        undo_msg != "Nothing to undo"@,
        redone(&s1, &s2, redo_msg),
    ensures
        redo_msg != "Nothing to redo"@,
        crate::commands::same_edits(edit_model(&s2), edit_model(&s0)),
        s2.block_types@ == s0.block_types@,
        s2.undo_stack.commands() == s0.undo_stack.commands(),
        s2.undo_stack.pointer() == s0.undo_stack.pointer(),
        (s2.undo_stack.pointer() != s2.last_saved_pointer) == (s0.undo_stack.pointer()
            != s0.last_saved_pointer),
        same_except_edits_and_history(&s0, &s2),
{
    let p = s0.undo_stack.pointer() as int;
    assert(p > 0);
    let c = s0.undo_stack.commands()[p - 1];
    let m = choose|m: EditModel| #[trigger] c.records(m) && edit_model(&s0) == c.applied(m);
    assert(s1.undo_stack.commands()[s1.undo_stack.pointer() as int] == c);
    crate::commands::law_reapply_after_revert(c, m);
    reveal_strlit("Redo: ");
    reveal_strlit("Nothing to redo");
    reveal_strlit("Nothing to undo");
    assert(redo_msg[0] == 'R');
    assert("Nothing to redo"@[0] == 'N');
}

/// The undo position after `k` steps of undo or redo stays off an
/// unreachable saved position.
proof fn lemma_unreachable_save_steps(states: Seq<AppState>, msgs: Seq<Seq<char>>, i: int)
    requires
        0 <= i < states.len(),
        msgs.len() == states.len() - 1,
        states[0].last_saved_pointer == usize::MAX,
        states[0].undo_stack.pointer() <= states[0].undo_stack.commands().len() < usize::MAX,
        forall|j: int|
            0 <= j < states.len() - 1 ==> undone(&states[j], &states[j + 1], #[trigger] msgs[j])
                || redone(&states[j], &states[j + 1], msgs[j]),
    ensures
        states[i].last_saved_pointer == usize::MAX,
        states[i].undo_stack.commands() == states[0].undo_stack.commands(),
        states[i].undo_stack.pointer() <= states[i].undo_stack.commands().len(),
    decreases i,
{
    if i > 0 {
        lemma_unreachable_save_steps(states, msgs, i - 1);
        assert(undone(&states[i - 1], &states[i], msgs[i - 1]) || redone(
            &states[i - 1],
            &states[i],
            msgs[i - 1],
        ));
    }
}

/// Once the saved position is unreachable (`usize::MAX`, which
/// `push_command` sets when it drops the saved state), no run of undos
/// and redos makes the document clean again; only a save does.
pub proof fn law_unreachable_save_stays_dirty(states: Seq<AppState>, msgs: Seq<Seq<char>>)
    requires
        states.len() >= 1,
        msgs.len() == states.len() - 1,
        states[0].last_saved_pointer == usize::MAX,
        states[0].undo_stack.pointer() <= states[0].undo_stack.commands().len() < usize::MAX,
        forall|j: int|
            0 <= j < states.len() - 1 ==> undone(&states[j], &states[j + 1], #[trigger] msgs[j])
                || redone(&states[j], &states[j + 1], msgs[j]),
    ensures
        forall|i: int|
            0 <= i < states.len() ==> #[trigger] states[i].undo_stack.pointer()
                != states[i].last_saved_pointer,
{
    assert forall|i: int| 0 <= i < states.len() implies #[trigger] states[i].undo_stack.pointer()
        != states[i].last_saved_pointer by {
        lemma_unreachable_save_steps(states, msgs, i);
    }
}


/// Undoing a block-type edit right after `set_block_type_region` made it
/// gives back the block types, labels and cross references the document
/// had, and a document that was saved before the edit is saved again.
pub proof fn law_undo_block_type_edit<F: Fn(&AppState) -> (
    BTreeMap<u16, Vec<Label>>,
    BTreeMap<u16, Vec<u16>>,
)>(
    s0: AppState,
    s1: AppState,
    s2: AppState,
    start: int,
    end: int,
    new_type: BlockType,
    analyze: F,
    msg: Seq<char>,
)
    requires
        s0.undo_stack.pointer() <= s0.undo_stack.commands().len(),
        type_edit_recorded(&s0, &s1, start, end, new_type, analyze),
        undone(&s1, &s2, msg),
    ensures
        msg != "Nothing to undo"@,
        s2.block_types@ == s0.block_types@,
        label_view(s2.labels@) == label_view(s0.labels@),
        s2.cross_refs@ == s0.cross_refs@,
        s2.undo_stack.pointer() == s0.undo_stack.pointer(),
        s0.undo_stack.pointer() == s0.last_saved_pointer ==> s2.undo_stack.pointer()
            == s2.last_saved_pointer,
{
    let c = s1.undo_stack.commands().last();
    let p = s0.undo_stack.pointer();
    assert(s1.undo_stack.commands()[s1.undo_stack.pointer() - 1] == c);
    assert(c.records(edit_model(&s0)));
    assert(edit_model(&s1) =~= c.applied(edit_model(&s0)));
    crate::commands::law_revert_after_apply(c, edit_model(&s0));
    reveal_strlit("Undo: ");
    reveal_strlit("Nothing to undo");
    assert(msg[0] == 'U');
    assert("Nothing to undo"@[0] == 'N');
}


/// Undoing a block-type edit that `set_block_type_region` just made and
/// redoing it gives the edited document back: block types, labels and
/// cross references, the undo position and the saved-or-not state.
pub proof fn law_redo_block_type_edit<F: Fn(&AppState) -> (
    BTreeMap<u16, Vec<Label>>,
    BTreeMap<u16, Vec<u16>>,
)>(
    s0: AppState,
    s1: AppState,
    s2: AppState,
    s3: AppState,
    start: int,
    end: int,
    new_type: BlockType,
    analyze: F,
    undo_msg: Seq<char>,
    redo_msg: Seq<char>,
)
    requires
        s0.undo_stack.pointer() <= s0.undo_stack.commands().len(),
        type_edit_recorded(&s0, &s1, start, end, new_type, analyze),
        undone(&s1, &s2, undo_msg),
        redone(&s2, &s3, redo_msg),
    ensures
        undo_msg != "Nothing to undo"@,
        redo_msg != "Nothing to redo"@,
        s3.block_types@ == s1.block_types@,
        label_view(s3.labels@) == label_view(s1.labels@),
        s3.cross_refs@ == s1.cross_refs@,
        s3.undo_stack.pointer() == s1.undo_stack.pointer(),
        (s3.undo_stack.pointer() != s3.last_saved_pointer) == (s1.undo_stack.pointer()
            != s1.last_saved_pointer),
{
    law_undo_block_type_edit(s0, s1, s2, start, end, new_type, analyze, undo_msg);
    law_redo_after_undo(s1, s2, s3, undo_msg, redo_msg);
}


/// Which addresses lie outside an image of `len` bytes loaded at `origin`
/// (addresses wrap at 16 bits): exactly those whose distance past the
/// origin, counted modulo 2^16, is at least the image's length modulo
/// 2^16; an empty image (or one of a multiple of 64 KiB) has no outside.
/// So for an image that does not wrap past `$FFFF`, every address below
/// the origin is outside.
pub proof fn law_outside_image(origin: u16, len: nat, addr: u16)
    ensures
        len % 65536 == 0 ==> !outside_image(origin, len, addr),
        len % 65536 != 0 ==> (outside_image(origin, len, addr) <==> (addr - origin) % 65536
            >= len % 65536),
        0 < len && origin + len <= 65535 && addr < origin ==> outside_image(origin, len, addr),
{
    let m = len % 65536;
    assert(wrap16(len as int) == m);
    let end = wrap16(origin + m);
    let d = (addr - origin) % 65536;
    if addr >= origin {
        assert(d == addr - origin);
    } else {
        assert(d == addr - origin + 65536);
    }
    if origin + m < 65536 {
        assert(end == origin + m);
    } else {
        assert(end == origin + m - 65536);
    }
    if 0 < len && origin + len <= 65535 {
        assert(m == len);
    }
}

} // verus!
