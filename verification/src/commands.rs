//! Undoable edits of the document and the undo history.
use crate::blocks::BlockType;
use crate::document::{duplicate_labels, ImmediateFormat, Label};
use crate::maps::sorted_keys;
use crate::state::AppState;
use std::collections::BTreeMap;
use vstd::prelude::*;

verus! {

broadcast use {vstd::std_specs::btree::group_btree_axioms, vstd::laws_cmp::group_laws_cmp};

/// An undoable edit. Each variant carries what it needs both to apply and
/// to revert itself.
pub enum Command {
    /// Set the block type of byte offsets `[start, end)` and install
    /// `labels` and `cross_refs`, the analysis of the document with the new
    /// types; `old_types`, `old_labels` and `old_cross_refs` are what the
    /// document had before.
    SetBlockType {
        start: usize,
        end: usize,
        new_type: BlockType,
        old_types: Vec<BlockType>,
        labels: BTreeMap<u16, Vec<Label>>,
        cross_refs: BTreeMap<u16, Vec<u16>>,
        old_labels: BTreeMap<u16, Vec<Label>>,
        old_cross_refs: BTreeMap<u16, Vec<u16>>,
    },
    /// Replace labels and cross references by an analysis result;
    /// `old_labels` holds, for each address of `labels`, the labels it had
    /// before (empty when it had none).
    SetAnalysisData {
        labels: BTreeMap<u16, Vec<Label>>,
        cross_refs: BTreeMap<u16, Vec<u16>>,
        old_labels: BTreeMap<u16, Vec<Label>>,
        old_cross_refs: BTreeMap<u16, Vec<u16>>,
    },
    /// Add or remove a splitter at `address`.
    ToggleSplitter { address: u16 },
    /// Set (`Some`) or clear (`None`) the immediate format at `address`.
    SetImmediateFormat {
        address: u16,
        new_format: Option<ImmediateFormat>,
        old_format: Option<ImmediateFormat>,
    },
    /// Mark the byte offsets `range` (inclusive) as collapsed.
    CollapseBlock { range: (usize, usize) },
    /// Remove the collapsed mark `range`.
    UncollapseBlock { range: (usize, usize) },
    /// Set (`Some`) or remove (`None`) the labels at `address`.
    SetLabel { address: u16, new_label: Option<Vec<Label>>, old_label: Option<Vec<Label>> },
}

/// Labels as a map from address to label sequence.
pub open spec fn label_view(m: Map<u16, Vec<Label>>) -> Map<u16, Seq<Label>> {
    m.map_values(|v: Vec<Label>| v@)
}

/// `types` with the offsets `[start, end)` set to `t`.
pub open spec fn set_range(types: Seq<BlockType>, start: int, end: int, t: BlockType) -> Seq<
    BlockType,
> {
    Seq::new(types.len(), |i: int| if start <= i < end { t } else { types[i] })
}

/// `types` with `olds` written back from offset `start`.
pub open spec fn restore_range(types: Seq<BlockType>, start: int, olds: Seq<BlockType>) -> Seq<
    BlockType,
> {
    Seq::new(
        types.len(),
        |i: int|
            if start <= i < start + olds.len() {
                olds[i - start]
            } else {
                types[i]
            },
    )
}

/// `labels` with each address of `olds` given its old labels back (the
/// address is dropped when the old list is empty).
pub open spec fn restore_labels(labels: Map<u16, Seq<Label>>, olds: Map<u16, Seq<Label>>) -> Map<
    u16,
    Seq<Label>,
> {
    Map::new(
        |k: u16|
            if olds.contains_key(k) {
                olds[k].len() > 0
            } else {
                labels.contains_key(k)
            },
        |k: u16|
            if olds.contains_key(k) {
                olds[k]
            } else {
                labels[k]
            },
    )
}

/// A set with `x` added when absent and removed when present.
pub open spec fn toggled(s: Set<u16>, x: u16) -> Set<u16> {
    if s.contains(x) {
        s.remove(x)
    } else {
        s.insert(x)
    }
}

/// `m` with the entry at `k` set to `v` (`None` removes it).
pub open spec fn set_entry<V>(m: Map<u16, V>, k: u16, v: Option<V>) -> Map<u16, V> {
    match v {
        Some(x) => m.insert(k, x),
        None => m.remove(k),
    }
}

/// `s` without its first occurrence of `x` (unchanged when absent).
pub open spec fn remove_first(s: Seq<(usize, usize)>, x: (usize, usize)) -> Seq<(usize, usize)> {
    if s.contains(x) {
        let i = choose|i: int| 0 <= i < s.len() && s[i] == x && forall|j: int| 0 <= j < i ==> s[j] != x;
        s.remove(i)
    } else {
        s
    }
}

/// `s` without its last occurrence of `x` (unchanged when absent).
pub open spec fn remove_last(s: Seq<(usize, usize)>, x: (usize, usize)) -> Seq<(usize, usize)> {
    if s.contains(x) {
        let i = choose|i: int|
            0 <= i < s.len() && s[i] == x && forall|j: int| i < j < s.len() ==> s[j] != x;
        s.remove(i)
    } else {
        s
    }
}

/// Every field of the document that no command touches is equal in `a` and `b`.
pub open spec fn same_outside_edits(a: &AppState, b: &AppState) -> bool {
    &&& a.file_path == b.file_path
    &&& a.project_path == b.project_path
    &&& a.export_path == b.export_path
    &&& a.raw_data == b.raw_data
    &&& a.disassembly == b.disassembly
    &&& a.origin == b.origin
    &&& a.settings == b.settings
    &&& a.system_comments == b.system_comments
    &&& a.user_side_comments == b.user_side_comments
    &&& a.user_line_comments == b.user_line_comments
    &&& a.system_config == b.system_config
    &&& a.undo_stack == b.undo_stack
    &&& a.last_saved_pointer == b.last_saved_pointer
    &&& a.excluded_addresses == b.excluded_addresses
}

/// The editable part of the document, as mathematical values.
pub struct EditModel {
    pub block_types: Seq<BlockType>,
    pub labels: Map<u16, Seq<Label>>,
    pub cross_refs: Map<u16, Vec<u16>>,
    pub formats: Map<u16, ImmediateFormat>,
    pub collapsed: Seq<(usize, usize)>,
    pub splitters: Set<u16>,
}

/// The editable part of a document.
pub open spec fn edit_model(s: &AppState) -> EditModel {
    EditModel {
        block_types: s.block_types@,
        labels: label_view(s.labels@),
        cross_refs: s.cross_refs@,
        formats: s.immediate_value_formats@,
        collapsed: s.collapsed_blocks@,
        splitters: s.splitters@,
    }
}

impl Command {
    /// The editable part of a document after applying the command to `m`.
    pub open spec fn applied(&self, m: EditModel) -> EditModel {
        match *self {
            Command::SetBlockType { start, end, new_type, labels, cross_refs, .. } => EditModel {
                block_types: set_range(m.block_types, start as int, end as int, new_type),
                labels: label_view(labels@),
                cross_refs: cross_refs@,
                ..m
            },
            Command::SetAnalysisData { labels, cross_refs, .. } => EditModel {
                labels: label_view(labels@),
                cross_refs: cross_refs@,
                ..m
            },
            Command::ToggleSplitter { address } => EditModel {
                splitters: toggled(m.splitters, address),
                ..m
            },
            Command::SetImmediateFormat { address, new_format, .. } => EditModel {
                formats: set_entry(m.formats, address, new_format),
                ..m
            },
            Command::CollapseBlock { range } => EditModel { collapsed: m.collapsed.push(range), ..m },
            Command::UncollapseBlock { range } => EditModel {
                collapsed: remove_first(m.collapsed, range),
                ..m
            },
            Command::SetLabel { address, new_label, .. } => EditModel {
                labels: set_entry(
                    m.labels,
                    address,
                    match new_label {
                        Some(v) => Some(v@),
                        None => None,
                    },
                ),
                ..m
            },
        }
    }

    /// The editable part of a document after reverting the command on `m`.
    pub open spec fn reverted(&self, m: EditModel) -> EditModel {
        match *self {
            Command::SetBlockType { start, old_types, old_labels, old_cross_refs, .. } => EditModel {
                block_types: restore_range(m.block_types, start as int, old_types@),
                labels: label_view(old_labels@),
                cross_refs: old_cross_refs@,
                ..m
            },
            Command::SetAnalysisData { old_labels, old_cross_refs, .. } => EditModel {
                labels: restore_labels(m.labels, label_view(old_labels@)),
                cross_refs: old_cross_refs@,
                ..m
            },
            Command::ToggleSplitter { address } => EditModel {
                splitters: toggled(m.splitters, address),
                ..m
            },
            Command::SetImmediateFormat { address, old_format, .. } => EditModel {
                formats: set_entry(m.formats, address, old_format),
                ..m
            },
            Command::CollapseBlock { range } => EditModel {
                collapsed: remove_last(m.collapsed, range),
                ..m
            },
            Command::UncollapseBlock { range } => EditModel {
                collapsed: m.collapsed.push(range),
                ..m
            },
            Command::SetLabel { address, old_label, .. } => EditModel {
                labels: set_entry(
                    m.labels,
                    address,
                    match old_label {
                        Some(v) => Some(v@),
                        None => None,
                    },
                ),
                ..m
            },
        }
    }

    /// Applies the command to the document.
    pub fn apply(&self, state: &mut AppState)
        ensures
            edit_model(final(state)) == self.applied(edit_model(old(state))),
            same_outside_edits(old(state), final(state)),
    {
        match self {
            Command::SetBlockType { start, end, new_type, labels, cross_refs, .. } => {
                set_block_types(&mut state.block_types, *start, *end, *new_type);
                state.labels = labels.clone();
                state.cross_refs = cross_refs.clone();
            },
            Command::SetAnalysisData { labels, cross_refs, .. } => {
                state.labels = labels.clone();
                state.cross_refs = cross_refs.clone();
            },
            Command::ToggleSplitter { address } => {
                toggle_in(&mut state.splitters, *address);
            },
            Command::SetImmediateFormat { address, new_format, .. } => {
                set_format(&mut state.immediate_value_formats, *address, *new_format);
            },
            Command::CollapseBlock { range } => {
                state.collapsed_blocks.push(*range);
            },
            Command::UncollapseBlock { range } => {
                remove_first_range(&mut state.collapsed_blocks, *range);
            },
            Command::SetLabel { address, new_label, .. } => {
                set_labels_at(&mut state.labels, *address, new_label);
            },
        }
        assert(edit_model(state) =~= self.applied(edit_model(old(state))));
    }

    /// Reverts the command on the document.
    pub fn undo(&self, state: &mut AppState)
        ensures
            edit_model(final(state)) == self.reverted(edit_model(old(state))),
            same_outside_edits(old(state), final(state)),
    {
        match self {
            Command::SetBlockType { start, old_types, old_labels, old_cross_refs, .. } => {
                restore_block_types(&mut state.block_types, *start, old_types);
                state.labels = old_labels.clone();
                state.cross_refs = old_cross_refs.clone();
            },
            Command::SetAnalysisData { old_labels, old_cross_refs, .. } => {
                restore_labels_from(&mut state.labels, old_labels);
                state.cross_refs = old_cross_refs.clone();
            },
            Command::ToggleSplitter { address } => {
                toggle_in(&mut state.splitters, *address);
            },
            Command::SetImmediateFormat { address, old_format, .. } => {
                set_format(&mut state.immediate_value_formats, *address, *old_format);
            },
            Command::CollapseBlock { range } => {
                remove_last_range(&mut state.collapsed_blocks, *range);
            },
            Command::UncollapseBlock { range } => {
                state.collapsed_blocks.push(*range);
            },
            Command::SetLabel { address, old_label, .. } => {
                set_labels_at(&mut state.labels, *address, old_label);
            },
        }
        assert(edit_model(state) =~= self.reverted(edit_model(old(state))));
    }
}

pub(crate) fn set_block_types(types: &mut Vec<BlockType>, start: usize, end: usize, t: BlockType)
    ensures
        final(types)@ == set_range(old(types)@, start as int, end as int, t),
{
    let mut i = start;
    while i < end && i < types.len()
        invariant
            start <= i,
            start <= end ==> i <= end,
            start > end ==> i == start,
            types@.len() == old(types)@.len(),
            forall|j: int|
                0 <= j < types@.len() ==> #[trigger] types@[j] == if start <= j < i {
                    t
                } else {
                    old(types)@[j]
                },
        decreases end - i,
    {
        types.set(i, t);
        i = i + 1;
    }
    assert(types@ =~= set_range(old(types)@, start as int, end as int, t));
}

fn restore_block_types(types: &mut Vec<BlockType>, start: usize, olds: &Vec<BlockType>)
    ensures
        final(types)@ == restore_range(old(types)@, start as int, olds@),
{
    let mut j: usize = 0;
    while j < olds.len() && start < types.len() && j < types.len() - start
        invariant
            types@.len() == old(types)@.len(),
            j <= olds@.len(),
            forall|i: int|
                0 <= i < types@.len() ==> #[trigger] types@[i] == if start <= i < start + j {
                    olds@[i - start]
                } else {
                    old(types)@[i]
                },
        decreases olds@.len() - j,
    {
        types.set(start + j, olds[j]);
        j = j + 1;
    }
    assert(types@ =~= restore_range(old(types)@, start as int, olds@));
}

fn toggle_in(set: &mut std::collections::BTreeSet<u16>, x: u16)
    ensures
        final(set)@ == toggled(old(set)@, x),
{
    if set.contains(&x) {
        set.remove(&x);
    } else {
        set.insert(x);
    }
}

fn set_format(m: &mut BTreeMap<u16, ImmediateFormat>, k: u16, v: Option<ImmediateFormat>)
    ensures
        final(m)@ == set_entry(old(m)@, k, v),
{
    match v {
        Some(f) => {
            m.insert(k, f);
        },
        None => {
            m.remove(&k);
        },
    }
}

fn set_labels_at(m: &mut BTreeMap<u16, Vec<Label>>, k: u16, v: &Option<Vec<Label>>)
    ensures
        label_view(final(m)@) == set_entry(
            label_view(old(m)@),
            k,
            match *v {
                Some(x) => Some(x@),
                None => None,
            },
        ),
{
    match v {
        Some(labels) => {
            m.insert(k, duplicate_labels(labels));
        },
        None => {
            m.remove(&k);
        },
    }
    assert(label_view(m@) =~= set_entry(
        label_view(old(m)@),
        k,
        match *v {
            Some(x) => Some(x@),
            None => None,
        },
    ));
}

/// `cur` with the addresses in `done` given their entries from `olds` back.
pub open spec fn partially_restored(
    cur: Map<u16, Seq<Label>>,
    olds: Map<u16, Seq<Label>>,
    done: Set<u16>,
) -> Map<u16, Seq<Label>> {
    Map::new(
        |k: u16|
            if done.contains(k) {
                olds[k].len() > 0
            } else {
                cur.contains_key(k)
            },
        |k: u16|
            if done.contains(k) {
                olds[k]
            } else {
                cur[k]
            },
    )
}

fn restore_labels_from(m: &mut BTreeMap<u16, Vec<Label>>, olds: &BTreeMap<u16, Vec<Label>>)
    ensures
        label_view(final(m)@) == restore_labels(label_view(old(m)@), label_view(olds@)),
{
    let keys = sorted_keys(olds);
    let ghost ks = keys@;
    let ghost mut done: Set<u16> = Set::empty();
    let mut i: usize = 0;
    while i < keys.len()
        invariant
            i <= keys@.len(),
            keys@ == ks,
            ks.to_set() == olds@.dom(),
            done.subset_of(olds@.dom()),
            forall|j: int| 0 <= j < i ==> done.contains(#[trigger] ks[j]),
            label_view(m@) == partially_restored(label_view(old(m)@), label_view(olds@), done),
        decreases keys@.len() - i,
    {
        let k = keys[i];
        assert(ks.to_set().contains(k)) by {
            assert(ks.contains(k));
        }
        let old_labels = olds.get(&k).unwrap();
        assert(label_view(olds@).contains_key(k));
        assert(label_view(olds@)[k] == old_labels@);
        let ghost before = label_view(m@);
        let ghost done_old = done;
        let ghost prev_target = partially_restored(label_view(old(m)@), label_view(olds@), done_old);
        assert(before == prev_target);
        if old_labels.len() == 0 {
            m.remove(&k);
        } else {
            m.insert(k, duplicate_labels(old_labels));
        }
        proof {
            done = done.insert(k);
        }
        assert forall|x: u16| x != k implies (label_view(m@).contains_key(x) == before.contains_key(x))
            && (before.contains_key(x) ==> label_view(m@)[x] == before[x]) by {
            if before.contains_key(x) {
                assert(label_view(m@)[x] == m@[x]@);
            }
        }
        let ghost target = partially_restored(label_view(old(m)@), label_view(olds@), done);
        assert forall|x: u16| #[trigger] label_view(m@).contains_key(x) == target.contains_key(x) by {
            if x == k {
                if old_labels@.len() == 0 {
                    assert(!m@.contains_key(k));
                } else {
                    assert(m@.contains_key(k));
                }
            } else {
                assert(done.contains(x) == done_old.contains(x));
                assert(target.contains_key(x) == prev_target.contains_key(x));
            }
        }
        assert forall|x: u16| #[trigger] label_view(m@).contains_key(x) implies label_view(m@)[x]
            == target[x] by {
            if x == k {
                assert(label_view(m@)[k] == m@[k]@);
            } else {
                assert(done.contains(x) == done_old.contains(x));
                assert(target[x] == prev_target[x]);
            }
        }
        assert(label_view(m@) =~= target);
        i = i + 1;
    }
    assert(done =~= olds@.dom()) by {
        assert forall|x: u16| olds@.dom().contains(x) implies done.contains(x) by {
            assert(ks.to_set().contains(x));
            let j = choose|j: int| 0 <= j < ks.len() && ks[j] == x;
            assert(done.contains(ks[j]));
        }
    }
    assert(label_view(m@) =~= restore_labels(label_view(old(m)@), label_view(olds@)));
}

/// The first occurrence of `x` in `s` is at `i`.
proof fn lemma_remove_first_at(s: Seq<(usize, usize)>, x: (usize, usize), i: int)
    requires
        0 <= i < s.len(),
        s[i] == x,
        forall|j: int| 0 <= j < i ==> s[j] != x,
    ensures
        remove_first(s, x) == s.remove(i),
{
    assert(s.contains(x));
    let c = choose|c: int| 0 <= c < s.len() && s[c] == x && forall|j: int| 0 <= j < c ==> s[j] != x;
    if c < i {
        assert(s[c] != x);
    } else if c > i {
        assert(s[i] != x);
    }
}

/// The last occurrence of `x` in `s` is at `i`.
proof fn lemma_remove_last_at(s: Seq<(usize, usize)>, x: (usize, usize), i: int)
    requires
        0 <= i < s.len(),
        s[i] == x,
        forall|j: int| i < j < s.len() ==> s[j] != x,
    ensures
        remove_last(s, x) == s.remove(i),
{
    assert(s.contains(x));
    let c = choose|c: int|
        0 <= c < s.len() && s[c] == x && forall|j: int| c < j < s.len() ==> s[j] != x;
    if c < i {
        assert(s[i] != x);
    } else if c > i {
        assert(s[c] != x);
    }
}

fn remove_first_range(v: &mut Vec<(usize, usize)>, x: (usize, usize))
    ensures
        final(v)@ == remove_first(old(v)@, x),
{
    let mut i: usize = 0;
    while i < v.len()
        invariant
            v@ == old(v)@,
            i <= v@.len(),
            forall|j: int| 0 <= j < i ==> v@[j] != x,
        decreases v@.len() - i,
    {
        if v[i].0 == x.0 && v[i].1 == x.1 {
            proof {
                lemma_remove_first_at(v@, x, i as int);
            }
            v.remove(i);
            return;
        }
        i = i + 1;
    }
    assert(!old(v)@.contains(x));
}

fn remove_last_range(v: &mut Vec<(usize, usize)>, x: (usize, usize))
    ensures
        final(v)@ == remove_last(old(v)@, x),
{
    let mut i: usize = v.len();
    while i > 0
        invariant
            v@ == old(v)@,
            i <= v@.len(),
            forall|j: int| i <= j < v@.len() ==> v@[j] != x,
        decreases i,
    {
        if v[i - 1].0 == x.0 && v[i - 1].1 == x.1 {
            proof {
                lemma_remove_last_at(v@, x, i - 1);
            }
            v.remove(i - 1);
            return;
        }
        i = i - 1;
    }
    assert(!old(v)@.contains(x));
}

/// The history of applied commands and the position between done and
/// undone ones.
pub struct UndoStack {
    commands: Vec<Command>,
    pointer: usize,
}

impl UndoStack {
    #[verifier::type_invariant]
    spec fn inv(&self) -> bool {
        self.pointer <= self.commands@.len()
    }

    /// The recorded commands, oldest first.
    pub closed spec fn commands(&self) -> Seq<Command> {
        self.commands@
    }

    /// Number of recorded commands that are currently applied.
    pub closed spec fn pointer(&self) -> nat {
        self.pointer as nat
    }

    /// An empty history.
    pub fn new() -> (s: UndoStack)
        ensures
            s.commands().len() == 0,
            s.pointer() == 0,
    {
        UndoStack { commands: Vec::new(), pointer: 0 }
    }

    /// Number of currently applied commands.
    pub fn get_pointer(&self) -> (p: usize)
        ensures
            p == self.pointer(),
            p <= self.commands().len(),
    {
        proof {
            use_type_invariant(self);
        }
        self.pointer
    }

    /// Records a command that has just been applied, dropping every undone one.
    pub fn push(&mut self, command: Command)
        ensures
            final(self).commands() == old(self).commands().take(old(self).pointer() as int).push(
                command,
            ),
            final(self).pointer() == old(self).pointer() + 1,
            old(self).pointer() <= old(self).commands().len(),
    {
        proof {
            use_type_invariant(&*self);
        }
        let mut taken = UndoStack::new();
        std::mem::swap(self, &mut taken);
        proof {
            use_type_invariant(&taken);
        }
        let UndoStack { mut commands, pointer } = taken;
        commands.truncate(pointer);
        commands.push(command);
        let len = commands.len();
        *self = UndoStack { commands, pointer: len };
    }

    /// Reverts the most recent applied command, if any, and moves the
    /// position back over it.
    pub fn undo(&mut self, state: &mut AppState) -> (msg: Option<String>)
        ensures
            old(self).pointer() == 0 ==> msg is None && *final(self) == *old(self) && *final(state)
                == *old(state),
            old(self).pointer() > 0 ==> {
                &&& msg matches Some(m) && m@ == undo_message(
                    old(self).commands()[old(self).pointer() - 1],
                )
                &&& final(self).commands() == old(self).commands()
                &&& final(self).pointer() == old(self).pointer() - 1
                &&& edit_model(final(state)) == old(self).commands()[old(self).pointer()
                    - 1].reverted(edit_model(old(state)))
                &&& same_outside_edits(old(state), final(state))
            },
    {
        proof {
            use_type_invariant(&*self);
        }
        if self.pointer == 0 {
            return None;
        }
        let mut taken = UndoStack::new();
        std::mem::swap(self, &mut taken);
        let UndoStack { commands, pointer } = taken;
        let p = pointer - 1;
        commands[p].undo(state);
        let msg = commands[p].undo_text();
        *self = UndoStack { commands, pointer: p };
        Some(msg)
    }

    /// Re-applies the first undone command, if any, and moves the position
    /// past it.
    pub fn redo(&mut self, state: &mut AppState) -> (msg: Option<String>)
        ensures
            old(self).pointer() == old(self).commands().len() ==> msg is None && *final(self)
                == *old(self) && *final(state) == *old(state),
            old(self).pointer() < old(self).commands().len() ==> {
                &&& msg matches Some(m) && m@ == redo_message(
                    old(self).commands()[old(self).pointer() as int],
                )
                &&& final(self).commands() == old(self).commands()
                &&& final(self).pointer() == old(self).pointer() + 1
                &&& edit_model(final(state)) == old(self).commands()[old(self).pointer() as int].applied(
                    edit_model(old(state)),
                )
                &&& same_outside_edits(old(state), final(state))
            },
    {
        proof {
            use_type_invariant(&*self);
        }
        if self.pointer == self.commands.len() {
            return None;
        }
        let mut taken = UndoStack::new();
        std::mem::swap(self, &mut taken);
        let UndoStack { commands, pointer } = taken;
        commands[pointer].apply(state);
        let msg = commands[pointer].redo_text();
        *self = UndoStack { commands, pointer: pointer + 1 };
        Some(msg)
    }
}

/// The short name of what a command does.
pub open spec fn command_name(c: Command) -> Seq<char> {
    match c {
        Command::SetBlockType { .. } => "Set Block Type"@,
        Command::SetAnalysisData { .. } => "Analysis"@,
        Command::ToggleSplitter { .. } => "Toggle Splitter"@,
        Command::SetImmediateFormat { .. } => "Set Immediate Format"@,
        Command::CollapseBlock { .. } => "Collapse Block"@,
        Command::UncollapseBlock { .. } => "Uncollapse Block"@,
        Command::SetLabel { .. } => "Set Label"@,
    }
}

/// Status text after undoing `c`.
pub open spec fn undo_message(c: Command) -> Seq<char> {
    "Undo: "@ + command_name(c)
}

/// Status text after redoing `c`.
pub open spec fn redo_message(c: Command) -> Seq<char> {
    "Redo: "@ + command_name(c)
}

impl Command {
    /// The short name of what the command does.
    pub fn name(&self) -> (s: &'static str)
        ensures
            s@ == command_name(*self),
    {
        match self {
            Command::SetBlockType { .. } => "Set Block Type",
            Command::SetAnalysisData { .. } => "Analysis",
            Command::ToggleSplitter { .. } => "Toggle Splitter",
            Command::SetImmediateFormat { .. } => "Set Immediate Format",
            Command::CollapseBlock { .. } => "Collapse Block",
            Command::UncollapseBlock { .. } => "Uncollapse Block",
            Command::SetLabel { .. } => "Set Label",
        }
    }

    fn undo_text(&self) -> (s: String)
        ensures
            s@ == undo_message(*self),
    {
        let mut s = "Undo: ".to_string();
        s.append(self.name());
        s
    }

    fn redo_text(&self) -> (s: String)
        ensures
            s@ == redo_message(*self),
    {
        let mut s = "Redo: ".to_string();
        s.append(self.name());
        s
    }
}


impl Command {
    /// What the command records as the previous contents is what `m`
    /// holds (and, for analysis results, every labelled address of `m` is
    /// among the result's addresses, with a non-empty label list).
    pub open spec fn records(&self, m: EditModel) -> bool {
        match *self {
            Command::SetBlockType { start, end, old_types, old_labels, old_cross_refs, .. } => {
                &&& start <= end <= m.block_types.len()
                &&& old_types@ == m.block_types.subrange(start as int, end as int)
                &&& label_view(old_labels@) == m.labels
                &&& old_cross_refs@ == m.cross_refs
            },
            Command::SetAnalysisData { labels, old_labels, old_cross_refs, .. } => {
                &&& label_view(old_labels@) == crate::state::labels_before(m.labels, labels@.dom())
                &&& m.labels.dom().subset_of(labels@.dom())
                &&& forall|k: u16| #[trigger] m.labels.contains_key(k) ==> m.labels[k].len() > 0
                &&& old_cross_refs@ == m.cross_refs
            },
            Command::ToggleSplitter { .. } => true,
            Command::SetImmediateFormat { address, old_format, .. } => old_format == if m.formats.contains_key(
                address,
            ) {
                Some(m.formats[address])
            } else {
                None
            },
            Command::CollapseBlock { .. } => true,
            Command::UncollapseBlock { range } => m.collapsed.contains(range),
            Command::SetLabel { address, old_label, .. } => match old_label {
                Some(v) => m.labels.contains_key(address) && m.labels[address] == v@,
                None => !m.labels.contains_key(address),
            },
        }
    }
}

/// Two edit models hold the same document: equal in every part, the
/// collapsed ranges compared as a multiset (their order has no meaning).
pub open spec fn same_edits(a: EditModel, b: EditModel) -> bool {
    &&& a.block_types == b.block_types
    &&& a.labels == b.labels
    &&& a.cross_refs == b.cross_refs
    &&& a.formats == b.formats
    &&& a.collapsed.to_multiset() == b.collapsed.to_multiset()
    &&& a.splitters == b.splitters
}

/// Undoing an edit right after applying it gives the document back.
pub proof fn law_revert_after_apply(c: Command, m: EditModel)
    requires
        c.records(m),
    ensures
        same_edits(c.reverted(c.applied(m)), m),
{
    broadcast use vstd::seq_lib::group_to_multiset_ensures;

    let r = c.reverted(c.applied(m));
    match c {
        Command::SetBlockType { start, end, new_type, old_types, .. } => {
            assert(r.block_types =~= m.block_types);
        },
        Command::SetAnalysisData { labels, old_labels, .. } => {
            assert(r.labels =~= m.labels);
        },
        Command::ToggleSplitter { address } => {
            assert(r.splitters =~= m.splitters);
        },
        Command::SetImmediateFormat { address, .. } => {
            assert(r.formats =~= m.formats);
        },
        Command::CollapseBlock { range } => {
            lemma_remove_last_at(m.collapsed.push(range), range, m.collapsed.len() as int);
            assert(m.collapsed.push(range).remove(m.collapsed.len() as int) =~= m.collapsed);
        },
        Command::UncollapseBlock { range } => {
            let s = m.collapsed;
            let i = choose|i: int| 0 <= i < s.len() && s[i] == range && forall|j: int| 0 <= j < i ==> s[j] != range;
            assert(exists|i: int| 0 <= i < s.len() && s[i] == range && forall|j: int| 0 <= j < i ==> s[j] != range) by {
                lemma_first_occurrence_exists(s, range);
            }
            lemma_remove_first_at(s, range, i);
            assert(r.collapsed == s.remove(i).push(range));
            assert(s.remove(i).push(range).to_multiset() =~= s.to_multiset().remove(range).insert(range));
            assert(s.to_multiset().count(range) > 0);
            assert(s.to_multiset().remove(range).insert(range) =~= s.to_multiset());
        },
        Command::SetLabel { address, old_label, .. } => {
            assert(r.labels =~= m.labels);
        },
    }
}

proof fn lemma_first_occurrence_exists(s: Seq<(usize, usize)>, x: (usize, usize))
    requires
        s.contains(x),
    ensures
        exists|i: int| 0 <= i < s.len() && s[i] == x && forall|j: int| 0 <= j < i ==> s[j] != x,
    decreases s.len(),
{
    if s.last() == x && !s.drop_last().contains(x) {
        let i = s.len() - 1;
        assert forall|j: int| 0 <= j < i implies s[j] != x by {
            if s[j] == x {
                assert(s.drop_last()[j] == x);
            }
        }
    } else {
        if s.last() != x {
            let k = choose|k: int| 0 <= k < s.len() && s[k] == x;
            assert(s.drop_last()[k] == x);
        }
        lemma_first_occurrence_exists(s.drop_last(), x);
        let i = choose|i: int|
            0 <= i < s.drop_last().len() && s.drop_last()[i] == x && forall|j: int| 0 <= j < i ==> s.drop_last()[j] != x;
        assert(s[i] == x);
        assert forall|j: int| 0 <= j < i implies s[j] != x by {
            assert(s.drop_last()[j] != x);
        }
    }
}

/// Redoing an edit right after undoing it gives the edited document back.
pub proof fn law_reapply_after_revert(c: Command, m: EditModel)
    requires
        c.records(m),
    ensures
        same_edits(c.applied(c.reverted(c.applied(m))), c.applied(m)),
{
    broadcast use vstd::seq_lib::group_to_multiset_ensures;

    law_revert_after_apply(c, m);
    let a = c.applied(m);
    let r = c.reverted(a);
    let ra = c.applied(r);
    match c {
        Command::SetBlockType { start, end, new_type, old_types, .. } => {
            assert(ra.block_types =~= a.block_types);
        },
        Command::SetAnalysisData { .. } => {},
        Command::ToggleSplitter { address } => {
            assert(ra.splitters =~= a.splitters);
        },
        Command::SetImmediateFormat { address, .. } => {
            assert(ra.formats =~= a.formats);
        },
        Command::CollapseBlock { range } => {
            assert(ra.collapsed.to_multiset() =~= r.collapsed.to_multiset().insert(range));
        },
        Command::UncollapseBlock { range } => {
            let s = r.collapsed;
            assert(s.contains(range)) by {
                assert(s.to_multiset().count(range) > 0);
            }
            lemma_first_occurrence_exists(s, range);
            let i = choose|i: int| 0 <= i < s.len() && s[i] == range && forall|j: int| 0 <= j < i ==> s[j] != range;
            lemma_remove_first_at(s, range, i);
            let t = m.collapsed;
            lemma_first_occurrence_exists(t, range);
            let i2 = choose|i: int| 0 <= i < t.len() && t[i] == range && forall|j: int| 0 <= j < i ==> t[j] != range;
            lemma_remove_first_at(t, range, i2);
            assert(ra.collapsed.to_multiset() =~= s.to_multiset().remove(range));
            assert(a.collapsed.to_multiset() =~= t.to_multiset().remove(range));
        },
        Command::SetLabel { address, .. } => {
            assert(ra.labels =~= a.labels);
        },
    }
}

/// Toggling a splitter twice leaves the splitters as they were.
pub proof fn law_toggle_twice(s: Set<u16>, x: u16)
    ensures
        toggled(toggled(s, x), x) == s,
{
    assert(toggled(toggled(s, x), x) =~= s);
}

} // verus!
