//! Project files: what a save records and what a load installs.
use crate::blocks::{compressed, Block};
use crate::commands::label_view;
use crate::document::{
    default_settings, DocumentSettings, HexdumpViewMode, ImmediateFormat, Label, LabelKind,
};
use crate::maps::sorted_keys;
use crate::raw_data::{encode_raw_data_to_base64, raw_data_decoded, raw_data_encoded, RawDataError};
use crate::state::AppState;
use std::collections::{BTreeMap, BTreeSet};
use vstd::prelude::*;
use vstd::std_specs::iter::IteratorSpec;

verus! {

broadcast use {
    vstd::std_specs::btree::group_btree_axioms,
    vstd::laws_cmp::group_laws_cmp,
    vstd::seq_lib::group_to_multiset_ensures,
};

/// What a save records of the interface besides the document.
pub struct ProjectSaveContext {
    pub cursor_address: Option<u16>,
    pub hex_dump_cursor_address: Option<u16>,
    pub sprites_cursor_address: Option<u16>,
    pub right_pane_visible: Option<String>,
    pub charset_cursor_address: Option<u16>,
    pub sprite_multicolor_mode: bool,
    pub charset_multicolor_mode: bool,
    pub hexdump_view_mode: HexdumpViewMode,
    pub splitters: BTreeSet<u16>,
    pub blocks_view_cursor: Option<usize>,
}

/// The content of a project file.
pub struct ProjectState {
    pub origin: u16,
    /// The image, gzip-compressed and base64-encoded.
    pub raw_data: String,
    pub blocks: Vec<Block>,
    pub labels: BTreeMap<u16, Vec<Label>>,
    pub user_side_comments: BTreeMap<u16, String>,
    pub user_line_comments: BTreeMap<u16, String>,
    pub settings: DocumentSettings,
    pub immediate_value_formats: BTreeMap<u16, ImmediateFormat>,
    pub cursor_address: Option<u16>,
    pub hex_dump_cursor_address: Option<u16>,
    pub sprites_cursor_address: Option<u16>,
    pub charset_cursor_address: Option<u16>,
    pub right_pane_visible: Option<String>,
    pub sprite_multicolor_mode: bool,
    pub charset_multicolor_mode: bool,
    pub hexdump_view_mode: HexdumpViewMode,
    pub splitters: BTreeSet<u16>,
    pub blocks_view_cursor: Option<usize>,
}

/// The interface state a load hands back to restore.
pub struct LoadedProjectData {
    pub cursor_address: Option<u16>,
    pub hex_dump_cursor_address: Option<u16>,
    pub sprites_cursor_address: Option<u16>,
    pub right_pane_visible: Option<String>,
    pub charset_cursor_address: Option<u16>,
    pub sprite_multicolor_mode: bool,
    pub charset_multicolor_mode: bool,
    pub hexdump_view_mode: HexdumpViewMode,
    pub blocks_view_cursor: Option<usize>,
}

/// Why a project could not be saved or loaded.
#[derive(Clone, Copy, Debug, PartialEq, Eq, Structural)]
pub enum ProjectError {
    /// Saving needs a project file name first.
    NoProjectPath,
    /// The image could not be stored or read back.
    RawData(RawDataError),
    /// The file describes blocks but holds no image bytes.
    BlocksWithoutData,
}

pub open spec fn project_error_message(e: ProjectError) -> Seq<char> {
    match e {
        ProjectError::NoProjectPath => "No project path set"@,
        ProjectError::RawData(r) => crate::raw_data::raw_data_error_message(r),
        ProjectError::BlocksWithoutData => "project has blocks but no image data"@,
    }
}

impl ProjectError {
    /// A short description for the status line.
    pub fn message(&self) -> (s: String)
        ensures
            s@ == project_error_message(*self),
    {
        match self {
            ProjectError::NoProjectPath => "No project path set".to_string(),
            ProjectError::RawData(r) => r.message(),
            ProjectError::BlocksWithoutData => "project has blocks but no image data".to_string(),
        }
    }
}

/// Strict lexicographic order of names by code point (the order of
/// `String`'s `<`, since UTF-8 keeps code point order bytewise).
pub open spec fn name_less(a: Seq<char>, b: Seq<char>) -> bool
    decreases a.len(),
{
    if a.len() == 0 {
        b.len() > 0
    } else if b.len() == 0 {
        false
    } else if a[0] != b[0] {
        (a[0] as int) < (b[0] as int)
    } else {
        name_less(a.drop_first(), b.drop_first())
    }
}

proof fn lemma_name_less_asymmetric(a: Seq<char>, b: Seq<char>)
    requires
        name_less(a, b),
    ensures
        !name_less(b, a),
    decreases a.len(),
{
    if a.len() > 0 && b.len() > 0 && a[0] == b[0] {
        lemma_name_less_asymmetric(a.drop_first(), b.drop_first());
    }
}

/// `a` sorts strictly before `b`.
pub fn name_precedes(a: &String, b: &String) -> (r: bool)
    ensures
        r == name_less(a@, b@),
{
    let mut ia = a.as_str().chars();
    let mut ib = b.as_str().chars();
    loop
        invariant
            name_less(a@, b@) == name_less(ia.remaining(), ib.remaining()),
            ia.decrease() is Some,
        decreases ia.decrease()->0,
    {
        let x = ia.next();
        let y = ib.next();
        match x {
            None => {
                return y.is_some();
            },
            Some(p) => match y {
                None => {
                    return false;
                },
                Some(q) => {
                    if p != q {
                        return p < q;
                    }
                },
            },
        }
    }
}

/// Each label is followed by none whose name sorts before it.
pub open spec fn names_ordered(s: Seq<Label>) -> bool {
    forall|i: int, j: int|
        0 <= i && j == i + 1 && j < s.len() ==> !name_less(#[trigger] s[j].name@, #[trigger] s[i].name@)
}

pub open spec fn is_user_label() -> spec_fn(Label) -> bool {
    |l: Label| l.kind == LabelKind::User
}

/// Whether a label has the given name.
pub open spec fn has_name(n: Seq<char>) -> spec_fn(Label) -> bool {
    |l: Label| l.name@ == n
}

/// `r` holds the user labels of `src`, ordered by name; labels with equal
/// names keep the order they have in `src`.
pub open spec fn saved_label_list(src: Seq<Label>, r: Seq<Label>) -> bool {
    &&& r.to_multiset() == src.filter(is_user_label()).to_multiset()
    &&& names_ordered(r)
    &&& forall|n: Seq<char>|
        #[trigger] r.filter(has_name(n)) == src.filter(is_user_label()).filter(has_name(n))
}

proof fn lemma_name_less_irreflexive(a: Seq<char>)
    ensures
        !name_less(a, a),
    decreases a.len(),
{
    if a.len() > 0 {
        lemma_name_less_irreflexive(a.drop_first());
    }
}

/// When `c` sorts before `a`, any `b` sorts before `a` or after `c`.
proof fn lemma_name_less_split(a: Seq<char>, b: Seq<char>, c: Seq<char>)
    requires
        name_less(c, a),
    ensures
        name_less(b, a) || name_less(c, b),
    decreases c.len(),
{
    if c.len() > 0 && b.len() > 0 {
        assert(b[0] != a[0] ==> b[0] as int != a[0] as int);
        assert(c[0] != b[0] ==> c[0] as int != b[0] as int);
        if c[0] == a[0] && b[0] == a[0] {
            lemma_name_less_split(a.drop_first(), b.drop_first(), c.drop_first());
        }
    }
}

/// In a list ordered by name, no label sorts before an earlier one.
proof fn lemma_names_ordered_chain(s: Seq<Label>, p: int, j: int)
    requires
        names_ordered(s),
        0 <= p <= j < s.len(),
    ensures
        !name_less(s[j].name@, s[p].name@),
    decreases j - p,
{
    if j == p {
        lemma_name_less_irreflexive(s[p].name@);
    } else {
        lemma_names_ordered_chain(s, p, j - 1);
        assert(!name_less(s[j].name@, s[j - 1].name@));
        if name_less(s[j].name@, s[p].name@) {
            lemma_name_less_split(s[p].name@, s[j - 1].name@, s[j].name@);
        }
    }
}

proof fn lemma_filter_none<A>(s: Seq<A>, f: spec_fn(A) -> bool)
    requires
        forall|i: int| 0 <= i < s.len() ==> !f(#[trigger] s[i]),
    ensures
        s.filter(f) =~= Seq::<A>::empty(),
    decreases s.len(),
{
    if s.len() > 0 {
        lemma_filter_none(s.drop_last(), f);
        s.drop_last().lemma_filter_push(s.last(), f);
        assert(s.drop_last().push(s.last()) =~= s);
    }
}

/// `r` is what a project file keeps of `labels`: per address, the user
/// labels ordered by name; addresses left without any are dropped.
pub open spec fn saved_labels(labels: Map<u16, Seq<Label>>, r: Map<u16, Seq<Label>>) -> bool {
    &&& forall|k: u16|
        #[trigger] r.contains_key(k) <==> labels.contains_key(k) && labels[k].filter(
            is_user_label(),
        ).len() > 0
    &&& forall|k: u16| #[trigger] r.contains_key(k) ==> saved_label_list(labels[k], r[k])
}

fn insert_by_name(v: &mut Vec<Label>, x: Label)
    requires
        names_ordered(old(v)@),
    ensures
        names_ordered(final(v)@),
        final(v)@.to_multiset() == old(v)@.to_multiset().insert(x),
        forall|n: Seq<char>| #[trigger]
            final(v)@.filter(has_name(n)) == if n == x.name@ {
                old(v)@.filter(has_name(n)).push(x)
            } else {
                old(v)@.filter(has_name(n))
            },
{
    let mut p: usize = 0;
    while p < v.len() && !name_precedes(&x.name, &v[p].name)
        invariant
            p <= v@.len(),
            forall|j: int| 0 <= j < p ==> !name_less(x.name@, #[trigger] v@[j].name@),
        decreases v@.len() - p,
    {
        p = p + 1;
    }
    let ghost before = v@;
    if p < v.len() {
        proof {
            lemma_name_less_asymmetric(x.name@, before[p as int].name@);
        }
    }
    v.insert(p, x);
    assert forall|i: int, j: int| 0 <= i && j == i + 1 && j < v@.len() implies !name_less(
        #[trigger] v@[j].name@,
        #[trigger] v@[i].name@,
    ) by {
        if j < p {
            assert(v@[i] == before[i] && v@[j] == before[j]);
        } else if i > p {
            assert(v@[i] == before[i - 1] && v@[j] == before[j - 1]);
        } else if i == p {
            assert(v@[j] == before[p as int]);
        } else {
            assert(v@[i] == before[i]);
        }
    }
    proof {
        let head = before.take(p as int);
        let tail = before.skip(p as int);
        assert(before =~= head + tail);
        assert(v@ =~= (head + seq![x]) + tail);
        assert forall|j: int| 0 <= j < tail.len() implies #[trigger] tail[j].name@ != x.name@ by {
            lemma_names_ordered_chain(before, p as int, p + j);
        }
        assert(seq![x] =~= Seq::<Label>::empty().push(x));
        assert forall|n: Seq<char>| #[trigger]
            v@.filter(has_name(n)) == if n == x.name@ {
                before.filter(has_name(n)).push(x)
            } else {
                before.filter(has_name(n))
            } by {
            Seq::filter_distributes_over_add(head + seq![x], tail, has_name(n));
            Seq::filter_distributes_over_add(head, seq![x], has_name(n));
            Seq::filter_distributes_over_add(head, tail, has_name(n));
            Seq::<Label>::empty().lemma_filter_push(x, has_name(n));
            assert(Seq::<Label>::empty().filter(has_name(n)) =~= Seq::<Label>::empty());
            if n == x.name@ {
                lemma_filter_none(tail, has_name(n));
                assert((head.filter(has_name(n)) + seq![x]) + tail.filter(has_name(n))
                    =~= (head.filter(has_name(n)) + tail.filter(has_name(n))).push(x));
            } else {
                assert(seq![x].filter(has_name(n)) =~= Seq::<Label>::empty());
                assert((head.filter(has_name(n)) + seq![x].filter(has_name(n))) =~= head.filter(has_name(n)));
            }
        }
    }
}

/// The user labels of `labels`, ordered by name (labels with equal names
/// keep their order).
pub fn user_labels_by_name(labels: &Vec<Label>) -> (r: Vec<Label>)
    ensures
        saved_label_list(labels@, r@),
{
    let mut r: Vec<Label> = Vec::new();
    let mut i: usize = 0;
    while i < labels.len()
        invariant
            i <= labels@.len(),
            names_ordered(r@),
            r@.to_multiset() == labels@.take(i as int).filter(is_user_label()).to_multiset(),
            forall|n: Seq<char>| #[trigger]
                r@.filter(has_name(n)) == labels@.take(i as int).filter(is_user_label()).filter(
                    has_name(n),
                ),
        decreases labels@.len() - i,
    {
        let ghost prefix = labels@.take(i as int);
        let ghost l = labels@[i as int];
        let ghost r_before = r@;
        assert(labels@.take(i + 1) =~= prefix.push(l));
        proof {
            prefix.lemma_filter_push(l, is_user_label());
        }
        if labels[i].kind == LabelKind::User {
            insert_by_name(&mut r, labels[i].duplicate());
        }
        proof {
            assert forall|n: Seq<char>| #[trigger]
                r@.filter(has_name(n)) == labels@.take(i + 1).filter(is_user_label()).filter(
                    has_name(n),
                ) by {
                assert(r_before.filter(has_name(n)) == prefix.filter(is_user_label()).filter(
                    has_name(n),
                ));
                prefix.filter(is_user_label()).lemma_filter_push(l, has_name(n));
            }
        }
        i = i + 1;
    }
    assert(labels@.take(labels@.len() as int) =~= labels@);
    r
}

/// What a project file keeps of `labels` (see `saved_labels`).
pub fn labels_for_save(labels: &BTreeMap<u16, Vec<Label>>) -> (r: BTreeMap<u16, Vec<Label>>)
    ensures
        saved_labels(label_view(labels@), label_view(r@)),
{
    let keys = sorted_keys(labels);
    let mut r: BTreeMap<u16, Vec<Label>> = BTreeMap::new();
    let mut i: usize = 0;
    while i < keys.len()
        invariant
            i <= keys@.len(),
            keys@.to_set() == labels@.dom(),
            keys@.no_duplicates(),
            forall|k: u16| #[trigger]
                r@.contains_key(k) ==> labels@.contains_key(k) && labels@[k]@.filter(
                    is_user_label(),
                ).len() > 0 && saved_label_list(labels@[k]@, r@[k]@),
            forall|k: u16|
                labels@.contains_key(k) && labels@[k]@.filter(is_user_label()).len() > 0 && (
                exists|j: int| 0 <= j < i && keys@[j] == k) ==> #[trigger] r@.contains_key(k),
            forall|k: u16| #[trigger]
                r@.contains_key(k) ==> exists|j: int| 0 <= j < i && keys@[j] == k,
        decreases keys@.len() - i,
    {
        let k = keys[i];
        proof {
            assert(keys@.contains(k));
            assert(keys@.to_set().contains(k));
        }
        let entry = labels.get(&k);
        match entry {
            Some(v) => {
                let kept = user_labels_by_name(v);
                proof {
                    assert(labels@[k] == *v);
                    assert(kept@.to_multiset().len() == kept@.len());
                    assert(v@.filter(is_user_label()).to_multiset().len() == v@.filter(
                        is_user_label(),
                    ).len());
                }
                if kept.len() > 0 {
                    r.insert(k, kept);
                }
            },
            None => {},
        }
        proof {
            assert forall|x: u16| #[trigger] r@.contains_key(x) implies exists|j: int|
                0 <= j < i + 1 && keys@[j] == x by {
                if x != k {
                    let j = choose|j: int| 0 <= j < i && keys@[j] == x;
                    assert(0 <= j < i + 1 && keys@[j] == x);
                } else {
                    assert(keys@[i as int] == x);
                }
            }
            assert forall|x: u16|
                labels@.contains_key(x) && labels@[x]@.filter(is_user_label()).len() > 0 && (
                exists|j: int| 0 <= j < i + 1 && keys@[j] == x) implies #[trigger] r@.contains_key(
                x,
            ) by {
                let j = choose|j: int| 0 <= j < i + 1 && keys@[j] == x;
                if j < i {
                    assert(exists|j2: int| 0 <= j2 < i && keys@[j2] == x);
                }
            }
        }
        i = i + 1;
    }
    proof {
        assert forall|k: u16|
            #[trigger] label_view(r@).contains_key(k) <==> label_view(labels@).contains_key(k)
                && label_view(labels@)[k].filter(is_user_label()).len() > 0 by {
            if labels@.contains_key(k) {
                assert(keys@.to_set().contains(k));
                assert(keys@.contains(k));
                let j = choose|j: int| 0 <= j < keys@.len() && keys@[j] == k;
                assert(exists|j2: int| 0 <= j2 < keys@.len() && keys@[j2] == k);
            }
        }
    }
    r
}

impl AppState {
    /// The project file content for this document and the given interface
    /// state: the compressed image, the block runs, the user labels only,
    /// the user comments, formats and settings.
    pub fn project_state(&self, ctx: ProjectSaveContext) -> (r: Result<ProjectState, RawDataError>)
        ensures
            match r {
                Ok(p) => {
                    &&& raw_data_encoded(self.raw_data@) == Ok::<Seq<char>, RawDataError>(
                        p.raw_data@,
                    )
                    &&& raw_data_decoded(p.raw_data@) == Ok::<Seq<u8>, RawDataError>(
                        self.raw_data@,
                    )
                    &&& p.origin == self.origin
                    &&& p.blocks@ == compressed(self.block_types@, self.collapsed_blocks@)
                    &&& saved_labels(label_view(self.labels@), label_view(p.labels@))
                    &&& p.user_side_comments@ == self.user_side_comments@
                    &&& p.user_line_comments@ == self.user_line_comments@
                    &&& p.immediate_value_formats@ == self.immediate_value_formats@
                    &&& p.settings == self.settings
                    &&& p.cursor_address == ctx.cursor_address
                    &&& p.hex_dump_cursor_address == ctx.hex_dump_cursor_address
                    &&& p.sprites_cursor_address == ctx.sprites_cursor_address
                    &&& p.charset_cursor_address == ctx.charset_cursor_address
                    &&& p.right_pane_visible == ctx.right_pane_visible
                    &&& p.sprite_multicolor_mode == ctx.sprite_multicolor_mode
                    &&& p.charset_multicolor_mode == ctx.charset_multicolor_mode
                    &&& p.hexdump_view_mode == ctx.hexdump_view_mode
                    &&& p.splitters == ctx.splitters
                    &&& p.blocks_view_cursor == ctx.blocks_view_cursor
                },
                Err(e) => raw_data_encoded(self.raw_data@) == Err::<Seq<char>, RawDataError>(e),
            },
    {
        let raw_data = match encode_raw_data_to_base64(self.raw_data.as_slice()) {
            Ok(s) => s,
            Err(e) => {
                return Err(e);
            },
        };
        Ok(
            ProjectState {
                origin: self.origin,
                raw_data,
                blocks: self.get_compressed_blocks(),
                labels: labels_for_save(&self.labels),
                user_side_comments: self.user_side_comments.clone(),
                user_line_comments: self.user_line_comments.clone(),
                settings: self.settings,
                immediate_value_formats: self.immediate_value_formats.clone(),
                cursor_address: ctx.cursor_address,
                hex_dump_cursor_address: ctx.hex_dump_cursor_address,
                sprites_cursor_address: ctx.sprites_cursor_address,
                charset_cursor_address: ctx.charset_cursor_address,
                right_pane_visible: ctx.right_pane_visible,
                sprite_multicolor_mode: ctx.sprite_multicolor_mode,
                charset_multicolor_mode: ctx.charset_multicolor_mode,
                hexdump_view_mode: ctx.hexdump_view_mode,
                splitters: ctx.splitters,
                blocks_view_cursor: ctx.blocks_view_cursor,
            },
        )
    }

    /// The first half of a save: the file to write and what to write in
    /// it. Fails without a project file name.
    pub fn prepare_save(&self, ctx: ProjectSaveContext) -> (r: Result<
        (String, ProjectState),
        ProjectError,
    >)
        ensures
            self.project_path is None ==> r == Err::<(String, ProjectState), ProjectError>(
                ProjectError::NoProjectPath,
            ),
            self.project_path is Some ==> match r {
                Ok((path, p)) => {
                    &&& Some(path) == self.project_path
                    &&& raw_data_encoded(self.raw_data@) == Ok::<Seq<char>, RawDataError>(
                        p.raw_data@,
                    )
                    &&& raw_data_decoded(p.raw_data@) == Ok::<Seq<u8>, RawDataError>(
                        self.raw_data@,
                    )
                    &&& p.origin == self.origin
                    &&& p.blocks@ == compressed(self.block_types@, self.collapsed_blocks@)
                    &&& saved_labels(label_view(self.labels@), label_view(p.labels@))
                    &&& p.user_side_comments@ == self.user_side_comments@
                    &&& p.user_line_comments@ == self.user_line_comments@
                    &&& p.immediate_value_formats@ == self.immediate_value_formats@
                    &&& p.settings == self.settings
                    &&& p.cursor_address == ctx.cursor_address
                    &&& p.hex_dump_cursor_address == ctx.hex_dump_cursor_address
                    &&& p.sprites_cursor_address == ctx.sprites_cursor_address
                    &&& p.charset_cursor_address == ctx.charset_cursor_address
                    &&& p.right_pane_visible == ctx.right_pane_visible
                    &&& p.sprite_multicolor_mode == ctx.sprite_multicolor_mode
                    &&& p.charset_multicolor_mode == ctx.charset_multicolor_mode
                    &&& p.hexdump_view_mode == ctx.hexdump_view_mode
                    &&& p.splitters == ctx.splitters
                    &&& p.blocks_view_cursor == ctx.blocks_view_cursor
                },
                Err(e) => exists|x: RawDataError|
                    e == ProjectError::RawData(x) && raw_data_encoded(self.raw_data@) == Err::<
                        Seq<char>,
                        RawDataError,
                    >(x),
            },
    {
        match &self.project_path {
            None => Err(ProjectError::NoProjectPath),
            Some(path) => match self.project_state(ctx) {
                Ok(p) => Ok((path.clone(), p)),
                Err(e) => Err(ProjectError::RawData(e)),
            },
        }
    }

    /// The second half of a save, once the file is written: the current
    /// undo position becomes the saved one, and the project becomes the
    /// one to reopen when `update_global_config` is set.
    pub fn mark_saved(&mut self, update_global_config: bool)
        ensures
            final(self).last_saved_pointer == old(self).undo_stack.pointer(),
            update_global_config ==> final(self).system_config.last_project_path == old(
                self,
            ).project_path,
            !update_global_config ==> final(self).system_config == old(self).system_config,
            final(self).system_config.open_last_project == old(self).system_config.open_last_project,
            final(self).undo_stack == old(self).undo_stack,
            final(self).labels == old(self).labels,
            final(self).block_types == old(self).block_types,
            final(self).raw_data == old(self).raw_data,
            final(self).project_path == old(self).project_path,
    {
        self.last_saved_pointer = self.undo_stack.get_pointer();
        if update_global_config {
            self.system_config.last_project_path = self.project_path.clone();
        }
    }
}


/// The platform's built-in knowledge: comments and labels for system
/// addresses, and addresses the analysis leaves alone.
pub struct SystemAssets {
    pub comments: BTreeMap<u16, String>,
    pub labels: Vec<(u16, Label)>,
    pub excludes: Vec<u16>,
}

pub open spec fn is_not_system_label() -> spec_fn(Label) -> bool {
    |l: Label| l.kind != LabelKind::System
}

/// `labels` without their system labels; addresses left without any
/// label are dropped.
pub open spec fn without_system_labels(labels: Map<u16, Seq<Label>>) -> Map<u16, Seq<Label>> {
    Map::new(
        |k: u16| labels.contains_key(k) && labels[k].filter(is_not_system_label()).len() > 0,
        |k: u16| labels[k].filter(is_not_system_label()),
    )
}

/// `labels` with each `(address, label)` of `added` appended, in order, to
/// the labels at its address.
pub open spec fn with_labels_added(labels: Map<u16, Seq<Label>>, added: Seq<(u16, Label)>) -> Map<
    u16,
    Seq<Label>,
>
    decreases added.len(),
{
    if added.len() == 0 {
        labels
    } else {
        let prev = with_labels_added(labels, added.drop_last());
        let (a, l) = added.last();
        prev.insert(
            a,
            if prev.contains_key(a) {
                prev[a].push(l)
            } else {
                seq![l]
            },
        )
    }
}

fn non_system_labels(v: &Vec<Label>) -> (r: Vec<Label>)
    ensures
        r@ == v@.filter(is_not_system_label()),
{
    let mut r: Vec<Label> = Vec::new();
    let mut i: usize = 0;
    while i < v.len()
        invariant
            i <= v@.len(),
            r@ == v@.take(i as int).filter(is_not_system_label()),
        decreases v@.len() - i,
    {
        let ghost prefix = v@.take(i as int);
        assert(v@.take(i + 1) =~= prefix.push(v@[i as int]));
        proof {
            prefix.lemma_filter_push(v@[i as int], is_not_system_label());
        }
        if v[i].kind != LabelKind::System {
            r.push(v[i].duplicate());
        }
        i = i + 1;
    }
    assert(v@.take(v@.len() as int) =~= v@);
    r
}

/// `labels` without their system labels (see `without_system_labels`).
pub fn drop_system_labels(labels: &BTreeMap<u16, Vec<Label>>) -> (r: BTreeMap<u16, Vec<Label>>)
    ensures
        label_view(r@) == without_system_labels(label_view(labels@)),
{
    let keys = sorted_keys(labels);
    let mut r: BTreeMap<u16, Vec<Label>> = BTreeMap::new();
    let mut i: usize = 0;
    while i < keys.len()
        invariant
            i <= keys@.len(),
            keys@.to_set() == labels@.dom(),
            forall|k: u16| #[trigger]
                r@.contains_key(k) ==> labels@.contains_key(k) && labels@[k]@.filter(
                    is_not_system_label(),
                ).len() > 0 && r@[k]@ == labels@[k]@.filter(is_not_system_label()),
            forall|k: u16|
                labels@.contains_key(k) && labels@[k]@.filter(is_not_system_label()).len() > 0 && (
                exists|j: int| 0 <= j < i && keys@[j] == k) ==> #[trigger] r@.contains_key(k),
        decreases keys@.len() - i,
    {
        let k = keys[i];
        proof {
            assert(keys@.contains(k));
            assert(keys@.to_set().contains(k));
        }
        match labels.get(&k) {
            Some(v) => {
                let kept = non_system_labels(v);
                if kept.len() > 0 {
                    r.insert(k, kept);
                }
            },
            None => {},
        }
        proof {
            assert forall|x: u16|
                labels@.contains_key(x) && labels@[x]@.filter(is_not_system_label()).len() > 0 && (
                exists|j: int| 0 <= j < i + 1 && keys@[j] == x) implies #[trigger] r@.contains_key(
                x,
            ) by {
                let j = choose|j: int| 0 <= j < i + 1 && keys@[j] == x;
                if j < i {
                    assert(exists|j2: int| 0 <= j2 < i && keys@[j2] == x);
                }
            }
        }
        i = i + 1;
    }
    proof {
        let target = without_system_labels(label_view(labels@));
        assert forall|k: u16| #[trigger] label_view(r@).contains_key(k) <==> target.contains_key(
            k,
        ) by {
            if labels@.contains_key(k) {
                assert(keys@.to_set().contains(k));
                assert(keys@.contains(k));
                let j = choose|j: int| 0 <= j < keys@.len() && keys@[j] == k;
                assert(exists|j2: int| 0 <= j2 < keys@.len() && keys@[j2] == k);
            }
        }
        assert(label_view(r@) =~= target);
    }
    r
}

impl AppState {
    /// Replaces the platform's built-in knowledge: the system labels are
    /// dropped (with addresses left without labels), the system comments
    /// and excluded addresses replaced, and the new system labels appended.
    pub fn load_system_assets(&mut self, assets: SystemAssets)
        ensures
            label_view(final(self).labels@) == with_labels_added(
                without_system_labels(label_view(old(self).labels@)),
                assets.labels@,
            ),
            final(self).system_comments@ == assets.comments@,
            final(self).excluded_addresses@ == assets.excludes@.to_set(),
            final(self).block_types == old(self).block_types,
            final(self).raw_data == old(self).raw_data,
            final(self).origin == old(self).origin,
            final(self).settings == old(self).settings,
            final(self).user_side_comments == old(self).user_side_comments,
            final(self).user_line_comments == old(self).user_line_comments,
            final(self).immediate_value_formats == old(self).immediate_value_formats,
            final(self).cross_refs == old(self).cross_refs,
            final(self).collapsed_blocks == old(self).collapsed_blocks,
            final(self).splitters == old(self).splitters,
            final(self).undo_stack == old(self).undo_stack,
            final(self).last_saved_pointer == old(self).last_saved_pointer,
            final(self).file_path == old(self).file_path,
            final(self).project_path == old(self).project_path,
            final(self).export_path == old(self).export_path,
            final(self).system_config == old(self).system_config,
            final(self).disassembly == old(self).disassembly,
    {
        broadcast use vstd::std_specs::hash::group_hash_axioms;

        let mut all = drop_system_labels(&self.labels);
        let SystemAssets { comments, labels, excludes } = assets;
        let ghost base = label_view(all@);
        let mut i: usize = 0;
        while i < labels.len()
            invariant
                i <= labels@.len(),
                label_view(all@) == with_labels_added(base, labels@.take(i as int)),
            decreases labels@.len() - i,
        {
            let addr = labels[i].0;
            let label = labels[i].1.duplicate();
            let mut entry = match all.remove(&addr) {
                Some(v) => v,
                None => Vec::new(),
            };
            entry.push(label);
            all.insert(addr, entry);
            proof {
                let added = labels@.take(i + 1);
                assert(added.drop_last() =~= labels@.take(i as int));
                assert(added.last() == labels@[i as int]);
                assert(label_view(all@) =~= with_labels_added(base, added));
            }
            i = i + 1;
        }
        assert(labels@.take(labels@.len() as int) =~= labels@);
        let mut excluded: std::collections::HashSet<u16> = std::collections::HashSet::new();
        let mut j: usize = 0;
        while j < excludes.len()
            invariant
                j <= excludes@.len(),
                excluded@ == excludes@.take(j as int).to_set(),
            decreases excludes@.len() - j,
        {
            proof {
                assert(excludes@.take(j + 1) =~= excludes@.take(j as int).push(excludes@[j as int]));
                excludes@.take(j as int).lemma_push_to_set_commute(excludes@[j as int]);
            }
            excluded.insert(excludes[j]);
            j = j + 1;
        }
        assert(excludes@.take(excludes@.len() as int) =~= excludes@);
        self.labels = all;
        self.system_comments = comments;
        self.excluded_addresses = excluded;
    }
}


/// What kind of file a name refers to, by its extension.
#[derive(Clone, Copy, Debug, PartialEq, Eq, Structural)]
pub enum FileKind {
    Project,
    Prg,
    Crt,
    Vsf,
    T64,
    /// Anything else: a raw memory image.
    Binary,
}

/// `c` with ASCII upper-case letters folded to lower case, as a code point.
pub open spec fn folded_code(c: char) -> u32 {
    if 65 <= (c as u32) <= 90 {
        ((c as u32) + 32) as u32
    } else {
        c as u32
    }
}

/// `a` and `b` are equal up to ASCII case.
pub open spec fn equal_ignoring_ascii_case(a: Seq<char>, b: Seq<char>) -> bool
    decreases a.len(),
{
    if a.len() == 0 {
        b.len() == 0
    } else if b.len() == 0 {
        false
    } else {
        folded_code(a[0]) == folded_code(b[0]) && equal_ignoring_ascii_case(
            a.drop_first(),
            b.drop_first(),
        )
    }
}

fn fold_code(c: char) -> (r: u32)
    ensures
        r == folded_code(c),
{
    let v = c as u32;
    if 65 <= v && v <= 90 {
        v + 32
    } else {
        v
    }
}

/// `a` equals `b` up to ASCII case.
pub fn same_ignoring_ascii_case(a: &str, b: &str) -> (r: bool)
    ensures
        r == equal_ignoring_ascii_case(a@, b@),
{
    let mut ia = a.chars();
    let mut ib = b.chars();
    loop
        invariant
            equal_ignoring_ascii_case(a@, b@) == equal_ignoring_ascii_case(
                ia.remaining(),
                ib.remaining(),
            ),
            ia.decrease() is Some,
        decreases ia.decrease()->0,
    {
        let x = ia.next();
        let y = ib.next();
        match x {
            None => {
                return y.is_none();
            },
            Some(p) => match y {
                None => {
                    return false;
                },
                Some(q) => {
                    if fold_code(p) != fold_code(q) {
                        return false;
                    }
                },
            },
        }
    }
}

/// The kind of file with extension `ext` (compared ignoring ASCII case).
pub open spec fn file_kind_of(ext: Option<Seq<char>>) -> FileKind {
    match ext {
        None => FileKind::Binary,
        Some(e) => if equal_ignoring_ascii_case(e, "regen2000proj"@) {
            FileKind::Project
        } else if equal_ignoring_ascii_case(e, "prg"@) {
            FileKind::Prg
        } else if equal_ignoring_ascii_case(e, "crt"@) {
            FileKind::Crt
        } else if equal_ignoring_ascii_case(e, "vsf"@) {
            FileKind::Vsf
        } else if equal_ignoring_ascii_case(e, "t64"@) {
            FileKind::T64
        } else {
            FileKind::Binary
        },
    }
}

/// Classifies a file by its extension (see `file_kind_of`).
pub fn file_kind(ext: Option<&str>) -> (k: FileKind)
    ensures
        k == file_kind_of(
            match ext {
                Some(e) => Some(e@),
                None => None,
            },
        ),
{
    match ext {
        None => FileKind::Binary,
        Some(e) => if same_ignoring_ascii_case(e, "regen2000proj") {
            FileKind::Project
        } else if same_ignoring_ascii_case(e, "prg") {
            FileKind::Prg
        } else if same_ignoring_ascii_case(e, "crt") {
            FileKind::Crt
        } else if same_ignoring_ascii_case(e, "vsf") {
            FileKind::Vsf
        } else if same_ignoring_ascii_case(e, "t64") {
            FileKind::T64
        } else {
            FileKind::Binary
        },
    }
}

/// The load address and memory image held in a file of a kind this
/// library reads itself: a `.prg` of at least two bytes starts with its
/// little-endian load address; any other such file is an image for
/// address 0. Cartridge, snapshot and tape files (`None`) need their own
/// readers.
pub fn image_of_file(kind: FileKind, data: Vec<u8>) -> (r: Option<(u16, Vec<u8>)>)
    ensures
        match kind {
            FileKind::Prg | FileKind::Binary => r is Some,
            _ => r is None,
        },
        r matches Some((origin, image)) ==> if kind == FileKind::Prg && data@.len() >= 2 {
            origin == data@[0] + 256 * data@[1] && image@ == data@.skip(2)
        } else {
            origin == 0 && image@ == data@
        },
{
    match kind {
        FileKind::Prg | FileKind::Binary => {
            if kind == FileKind::Prg && data.len() >= 2 {
                let lo = data[0] as u16;
                let hi = data[1] as u16;
                let origin = hi * 256 + lo;
                let mut image: Vec<u8> = Vec::new();
                let mut i: usize = 2;
                while i < data.len()
                    invariant
                        2 <= i <= data@.len(),
                        image@ == data@.subrange(2, i as int),
                    decreases data@.len() - i,
                {
                    image.push(data[i]);
                    i = i + 1;
                }
                Some((origin, image))
            } else {
                Some((0, data))
            }
        },
        _ => None,
    }
}

/// Where the first document comes from at start-up.
#[derive(Clone, Debug, PartialEq, Eq)]
pub enum InitialLoad {
    /// The file named on the command line.
    FromArgs(String),
    /// The project saved last, which still exists.
    LastProject(String),
    Nothing,
}

/// The interface state a freshly loaded image starts with.
pub open spec fn fresh_load_data(d: LoadedProjectData, cursor_start: Option<u16>) -> bool {
    &&& d.cursor_address == cursor_start
    &&& d.hex_dump_cursor_address is None
    &&& d.sprites_cursor_address is None
    &&& d.right_pane_visible is None
    &&& d.charset_cursor_address is None
    &&& !d.sprite_multicolor_mode
    &&& !d.charset_multicolor_mode
    &&& d.hexdump_view_mode == HexdumpViewMode::ScreencodeShifted
    &&& d.blocks_view_cursor is None
}

/// The interface state recorded in a project.
pub open spec fn project_load_data(d: LoadedProjectData, p: ProjectState) -> bool {
    &&& d.cursor_address == p.cursor_address
    &&& d.hex_dump_cursor_address == p.hex_dump_cursor_address
    &&& d.sprites_cursor_address == p.sprites_cursor_address
    &&& d.right_pane_visible == p.right_pane_visible
    &&& d.charset_cursor_address == p.charset_cursor_address
    &&& d.sprite_multicolor_mode == p.sprite_multicolor_mode
    &&& d.charset_multicolor_mode == p.charset_multicolor_mode
    &&& d.hexdump_view_mode == p.hexdump_view_mode
    &&& d.blocks_view_cursor == p.blocks_view_cursor
}

/// The document after loading a parsed project file (see
/// `AppState::load_project_state`): the file name and origin are recorded;
/// an image that decodes (and is not missing under block runs) is
/// installed with everything the project holds.
pub open spec fn project_loaded(
    a0: &AppState,
    a1: &AppState,
    path: String,
    project: ProjectState,
    assets: SystemAssets,
    r: Result<LoadedProjectData, ProjectError>,
) -> bool {
    &&& a1.project_path == Some(path)
    &&& a1.origin == project.origin
    &&& match crate::raw_data::raw_data_decoded(project.raw_data@) {
        Err(e) => r == Err::<LoadedProjectData, ProjectError>(ProjectError::RawData(e)),
        Ok(image) => if image.len() == 0 && project.blocks@.len() > 0 {
            r == Err::<LoadedProjectData, ProjectError>(ProjectError::BlocksWithoutData)
        } else {
            &&& r matches Ok(d) && project_load_data(d, project)
            &&& a1.raw_data@ == image
            &&& a1.block_types@ == crate::blocks::expanded_types(
                project.blocks@,
                image.len(),
            )
            &&& a1.collapsed_blocks@ == crate::blocks::expanded_collapsed(
                project.blocks@,
                project.blocks@.len(),
                image.len(),
            )
            &&& label_view(a1.labels@) == with_labels_added(
                without_system_labels(label_view(project.labels@)),
                assets.labels@,
            )
            &&& a1.user_side_comments@ == project.user_side_comments@
            &&& a1.user_line_comments@ == project.user_line_comments@
            &&& a1.immediate_value_formats@ == project.immediate_value_formats@
            &&& a1.settings == project.settings
            &&& a1.splitters@ == project.splitters@
            &&& a1.system_comments@ == assets.comments@
            &&& a1.excluded_addresses@ == assets.excludes@.to_set()
            &&& a1.undo_stack.pointer() == 0
            &&& a1.undo_stack.commands().len() == 0
            &&& a1.last_saved_pointer == 0
        },
    }
    &&& a1.file_path == a0.file_path
    &&& a1.system_config == a0.system_config
}

impl AppState {
    /// Which document to open at start-up: the file named by the first
    /// argument after the program name, else the last saved project when
    /// reopening is enabled and that file still exists.
    pub fn resolve_initial_load(&self, args: &Vec<String>, last_project_exists: bool) -> (r: InitialLoad)
        ensures
            args@.len() > 1 ==> r == InitialLoad::FromArgs(args@[1]),
            args@.len() <= 1 ==> r == match self.system_config.last_project_path {
                Some(p) if self.system_config.open_last_project && last_project_exists =>
                    InitialLoad::LastProject(p),
                _ => InitialLoad::Nothing,
            },
    {
        if args.len() > 1 {
            InitialLoad::FromArgs(args[1].clone())
        } else if self.system_config.open_last_project && last_project_exists {
            match &self.system_config.last_project_path {
                Some(p) => InitialLoad::LastProject(p.clone()),
                None => InitialLoad::Nothing,
            }
        } else {
            InitialLoad::Nothing
        }
    }

    /// The start of every load: the document forgets its file names,
    /// labels, settings, user comments and immediate formats.
    pub fn begin_load(&mut self, path: String)
        ensures
            final(self).file_path == Some(path),
            final(self).project_path is None,
            final(self).labels@.is_empty(),
            final(self).settings == default_settings(),
            final(self).user_side_comments@.is_empty(),
            final(self).user_line_comments@.is_empty(),
            final(self).immediate_value_formats@.is_empty(),
            final(self).raw_data == old(self).raw_data,
            final(self).origin == old(self).origin,
            final(self).block_types == old(self).block_types,
            final(self).collapsed_blocks == old(self).collapsed_blocks,
            final(self).splitters == old(self).splitters,
            final(self).cross_refs == old(self).cross_refs,
            final(self).undo_stack == old(self).undo_stack,
            final(self).last_saved_pointer == old(self).last_saved_pointer,
            final(self).system_config == old(self).system_config,
    {
        self.file_path = Some(path);
        self.project_path = None;
        self.labels = BTreeMap::new();
        self.settings = DocumentSettings::default();
        self.user_side_comments = BTreeMap::new();
        self.user_line_comments = BTreeMap::new();
        self.immediate_value_formats = BTreeMap::new();
    }

    /// Installs a memory image read from a file: every byte becomes code,
    /// the history starts empty and unmodified, and the platform's system
    /// labels, comments and exclusions are loaded.
    pub fn load_image(
        &mut self,
        origin: u16,
        image: Vec<u8>,
        cursor_start: Option<u16>,
        assets: SystemAssets,
    ) -> (d: LoadedProjectData)
        ensures
            fresh_load_data(d, cursor_start),
            final(self).origin == origin,
            final(self).raw_data@ == image@,
            final(self).block_types@ == Seq::new(
                image@.len(),
                |i: int| crate::blocks::BlockType::Code,
            ),
            final(self).undo_stack.pointer() == 0,
            final(self).undo_stack.commands().len() == 0,
            final(self).last_saved_pointer == 0,
            label_view(final(self).labels@) == with_labels_added(
                without_system_labels(label_view(old(self).labels@)),
                assets.labels@,
            ),
            final(self).system_comments@ == assets.comments@,
            final(self).excluded_addresses@ == assets.excludes@.to_set(),
            final(self).file_path == old(self).file_path,
            final(self).project_path == old(self).project_path,
            final(self).settings == old(self).settings,
            final(self).user_side_comments == old(self).user_side_comments,
            final(self).user_line_comments == old(self).user_line_comments,
            final(self).immediate_value_formats == old(self).immediate_value_formats,
            final(self).collapsed_blocks == old(self).collapsed_blocks,
            final(self).splitters == old(self).splitters,
            final(self).cross_refs == old(self).cross_refs,
            final(self).system_config == old(self).system_config,
    {
        let n = image.len();
        self.origin = origin;
        self.raw_data = image;
        self.block_types = vec![crate::blocks::BlockType::Code; n];
        self.undo_stack = crate::commands::UndoStack::new();
        self.last_saved_pointer = 0;
        self.load_system_assets(assets);
        assert(self.block_types@ =~= Seq::new(n as nat, |i: int| crate::blocks::BlockType::Code));
        LoadedProjectData {
            cursor_address: cursor_start,
            hex_dump_cursor_address: None,
            sprites_cursor_address: None,
            right_pane_visible: None,
            charset_cursor_address: None,
            sprite_multicolor_mode: false,
            charset_multicolor_mode: false,
            hexdump_view_mode: HexdumpViewMode::ScreencodeShifted,
            blocks_view_cursor: None,
        }
    }

    /// Installs a project whose image is already decoded: block types and
    /// collapsed ranges from its runs, its labels, comments, formats,
    /// settings and splitters, then the platform's system assets; the
    /// history starts empty and unmodified.
    pub fn install_project(
        &mut self,
        project: ProjectState,
        image: Vec<u8>,
        assets: SystemAssets,
    ) -> (d: LoadedProjectData)
        requires
            image@.len() > 0 || project.blocks@.len() == 0,
        ensures
            project_load_data(d, project),
            final(self).raw_data@ == image@,
            final(self).block_types@ == crate::blocks::expanded_types(
                project.blocks@,
                image@.len(),
            ),
            final(self).collapsed_blocks@ == crate::blocks::expanded_collapsed(
                project.blocks@,
                project.blocks@.len(),
                image@.len(),
            ),
            label_view(final(self).labels@) == with_labels_added(
                without_system_labels(label_view(project.labels@)),
                assets.labels@,
            ),
            final(self).user_side_comments@ == project.user_side_comments@,
            final(self).user_line_comments@ == project.user_line_comments@,
            final(self).immediate_value_formats@ == project.immediate_value_formats@,
            final(self).settings == project.settings,
            final(self).splitters@ == project.splitters@,
            final(self).system_comments@ == assets.comments@,
            final(self).excluded_addresses@ == assets.excludes@.to_set(),
            final(self).undo_stack.pointer() == 0,
            final(self).undo_stack.commands().len() == 0,
            final(self).last_saved_pointer == 0,
            final(self).origin == old(self).origin,
            final(self).file_path == old(self).file_path,
            final(self).project_path == old(self).project_path,
            final(self).cross_refs == old(self).cross_refs,
            final(self).system_config == old(self).system_config,
    {
        let (block_types, collapsed) = crate::blocks::expand_blocks(
            project.blocks.as_slice(),
            image.len(),
        );
        let d = LoadedProjectData {
            cursor_address: project.cursor_address,
            hex_dump_cursor_address: project.hex_dump_cursor_address,
            sprites_cursor_address: project.sprites_cursor_address,
            right_pane_visible: project.right_pane_visible,
            charset_cursor_address: project.charset_cursor_address,
            sprite_multicolor_mode: project.sprite_multicolor_mode,
            charset_multicolor_mode: project.charset_multicolor_mode,
            hexdump_view_mode: project.hexdump_view_mode,
            blocks_view_cursor: project.blocks_view_cursor,
        };
        self.raw_data = image;
        self.block_types = block_types;
        self.labels = project.labels;
        self.user_side_comments = project.user_side_comments;
        self.user_line_comments = project.user_line_comments;
        self.immediate_value_formats = project.immediate_value_formats;
        self.settings = project.settings;
        self.splitters = project.splitters;
        self.load_system_assets(assets);
        self.collapsed_blocks = collapsed;
        self.undo_stack = crate::commands::UndoStack::new();
        self.last_saved_pointer = 0;
        d
    }

    /// Loads a parsed project file: records its file name and origin,
    /// decodes its image and installs it (see `install_project`). An image
    /// that cannot be decoded, or runs without any image bytes, are
    /// refused.
    pub fn load_project_state(
        &mut self,
        path: String,
        project: ProjectState,
        assets: SystemAssets,
    ) -> (r: Result<LoadedProjectData, ProjectError>)
        ensures
            project_loaded(old(self), final(self), path, project, assets, r),
    {
        self.project_path = Some(path);
        self.origin = project.origin;
        let image = match crate::raw_data::decode_raw_data_from_base64(project.raw_data.as_str()) {
            Ok(v) => v,
            Err(e) => {
                return Err(ProjectError::RawData(e));
            },
        };
        if image.len() == 0 && project.blocks.len() > 0 {
            return Err(ProjectError::BlocksWithoutData);
        }
        let d = self.install_project(project, image, assets);
        Ok(d)
    }

    /// Replaces labels and cross references by an analysis result, outside
    /// the undo history (as after loading).
    pub fn install_analysis(
        &mut self,
        labels: BTreeMap<u16, Vec<Label>>,
        cross_refs: BTreeMap<u16, Vec<u16>>,
    )
        ensures
            final(self).labels == labels,
            final(self).cross_refs == cross_refs,
            final(self).block_types == old(self).block_types,
            final(self).undo_stack == old(self).undo_stack,
            final(self).last_saved_pointer == old(self).last_saved_pointer,
            final(self).raw_data == old(self).raw_data,
            final(self).origin == old(self).origin,
            final(self).collapsed_blocks == old(self).collapsed_blocks,
            final(self).splitters == old(self).splitters,
            final(self).settings == old(self).settings,
    {
        self.labels = labels;
        self.cross_refs = cross_refs;
    }
}

/// Loading what a save wrote gives the document back: the image, the
/// origin, the block types (when there is one per image byte), which bytes
/// are collapsed, the settings, the user comments, formats and splitters;
/// the labels are the saved user labels with the platform's system labels
/// added.
pub proof fn law_save_then_load(
    a0: AppState,
    p: ProjectState,
    before_load: AppState,
    a1: AppState,
    path: String,
    assets: SystemAssets,
    r: Result<LoadedProjectData, ProjectError>,
)
    requires
        a0.block_types@.len() == a0.raw_data@.len(),
        a0.block_types@.len() <= usize::MAX,
        // `a0.project_state(ctx)` returned `Ok(p)`
        raw_data_decoded(p.raw_data@) == Ok::<Seq<u8>, RawDataError>(a0.raw_data@),
        p.origin == a0.origin,
        p.blocks@ == compressed(a0.block_types@, a0.collapsed_blocks@),
        saved_labels(label_view(a0.labels@), label_view(p.labels@)),
        p.user_side_comments@ == a0.user_side_comments@,
        p.user_line_comments@ == a0.user_line_comments@,
        p.immediate_value_formats@ == a0.immediate_value_formats@,
        p.settings == a0.settings,
        p.splitters@ == a0.splitters@,
        // `before_load.load_project_state(path, p, assets)` gave `a1` and `r`
        project_loaded(&before_load, &a1, path, p, assets, r),
    ensures
        r is Ok,
        a1.raw_data@ == a0.raw_data@,
        a1.origin == a0.origin,
        a1.block_types@ == a0.block_types@,
        forall|i: int|
            0 <= i < a0.block_types@.len() ==> (crate::blocks::in_ranges(a1.collapsed_blocks@, i)
                <==> crate::blocks::in_ranges(a0.collapsed_blocks@, i)),
        a1.settings == a0.settings,
        a1.user_side_comments@ == a0.user_side_comments@,
        a1.user_line_comments@ == a0.user_line_comments@,
        a1.immediate_value_formats@ == a0.immediate_value_formats@,
        a1.splitters@ == a0.splitters@,
        label_view(a1.labels@) == with_labels_added(
            without_system_labels(label_view(p.labels@)),
            assets.labels@,
        ),
        a1.undo_stack.pointer() == a1.last_saved_pointer,
{
    crate::blocks::lemma_expand_compress_roundtrip(a0.block_types@, a0.collapsed_blocks@);
    if a0.raw_data@.len() == 0 {
        assert(compressed(a0.block_types@, a0.collapsed_blocks@).len() == 0);
    }
}

} // verus!
