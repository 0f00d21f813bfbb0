//! Definitions of labels that point outside the loaded image, listed at the
//! top of the listing grouped by label type.
use crate::document::{Label, LabelType};
use crate::listing::{empty_line, DisassemblyLine};
use crate::maps::sorted_keys;
use crate::state::{outside_image, AppState};
use std::collections::BTreeMap;
use vstd::prelude::*;

verus! {

broadcast use {vstd::std_specs::btree::group_btree_axioms, vstd::laws_cmp::group_laws_cmp};

/// `ks` lists the addresses of `dom` in increasing order.
pub open spec fn ascending_keys(ks: Seq<u16>, dom: Set<u16>) -> bool {
    &&& ks.to_set() == dom
    &&& forall|i: int, j: int| 0 <= i < j < ks.len() ==> ks[i] < ks[j]
}

/// Labels at the first `n` addresses of `ks` that lie outside the image,
/// as (address, label) pairs in address order.
pub open spec fn external_candidates(
    ks: Seq<u16>,
    labels: Map<u16, Seq<Label>>,
    origin: u16,
    len: nat,
    n: nat,
) -> Seq<(u16, Label)>
    decreases n,
{
    if n == 0 {
        Seq::empty()
    } else {
        let prev = external_candidates(ks, labels, origin, len, (n - 1) as nat);
        let k = ks[n - 1];
        if outside_image(origin, len, k) {
            prev + labels[k].map_values(|l: Label| (k, l))
        } else {
            prev
        }
    }
}

/// `s` without every entry whose label name already occurred earlier.
pub open spec fn first_of_each_name(s: Seq<(u16, Label)>) -> Seq<(u16, Label)>
    decreases s.len(),
{
    if s.len() == 0 {
        Seq::empty()
    } else {
        let prev = first_of_each_name(s.drop_last());
        if exists|j: int| 0 <= j < prev.len() && #[trigger] prev[j].1.name@ == s.last().1.name@ {
            prev
        } else {
            prev.push(s.last())
        }
    }
}

/// The group (0 to 7) a label type is listed under.
pub open spec fn group_of(t: LabelType) -> int {
    match t {
        LabelType::ZeroPageField => 0,
        LabelType::ZeroPageAbsoluteAddress => 1,
        LabelType::ZeroPagePointer => 2,
        LabelType::Field => 3,
        LabelType::AbsoluteAddress => 4,
        LabelType::Pointer => 5,
        LabelType::ExternalJump => 6,
        _ => 7,
    }
}

/// Title of each group.
pub open spec fn group_title(g: int) -> Seq<char> {
    if g == 0 {
        "ZP FIELDS"@
    } else if g == 1 {
        "ZP ABSOLUTE ADDRESSES"@
    } else if g == 2 {
        "ZP POINTERS"@
    } else if g == 3 {
        "FIELDS"@
    } else if g == 4 {
        "ABSOLUTE ADDRESSES"@
    } else if g == 5 {
        "POINTERS"@
    } else if g == 6 {
        "EXTERNAL JUMPS"@
    } else {
        "OTHERS"@
    }
}

/// What one line of the definitions block is.
pub enum DefinitionLine {
    Header(int),
    Definition(u16, Label, bool),
    Blank,
}

/// The lines of group `g` for the entries `s`: nothing when the group is
/// empty, else a header, one definition per entry and a blank line.
pub open spec fn group_lines(s: Seq<(u16, Label)>, g: int) -> Seq<DefinitionLine> {
    let members = s.filter(|e: (u16, Label)| group_of(e.1.label_type) == g);
    if members.len() == 0 {
        Seq::empty()
    } else {
        seq![DefinitionLine::Header(g)] + members.map_values(
            |e: (u16, Label)| DefinitionLine::Definition(e.0, e.1, g < 3),
        ) + seq![DefinitionLine::Blank]
    }
}

/// The lines of groups `0..g`.
pub open spec fn groups_lines(s: Seq<(u16, Label)>, g: nat) -> Seq<DefinitionLine>
    decreases g,
{
    if g == 0 {
        Seq::empty()
    } else {
        groups_lines(s, (g - 1) as nat) + group_lines(s, g - 1)
    }
}

/// The definition lines of a document whose label addresses, in order, are `ks`.
pub open spec fn definition_lines(s: &AppState, ks: Seq<u16>) -> Seq<DefinitionLine> {
    groups_lines(
        first_of_each_name(
            external_candidates(
                ks,
                crate::commands::label_view(s.labels@),
                s.origin,
                s.raw_data@.len(),
                ks.len(),
            ),
        ),
        8,
    )
}

/// The side comment shown for an address: the user's, else the system's,
/// else none.
pub open spec fn side_comment(s: &AppState, addr: u16) -> Seq<char> {
    if s.user_side_comments@.contains_key(addr) {
        s.user_side_comments@[addr]@
    } else if s.system_comments@.contains_key(addr) {
        s.system_comments@[addr]@
    } else {
        Seq::empty()
    }
}

/// `l` renders `d`, with header lines `prefix title` and definition lines
/// as `format_definition` renders them.
pub open spec fn renders<F: Fn(&String, u16, bool) -> String>(
    s: &AppState,
    l: DisassemblyLine,
    d: DefinitionLine,
    prefix: Seq<char>,
    format_definition: F,
) -> bool {
    &&& l.address == 0
    &&& l.bytes@.len() == 0
    &&& l.operand@.len() == 0
    &&& l.line_comment is None
    &&& l.label is None
    &&& l.opcode is None
    &&& l.show_bytes
    &&& l.target_address is None
    &&& !l.is_collapsed
    &&& match d {
        DefinitionLine::Header(g) => {
            &&& l.mnemonic@ == prefix + " "@ + group_title(g)
            &&& l.comment@.len() == 0
            &&& l.comment_address is None
        },
        DefinitionLine::Definition(addr, label, zp) => {
            &&& call_ensures(format_definition, (&label.name, addr, zp), l.mnemonic)
            &&& l.comment@ == side_comment(s, addr)
            &&& l.comment_address == Some(addr)
        },
        DefinitionLine::Blank => {
            &&& l.mnemonic@.len() == 0
            &&& l.comment@.len() == 0
            &&& l.comment_address is None
        },
    }
}


fn group_title_text(g: usize) -> (s: &'static str)
    ensures
        s@ == group_title(g as int),
{
    if g == 0 {
        "ZP FIELDS"
    } else if g == 1 {
        "ZP ABSOLUTE ADDRESSES"
    } else if g == 2 {
        "ZP POINTERS"
    } else if g == 3 {
        "FIELDS"
    } else if g == 4 {
        "ABSOLUTE ADDRESSES"
    } else if g == 5 {
        "POINTERS"
    } else if g == 6 {
        "EXTERNAL JUMPS"
    } else {
        "OTHERS"
    }
}

fn group_number(t: LabelType) -> (g: usize)
    ensures
        g as int == group_of(t),
{
    match t {
        LabelType::ZeroPageField => 0,
        LabelType::ZeroPageAbsoluteAddress => 1,
        LabelType::ZeroPagePointer => 2,
        LabelType::Field => 3,
        LabelType::AbsoluteAddress => 4,
        LabelType::Pointer => 5,
        LabelType::ExternalJump => 6,
        _ => 7,
    }
}

impl AppState {
    fn collect_external_candidates(&self, keys: &Vec<u16>) -> (r: Vec<(u16, Label)>)
        requires
            ascending_keys(keys@, self.labels@.dom()),
        ensures
            r@ == external_candidates(
                keys@,
                crate::commands::label_view(self.labels@),
                self.origin,
                self.raw_data@.len(),
                keys@.len(),
            ),
    {
        let ghost lv = crate::commands::label_view(self.labels@);
        let mut r: Vec<(u16, Label)> = Vec::new();
        let mut i: usize = 0;
        while i < keys.len()
            invariant
                i <= keys@.len(),
                ascending_keys(keys@, self.labels@.dom()),
                lv == crate::commands::label_view(self.labels@),
                r@ == external_candidates(keys@, lv, self.origin, self.raw_data@.len(), i as nat),
            decreases keys@.len() - i,
        {
            let k = keys[i];
            if self.is_external(k) {
                assert(keys@.to_set().contains(k)) by {
                    assert(keys@.contains(k));
                }
                let labels = self.labels.get(&k).unwrap();
                assert(lv[k] == labels@);
                let ghost prefix = r@;
                let mut j: usize = 0;
                while j < labels.len()
                    invariant
                        j <= labels@.len(),
                        r@ == prefix + labels@.take(j as int).map_values(|l: Label| (k, l)),
                    decreases labels@.len() - j,
                {
                    r.push((k, labels[j].duplicate()));
                    assert(labels@.take((j + 1) as int).map_values(|l: Label| (k, l))
                        =~= labels@.take(j as int).map_values(|l: Label| (k, l)).push((k, labels@[j as int])));
                    assert(r@ =~= prefix + labels@.take((j + 1) as int).map_values(
                        |l: Label| (k, l),
                    ));
                    j = j + 1;
                }
                assert(labels@.take(labels@.len() as int) =~= labels@);
            }
            i = i + 1;
        }
        r
    }

    /// Header, definition and blank lines for the labels that point
    /// outside the image, grouped by label type (zero-page fields,
    /// zero-page absolute addresses, zero-page pointers, fields, absolute
    /// addresses, pointers, external jumps, others), each group in address
    /// order, one line per label name (its first occurrence). Headers read
    /// `comment_prefix` and the group title; definitions are rendered by
    /// `format_definition(name, address, is_zero_page)`.
    pub fn get_external_label_definitions<F: Fn(&String, u16, bool) -> String>(
        &self,
        comment_prefix: &str,
        format_definition: F,
    ) -> (lines: Vec<DisassemblyLine>)
        requires
            forall|n: &String, a: u16, z: bool| call_requires(format_definition, (n, a, z)),
        ensures
            exists|ks: Seq<u16>|
                {
                    &&& ascending_keys(ks, self.labels@.dom())
                    &&& lines@.len() == definition_lines(self, ks).len()
                    &&& forall|i: int|
                        0 <= i < lines@.len() ==> renders(
                            self,
                            #[trigger] lines@[i],
                            definition_lines(self, ks)[i],
                            comment_prefix@,
                            format_definition,
                        )
                },
    {
        let keys = sorted_keys(&self.labels);
        let candidates = self.collect_external_candidates(&keys);
        let mut kept: Vec<(u16, Label)> = Vec::new();
        let mut i: usize = 0;
        while i < candidates.len()
            invariant
                i <= candidates@.len(),
                kept@ == first_of_each_name(candidates@.take(i as int)),
            decreases candidates@.len() - i,
        {
            let mut seen = false;
            let mut j: usize = 0;
            while j < kept.len()
                invariant
                    i < candidates@.len(),
                    j <= kept@.len(),
                    seen <==> exists|q: int| 0 <= q < j && #[trigger] kept@[q].1.name@
                        == candidates@[i as int].1.name@,
                decreases kept@.len() - j,
            {
                if kept[j].1.name == candidates[i].1.name {
                    seen = true;
                }
                j = j + 1;
            }
            assert(candidates@.take((i + 1) as int).drop_last() =~= candidates@.take(i as int));
            if !seen {
                kept.push((candidates[i].0, candidates[i].1.duplicate()));
            }
            i = i + 1;
        }
        assert(candidates@.take(candidates@.len() as int) =~= candidates@);
        let ghost ks = keys@;
        let ghost descs = definition_lines(self, ks);
        assert(kept@ == first_of_each_name(
            external_candidates(
                ks,
                crate::commands::label_view(self.labels@),
                self.origin,
                self.raw_data@.len(),
                ks.len(),
            ),
        ));
        let mut lines: Vec<DisassemblyLine> = Vec::new();
        let mut g: usize = 0;
        while g < 8
            invariant
                g <= 8,
                forall|n: &String, a: u16, z: bool| call_requires(format_definition, (n, a, z)),
                lines@.len() == groups_lines(kept@, g as nat).len(),
                forall|q: int|
                    0 <= q < lines@.len() ==> renders(
                        self,
                        #[trigger] lines@[q],
                        groups_lines(kept@, g as nat)[q],
                        comment_prefix@,
                        format_definition,
                    ),
            decreases 8 - g,
        {
            let ghost pred = |e: (u16, Label)| group_of(e.1.label_type) == g as int;
            let mut members: Vec<(u16, Label)> = Vec::new();
            let mut j: usize = 0;
            while j < kept.len()
                invariant
                    j <= kept@.len(),
                    pred == (|e: (u16, Label)| group_of(e.1.label_type) == g as int),
                    members@ == kept@.take(j as int).filter(pred),
                decreases kept@.len() - j,
            {
                proof {
                    assert(kept@.take((j + 1) as int) =~= kept@.take(j as int).push(kept@[j as int]));
                    kept@.take(j as int).lemma_filter_push(kept@[j as int], pred);
                }
                if group_number(kept[j].1.label_type) == g {
                    members.push((kept[j].0, kept[j].1.duplicate()));
                }
                j = j + 1;
            }
            assert(kept@.take(kept@.len() as int) =~= kept@);
            let ghost before = lines@;
            let ghost group = group_lines(kept@, g as int);
            if members.len() > 0 {
                let mut header = comment_prefix.to_string();
                header.append(" ");
                header.append(group_title_text(g));
                lines.push(empty_line(header, String::new(), None));
                let mut q: usize = 0;
                while q < members.len()
                    invariant
                        q <= members@.len(),
                        members@.len() > 0,
                        members@ == kept@.filter(pred),
                        pred == (|e: (u16, Label)| group_of(e.1.label_type) == g as int),
                        group == group_lines(kept@, g as int),
                        forall|n: &String, a: u16, z: bool| call_requires(format_definition, (n, a, z)),
                        lines@.len() == before.len() + 1 + q,
                        before.len() == groups_lines(kept@, g as nat).len(),
                        forall|r: int|
                            0 <= r < before.len() + 1 + q ==> renders(
                                self,
                                #[trigger] lines@[r],
                                if r < before.len() {
                                    groups_lines(kept@, g as nat)[r]
                                } else {
                                    group[r - before.len()]
                                },
                                comment_prefix@,
                                format_definition,
                            ),
                    decreases members@.len() - q,
                {
                    let addr = members[q].0;
                    let name = &members[q].1.name;
                    let mnemonic = format_definition(name, addr, g < 3);
                    let comment = match self.user_side_comments.get(&addr) {
                        Some(c) => c.clone(),
                        None => match self.system_comments.get(&addr) {
                            Some(c) => c.clone(),
                            None => String::new(),
                        },
                    };
                    lines.push(empty_line(mnemonic, comment, Some(addr)));
                    q = q + 1;
                }
                lines.push(empty_line(String::new(), String::new(), None));
            }
            assert(groups_lines(kept@, (g + 1) as nat) == groups_lines(kept@, g as nat) + group);
            g = g + 1;
        }
        assert(ascending_keys(ks, self.labels@.dom()));
        lines
    }
}


impl AppState {
    /// Installs the listing `lines` that the disassembler produced for the
    /// current document. With `all_labels` set, the definitions of labels
    /// outside the image (see `get_external_label_definitions`) come first.
    pub fn disassemble<F: Fn(&String, u16, bool) -> String>(
        &mut self,
        lines: Vec<DisassemblyLine>,
        comment_prefix: &str,
        format_definition: F,
    )
        requires
            forall|n: &String, a: u16, z: bool| call_requires(format_definition, (n, a, z)),
        ensures
            !old(self).settings.all_labels ==> final(self).disassembly@ == lines@,
            old(self).settings.all_labels ==> exists|ks: Seq<u16>|
                #![trigger definition_lines(old(self), ks)]
                {
                    let defs = definition_lines(old(self), ks);
                    &&& ascending_keys(ks, old(self).labels@.dom())
                    &&& final(self).disassembly@.len() == defs.len() + lines@.len()
                    &&& final(self).disassembly@.skip(defs.len() as int) == lines@
                    &&& forall|i: int|
                        0 <= i < defs.len() ==> renders(
                            old(self),
                            #[trigger] final(self).disassembly@[i],
                            defs[i],
                            comment_prefix@,
                            format_definition,
                        )
                },
            *final(self) == (AppState { disassembly: final(self).disassembly, ..*old(self) }),
    {
        let ghost given = lines@;
        let mut lines = lines;
        if self.settings.all_labels {
            let mut all_lines = self.get_external_label_definitions(comment_prefix, format_definition);
            let ghost n = all_lines@.len();
            all_lines.append(&mut lines);
            assert(all_lines@.skip(n as int) =~= given);
            self.disassembly = all_lines;
        } else {
            self.disassembly = lines;
        }
    }
}

} // verus!
