//! Block types of the memory image and their run-length encoding.
//!
//! Every byte of the loaded image carries a `BlockType`. Project files store
//! these as maximal runs (`Block`), each run also remembering whether it lies
//! inside a collapsed range.
use std::collections::BTreeSet;
use vstd::prelude::*;

verus! {

/// How a byte of the memory image is to be interpreted.
#[derive(Clone, Copy, Debug, PartialEq, Eq, Structural)]
pub enum BlockType {
    Code,
    DataByte,
    DataWord,
    Address,
    Text,
    Screencode,
    LoHi,
    HiLo,
    ExternalFile,
    Undefined,
}

/// The name of a block type as shown to the user.
pub open spec fn block_type_name(t: BlockType) -> Seq<char> {
    match t {
        BlockType::Code => "Code"@,
        BlockType::DataByte => "Byte"@,
        BlockType::DataWord => "Word"@,
        BlockType::Address => "Address"@,
        BlockType::Text => "Text"@,
        BlockType::Screencode => "Screencode"@,
        BlockType::LoHi => "Lo/Hi"@,
        BlockType::HiLo => "Hi/Lo"@,
        BlockType::ExternalFile => "External File"@,
        BlockType::Undefined => "Undefined"@,
    }
}

impl BlockType {
    /// The name of the block type as shown to the user.
    pub fn display_string(&self) -> (s: &'static str)
        ensures
            s@ == block_type_name(*self),
    {
        match self {
            BlockType::Code => "Code",
            BlockType::DataByte => "Byte",
            BlockType::DataWord => "Word",
            BlockType::Address => "Address",
            BlockType::Text => "Text",
            BlockType::Screencode => "Screencode",
            BlockType::LoHi => "Lo/Hi",
            BlockType::HiLo => "Hi/Lo",
            BlockType::ExternalFile => "External File",
            BlockType::Undefined => "Undefined",
        }
    }
}

/// A maximal run `[start, end]` (inclusive byte offsets) of one block type.
#[derive(Clone, Copy, Debug, PartialEq, Eq, Structural)]
pub struct Block {
    pub start: usize,
    pub end: usize,
    pub type_: BlockType,
    pub collapsed: bool,
}

/// Offset `i` lies inside one of the inclusive `ranges`.
pub open spec fn in_ranges(ranges: Seq<(usize, usize)>, i: int) -> bool {
    exists|k: int| 0 <= k < ranges.len() && #[trigger] ranges[k].0 <= i <= ranges[k].1
}

/// The runs of `types[0..n]`: a new run starts wherever the type or the
/// collapsed flag differs from the previous byte.
pub open spec fn runs(types: Seq<BlockType>, ranges: Seq<(usize, usize)>, n: nat) -> Seq<Block>
    decreases n,
{
    if n == 0 {
        Seq::empty()
    } else {
        let prev = runs(types, ranges, (n - 1) as nat);
        let i = n - 1;
        let t = types[i];
        let c = in_ranges(ranges, i);
        if n > 1 && prev.len() > 0 && prev.last().type_ == t && prev.last().collapsed == c {
            prev.update(prev.len() - 1, Block { end: i as usize, ..prev.last() })
        } else {
            prev.push(Block { start: i as usize, end: i as usize, type_: t, collapsed: c })
        }
    }
}

/// The run-length encoding of a whole block-type sequence.
pub open spec fn compressed(types: Seq<BlockType>, ranges: Seq<(usize, usize)>) -> Seq<Block> {
    runs(types, ranges, types.len())
}

fn is_collapsed(ranges: &[(usize, usize)], idx: usize) -> (r: bool)
    ensures
        r == in_ranges(ranges@, idx as int),
{
    let mut k: usize = 0;
    while k < ranges.len()
        invariant
            k <= ranges@.len(),
            forall|j: int| 0 <= j < k ==> !(#[trigger] ranges@[j].0 <= idx <= ranges@[j].1),
        decreases ranges@.len() - k,
    {
        if ranges[k].0 <= idx && idx <= ranges[k].1 {
            return true;
        }
        k = k + 1;
    }
    false
}

/// Encodes the per-byte block types as maximal runs of equal type and equal
/// collapsed-ness.
pub fn compress_block_types(types: &[BlockType], collapsed_ranges: &[(usize, usize)]) -> (r: Vec<
    Block,
>)
    ensures
        r@ == compressed(types@, collapsed_ranges@),
{
    if types.len() == 0 {
        return Vec::new();
    }
    let mut ranges: Vec<Block> = Vec::new();
    let mut start: usize = 0;
    let mut current_type = types[0];
    let mut current_collapsed = is_collapsed(collapsed_ranges, 0);
    assert(runs(types@, collapsed_ranges@, 0) =~= Seq::<Block>::empty());
    assert(runs(types@, collapsed_ranges@, 1) =~= seq![
        Block { start: 0, end: 0, type_: current_type, collapsed: current_collapsed },
    ]);
    let mut i: usize = 1;
    while i < types.len()
        invariant
            1 <= i <= types@.len(),
            start < i,
            runs(types@, collapsed_ranges@, i as nat) == ranges@.push(
                Block {
                    start: start,
                    end: (i - 1) as usize,
                    type_: current_type,
                    collapsed: current_collapsed,
                },
            ),
        decreases types@.len() - i,
    {
        let t = types[i];
        let collapsed = is_collapsed(collapsed_ranges, i);
        if t != current_type || collapsed != current_collapsed {
            ranges.push(
                Block { start, end: i - 1, type_: current_type, collapsed: current_collapsed },
            );
            start = i;
            current_type = t;
            current_collapsed = collapsed;
        }
        i = i + 1;
    }
    ranges.push(
        Block { start, end: types.len() - 1, type_: current_type, collapsed: current_collapsed },
    );
    ranges
}


/// Byte `i` of an image of `len` bytes is covered by `b` once `b.end` is
/// clipped to the image.
pub open spec fn covers(b: Block, len: nat, i: int) -> bool {
    b.start <= i && i <= b.end && i < len
}

/// The block type that expansion assigns to byte `i`: the type of the last
/// of the first `m` ranges that covers it, or `Code`.
pub open spec fn expanded_type(ranges: Seq<Block>, m: nat, len: nat, i: int) -> BlockType
    decreases m,
{
    if m == 0 {
        BlockType::Code
    } else if covers(ranges[m - 1], len, i) {
        ranges[m - 1].type_
    } else {
        expanded_type(ranges, (m - 1) as nat, len, i)
    }
}

/// The per-byte types that expansion of `ranges` over `len` bytes yields.
pub open spec fn expanded_types(ranges: Seq<Block>, len: nat) -> Seq<BlockType> {
    Seq::new(len, |i: int| expanded_type(ranges, ranges.len(), len, i))
}

/// `b.end` clipped to the last byte of an image of `len > 0` bytes.
pub open spec fn clipped_end(b: Block, len: nat) -> int {
    if b.end < len - 1 {
        b.end as int
    } else {
        len - 1
    }
}

/// The collapsed ranges that expansion of the first `m` ranges yields: the
/// clipped extent of each non-empty collapsed range, in order.
pub open spec fn expanded_collapsed(ranges: Seq<Block>, m: nat, len: nat) -> Seq<(usize, usize)>
    decreases m,
{
    if m == 0 {
        Seq::empty()
    } else {
        let prev = expanded_collapsed(ranges, (m - 1) as nat, len);
        let b = ranges[m - 1];
        if b.start <= clipped_end(b, len) && b.collapsed {
            prev.push((b.start, clipped_end(b, len) as usize))
        } else {
            prev
        }
    }
}

/// Decodes runs back into per-byte types (bytes no run covers are `Code`)
/// and the list of collapsed ranges. Later runs win where runs overlap;
/// run ends past the image are clipped to its last byte.
pub fn expand_blocks(ranges: &[Block], len: usize) -> (r: (Vec<BlockType>, Vec<(usize, usize)>))
    requires
        len > 0 || ranges@.len() == 0,
    ensures
        r.0@ == expanded_types(ranges@, len as nat),
        r.1@ == expanded_collapsed(ranges@, ranges@.len(), len as nat),
{
    let mut types: Vec<BlockType> = vec![BlockType::Code; len];
    let mut collapsed_ranges: Vec<(usize, usize)> = Vec::new();
    let mut k: usize = 0;
    while k < ranges.len()
        invariant
            k <= ranges@.len(),
            len > 0 || ranges@.len() == 0,
            types@.len() == len,
            forall|i: int|
                0 <= i < len ==> #[trigger] types@[i] == expanded_type(ranges@, k as nat, len as nat, i),
            collapsed_ranges@ == expanded_collapsed(ranges@, k as nat, len as nat),
        decreases ranges@.len() - k,
    {
        let range = ranges[k];
        let end = if range.end < len - 1 {
            range.end
        } else {
            len - 1
        };
        if range.start <= end {
            if range.collapsed {
                collapsed_ranges.push((range.start, end));
            }
            let mut j: usize = range.start;
            while j <= end
                invariant
                    range == ranges@[k as int],
                    k < ranges@.len(),
                    end < len,
                    end as int == clipped_end(range, len as nat),
                    range.start <= j <= end + 1,
                    types@.len() == len,
                    forall|i: int|
                        0 <= i < len ==> #[trigger] types@[i] == if range.start <= i < j {
                            range.type_
                        } else {
                            expanded_type(ranges@, k as nat, len as nat, i)
                        },
                decreases end + 1 - j,
            {
                types.set(j, range.type_);
                j = j + 1;
            }
        }
        k = k + 1;
    }
    assert(types@ =~= expanded_types(ranges@, len as nat));
    (types, collapsed_ranges)
}


/// Some run of `r` contains byte `i`.
pub open spec fn run_containing(r: Seq<Block>, i: int) -> bool {
    exists|k: int| 0 <= k < r.len() && #[trigger] r[k].start <= i <= r[k].end
}

/// The shape of `runs`: consecutive, non-empty, covering `[0, n)`, each run
/// uniform in type and collapsed-ness, and adjacent runs differing in one of
/// the two.
pub proof fn lemma_runs_shape(types: Seq<BlockType>, ranges: Seq<(usize, usize)>, n: nat)
    requires
        n <= types.len(),
        n <= usize::MAX,
    ensures
        ({
            let r = runs(types, ranges, n);
            &&& (r.len() == 0 <==> n == 0)
            &&& r.len() > 0 ==> r[0].start == 0 && r.last().end == n - 1
            &&& forall|k: int| 0 <= k < r.len() ==> #[trigger] r[k].start <= r[k].end < n
            &&& forall|k: int|
                0 <= k < r.len() - 1 ==> #[trigger] r[k + 1].start == r[k].end + 1
            &&& forall|k: int, i: int|
                #![trigger r[k], types[i]]
                0 <= k < r.len() && r[k].start <= i <= r[k].end ==> types[i] == r[k].type_
                    && in_ranges(ranges, i) == r[k].collapsed
            &&& forall|k: int|
                0 <= k < r.len() - 1 ==> (#[trigger] r[k + 1].type_ != r[k].type_ || r[k
                    + 1].collapsed != r[k].collapsed)
            &&& forall|i: int| 0 <= i < n ==> #[trigger] run_containing(r, i)
        }),
    decreases n,
{
    if n > 0 {
        lemma_runs_shape(types, ranges, (n - 1) as nat);
        let prev = runs(types, ranges, (n - 1) as nat);
        let r = runs(types, ranges, n);
        let i = n - 1;
        if n > 1 && prev.len() > 0 && prev.last().type_ == types[i] && prev.last().collapsed
            == in_ranges(ranges, i) {
            assert forall|j: int| 0 <= j < n implies #[trigger] run_containing(r, j) by {
                if j < n - 1 {
                    assert(run_containing(prev, j));
                    let k = choose|k: int| 0 <= k < prev.len() && #[trigger] prev[k].start <= j <= prev[k].end;
                    assert(r[k].start <= j <= r[k].end);
                } else {
                    assert(r[r.len() - 1].start <= j <= r[r.len() - 1].end);
                }
            }
        } else {
            assert forall|j: int| 0 <= j < n implies #[trigger] run_containing(r, j) by {
                if j < n - 1 {
                    assert(run_containing(prev, j));
                    let k = choose|k: int| 0 <= k < prev.len() && #[trigger] prev[k].start <= j <= prev[k].end;
                    assert(r[k].start <= j <= r[k].end);
                } else {
                    assert(r[r.len() - 1].start <= j <= r[r.len() - 1].end);
                }
            }
        }
    }
}

proof fn lemma_expand_runs_prefix(types: Seq<BlockType>, ranges: Seq<(usize, usize)>, m: nat, i: int)
    requires
        types.len() <= usize::MAX,
        m <= compressed(types, ranges).len(),
        0 <= i < types.len(),
    ensures
        expanded_type(compressed(types, ranges), m, types.len(), i) == if m > 0 && i
            <= compressed(types, ranges)[m - 1].end {
            types[i]
        } else {
            BlockType::Code
        },
    decreases m,
{
    let r = compressed(types, ranges);
    lemma_runs_shape(types, ranges, types.len());
    if m > 0 {
        lemma_expand_runs_prefix(types, ranges, (m - 1) as nat, i);
        if m > 1 {
            let k = m - 2;
            assert(r[k + 1].start == r[k].end + 1);
        }
    }
}

proof fn lemma_collapsed_prefix(types: Seq<BlockType>, ranges: Seq<(usize, usize)>, m: nat, i: int)
    requires
        types.len() <= usize::MAX,
        m <= compressed(types, ranges).len(),
        0 <= i < types.len(),
    ensures
        in_ranges(expanded_collapsed(compressed(types, ranges), m, types.len()), i) <==> exists|
            k: int,
        |
            0 <= k < m && #[trigger] compressed(types, ranges)[k].collapsed
                && compressed(types, ranges)[k].start <= i <= compressed(types, ranges)[k].end,
    decreases m,
{
    let r = compressed(types, ranges);
    let len = types.len();
    lemma_runs_shape(types, ranges, len);
    if m > 0 {
        lemma_collapsed_prefix(types, ranges, (m - 1) as nat, i);
        let prev = expanded_collapsed(r, (m - 1) as nat, len);
        let cur = expanded_collapsed(r, m, len);
        let b = r[m - 1];
        assert(clipped_end(b, len) == b.end);
        if b.collapsed && b.start <= i <= b.end {
            assert(cur[cur.len() - 1].0 <= i <= cur[cur.len() - 1].1);
        }
        if in_ranges(cur, i) {
            let j = choose|j: int| 0 <= j < cur.len() && #[trigger] cur[j].0 <= i <= cur[j].1;
            if j < prev.len() {
                assert(prev[j] == cur[j]);
            } else {
                assert(b.collapsed && b.start <= i <= b.end);
            }
        }
        if in_ranges(prev, i) {
            let j = choose|j: int| 0 <= j < prev.len() && #[trigger] prev[j].0 <= i <= prev[j].1;
            assert(cur[j] == prev[j]);
        }
    }
}

/// Expanding the run-length encoding of a block-type sequence gives the
/// sequence back, and a byte lies in an expanded collapsed range exactly when
/// it lay in one of the given collapsed ranges.
pub proof fn lemma_expand_compress_roundtrip(types: Seq<BlockType>, ranges: Seq<(usize, usize)>)
    requires
        types.len() <= usize::MAX,
    ensures
        expanded_types(compressed(types, ranges), types.len()) == types,
        forall|i: int|
            0 <= i < types.len() ==> (in_ranges(
                expanded_collapsed(
                    compressed(types, ranges),
                    compressed(types, ranges).len(),
                    types.len(),
                ),
                i,
            ) <==> in_ranges(ranges, i)),
{
    let r = compressed(types, ranges);
    let len = types.len();
    lemma_runs_shape(types, ranges, len);
    assert forall|i: int| 0 <= i < len implies #[trigger] expanded_types(r, len)[i] == types[i] by {
        lemma_expand_runs_prefix(types, ranges, r.len(), i);
    }
    assert(expanded_types(r, len) =~= types);
    assert forall|i: int| 0 <= i < len implies (in_ranges(
        expanded_collapsed(r, r.len(), len),
        i,
    ) <==> in_ranges(ranges, i)) by {
        lemma_collapsed_prefix(types, ranges, r.len(), i);
        assert(run_containing(r, i));
        let k = choose|k: int| 0 <= k < r.len() && #[trigger] r[k].start <= i <= r[k].end;
        assert(types[i] == r[k].type_);
    }
}


/// An entry of the blocks overview: a (part of a) run, or a splitter mark.
/// `start` and `end` of a `Block` entry are byte offsets.
#[derive(Clone, Copy, Debug, PartialEq, Eq, Structural)]
pub enum BlockItem {
    Block { start: u16, end: u16, type_: BlockType, collapsed: bool },
    Splitter(u16),
}

proof fn lemma_runs_depend_on_membership(
    types: Seq<BlockType>,
    r1: Seq<(usize, usize)>,
    r2: Seq<(usize, usize)>,
    n: nat,
)
    requires
        n <= types.len(),
        forall|i: int| 0 <= i < types.len() ==> (in_ranges(r1, i) <==> in_ranges(r2, i)),
    ensures
        runs(types, r1, n) == runs(types, r2, n),
    decreases n,
{
    if n > 0 {
        lemma_runs_depend_on_membership(types, r1, r2, (n - 1) as nat);
        assert(in_ranges(r1, n - 1) == in_ranges(r2, n - 1));
    }
}

/// Saving what was loaded gives the same runs: the run-length encoding of
/// the block types and collapsed ranges that expanding a saved encoding
/// yields is that saved encoding (project files stay stable across a load
/// and a save).
pub proof fn law_saved_blocks_stable(types: Seq<BlockType>, ranges: Seq<(usize, usize)>)
    requires
        types.len() <= usize::MAX,
    ensures
        ({
            let saved = compressed(types, ranges);
            compressed(
                expanded_types(saved, types.len()),
                expanded_collapsed(saved, saved.len(), types.len()),
            ) == saved
        }),
{
    let saved = compressed(types, ranges);
    let back = expanded_collapsed(saved, saved.len(), types.len());
    lemma_expand_compress_roundtrip(types, ranges);
    lemma_runs_depend_on_membership(types, back, ranges, types.len());
}

/// Reduction of an integer to 16 bits, as `wrapping` arithmetic on `u16`.
pub open spec fn wrap16(x: int) -> int {
    x % 65536
}

/// First address of run `b` when the image is loaded at `origin`.
pub open spec fn run_first_addr(b: Block, origin: u16) -> int {
    wrap16(origin + wrap16(b.start as int))
}

/// Last address of run `b` when the image is loaded at `origin`.
pub open spec fn run_last_addr(b: Block, origin: u16) -> int {
    wrap16(origin + wrap16(b.end as int))
}

/// State of the scan over the addresses of one run: the offset where the
/// pending part of the run starts, and the entries emitted so far.
pub open spec fn run_scan(b: Block, splitters: Set<u16>, origin: u16, count: nat) -> (int, Seq<
    BlockItem,
>)
    decreases count,
{
    if count == 0 {
        (b.start as int, Seq::empty())
    } else {
        let (sub_start, items) = run_scan(b, splitters, origin, (count - 1) as nat);
        let a = run_first_addr(b, origin) + count - 1;
        let idx = wrap16(a - origin);
        if !splitters.contains(a as u16) || idx < sub_start || idx > b.end {
            (sub_start, items)
        } else {
            let before = if idx > sub_start {
                seq![
                    BlockItem::Block {
                        start: wrap16(sub_start) as u16,
                        end: wrap16(idx - 1) as u16,
                        type_: b.type_,
                        collapsed: b.collapsed,
                    },
                ]
            } else {
                Seq::empty()
            };
            (idx, items + before + seq![BlockItem::Splitter(a as u16)])
        }
    }
}

/// The overview entries of one run: the run cut at every splitter address
/// that lies in it, each splitter listed before the part it starts.
pub open spec fn run_items(b: Block, splitters: Set<u16>, origin: u16) -> Seq<BlockItem> {
    let n = (run_last_addr(b, origin) - run_first_addr(b, origin) + 1) as nat;
    let (sub_start, items) = run_scan(b, splitters, origin, n);
    if sub_start <= b.end {
        items + seq![
            BlockItem::Block {
                start: wrap16(sub_start) as u16,
                end: wrap16(b.end as int) as u16,
                type_: b.type_,
                collapsed: b.collapsed,
            },
        ]
    } else {
        items
    }
}

/// Overview entries of the first `m` runs.
pub open spec fn items_of_runs(r: Seq<Block>, splitters: Set<u16>, origin: u16, m: nat) -> Seq<
    BlockItem,
>
    decreases m,
{
    if m == 0 {
        Seq::empty()
    } else {
        items_of_runs(r, splitters, origin, (m - 1) as nat) + run_items(
            r[m - 1],
            splitters,
            origin,
        )
    }
}

/// The offsets from `from` to `to` are tiled by the block entries of
/// `items`, in order: each is a non-empty range starting right after the
/// previous one, the first at `from` and the last ending at `to` (no entry
/// at all when `to < from`). Splitter entries cover nothing.
pub open spec fn tiles(items: Seq<BlockItem>, from: int, to: int) -> bool
    decreases items.len(),
{
    if items.len() == 0 {
        to == from - 1
    } else {
        match items.last() {
            BlockItem::Splitter(_) => tiles(items.drop_last(), from, to),
            BlockItem::Block { start, end, .. } => {
                &&& end as int == to
                &&& from <= start <= end
                &&& tiles(items.drop_last(), from, start as int - 1)
            },
        }
    }
}

/// Every splitter entry of `items` is an address of the splitter set and
/// comes right before the block entry that starts at its offset from
/// `origin`.
pub open spec fn splitters_lead(items: Seq<BlockItem>, splitters: Set<u16>, origin: u16) -> bool {
    forall|i: int|
        0 <= i < items.len() ==> match #[trigger] items[i] {
            BlockItem::Splitter(a) => {
                &&& splitters.contains(a)
                &&& i + 1 < items.len()
                &&& items[i + 1] matches BlockItem::Block { start, .. } && start as int == wrap16(
                    a - origin,
                )
            },
            _ => true,
        }
}

proof fn lemma_tiles_concat(a: Seq<BlockItem>, b: Seq<BlockItem>, from: int, mid: int, to: int)
    requires
        tiles(a, from, mid),
        tiles(b, mid + 1, to),
    ensures
        tiles(a + b, from, to),
    decreases b.len(),
{
    lemma_tiles_from_le(a, from, mid);
    if b.len() == 0 {
        assert(a + b =~= a);
    } else {
        assert((a + b).drop_last() =~= a + b.drop_last());
        assert((a + b).last() == b.last());
        match b.last() {
            BlockItem::Splitter(_) => {
                lemma_tiles_concat(a, b.drop_last(), from, mid, to);
            },
            BlockItem::Block { start, end, .. } => {
                lemma_tiles_concat(a, b.drop_last(), from, mid, start as int - 1);
            },
        }
    }
}

proof fn lemma_tiles_from_le(items: Seq<BlockItem>, from: int, to: int)
    requires
        tiles(items, from, to),
    ensures
        from <= to + 1,
    decreases items.len(),
{
    if items.len() > 0 {
        match items.last() {
            BlockItem::Splitter(_) => lemma_tiles_from_le(items.drop_last(), from, to),
            BlockItem::Block { start, .. } => lemma_tiles_from_le(items.drop_last(), from, start as int - 1),
        }
    }
}

/// Within a run that does not wrap, the addresses of the run are its
/// offsets shifted by the origin.
proof fn lemma_run_offsets(b: Block, origin: u16, c: int)
    requires
        b.start <= b.end < 65536,
        run_first_addr(b, origin) <= run_last_addr(b, origin),
        0 <= c <= b.end - b.start,
    ensures
        run_first_addr(b, origin) + c <= run_last_addr(b, origin) < 65536,
        wrap16(run_first_addr(b, origin) + c - origin) == b.start + c,
        run_last_addr(b, origin) - run_first_addr(b, origin) == b.end - b.start,
{
    let s = origin + b.start;
    let e = origin + b.end;
    assert(wrap16(b.start as int) == b.start);
    assert(wrap16(b.end as int) == b.end);
    if s < 65536 {
        assert(run_first_addr(b, origin) == s);
        if e < 65536 {
            assert(run_last_addr(b, origin) == e);
        } else {
            assert(run_last_addr(b, origin) == e - 65536);
        }
        assert(wrap16(s + c - origin) == b.start + c);
    } else {
        assert(run_first_addr(b, origin) == s - 65536);
        assert(run_last_addr(b, origin) == e - 65536);
        assert(s - 65536 + c - origin == b.start + c - 65536);
        assert(wrap16(s - 65536 + c - origin) == b.start + c);
    }
}

/// The pending state of a run scan: what is left to emit starts at
/// `ss`, and the splitter entries emitted so far lead the entry after
/// them, or, for the last one, the pending part.
pub open spec fn scan_leads(items: Seq<BlockItem>, splitters: Set<u16>, origin: u16, ss: int) -> bool {
    forall|i: int|
        0 <= i < items.len() ==> match #[trigger] items[i] {
            BlockItem::Splitter(a) => {
                &&& splitters.contains(a)
                &&& if i + 1 < items.len() {
                    items[i + 1] matches BlockItem::Block { start, .. } && start as int == wrap16(
                        a - origin,
                    )
                } else {
                    wrap16(a - origin) == ss
                }
            },
            _ => true,
        }
}

#[verifier::spinoff_prover]
#[verifier::rlimit(40)]
/// Block entry `item` lies within run `b` and carries its type and
/// collapsed mark.
pub open spec fn entry_within(item: BlockItem, b: Block) -> bool {
    match item {
        BlockItem::Block { start, end, type_, collapsed } => b.start <= start && end <= b.end
            && type_ == b.type_ && collapsed == b.collapsed,
        BlockItem::Splitter(_) => true,
    }
}

/// Every offset block entry `item` covers is a byte of the image whose
/// type is the entry's type and whose collapsed mark is the entry's.
pub open spec fn entry_typed(item: BlockItem, types: Seq<BlockType>, ranges: Seq<(usize, usize)>) -> bool {
    match item {
        BlockItem::Block { start, end, type_, collapsed } => forall|o: int|
            start <= o <= end ==> 0 <= o < types.len() && #[trigger] types[o] == type_ && in_ranges(
                ranges,
                o,
            ) == collapsed,
        BlockItem::Splitter(_) => true,
    }
}

proof fn lemma_run_scan(b: Block, splitters: Set<u16>, origin: u16, count: nat)
    requires
        b.start <= b.end < 65536,
        run_first_addr(b, origin) <= run_last_addr(b, origin),
        count <= b.end - b.start + 1,
    ensures
        ({
            let (ss, items) = run_scan(b, splitters, origin, count);
            &&& b.start <= ss <= b.end
            &&& ss <= b.start + count
            &&& items.len() == 0 ==> ss == b.start
            &&& items.len() > 0 ==> ss < b.start + count
            &&& tiles(items, b.start as int, ss - 1)
            &&& scan_leads(items, splitters, origin, ss)
            &&& forall|i: int| 0 <= i < items.len() ==> entry_within(#[trigger] items[i], b)
        }),
    decreases count,
{
    if count > 0 {
        lemma_run_scan(b, splitters, origin, (count - 1) as nat);
        let (ss, items) = run_scan(b, splitters, origin, (count - 1) as nat);
        let c = count - 1;
        lemma_run_offsets(b, origin, c);
        let a = run_first_addr(b, origin) + count - 1;
        let idx = wrap16(a - origin);
        assert(idx == b.start + c);
        if !splitters.contains(a as u16) || idx < ss || idx > b.end {
        } else {
            assert((a as u16) as int == a);
            assert(wrap16(ss) == ss);
            assert(wrap16(idx - 1) == idx - 1 || idx == ss);
            let spl = BlockItem::Splitter(a as u16);
            let before = if idx > ss {
                seq![
                    BlockItem::Block {
                        start: wrap16(ss) as u16,
                        end: wrap16(idx - 1) as u16,
                        type_: b.type_,
                        collapsed: b.collapsed,
                    },
                ]
            } else {
                Seq::empty()
            };
            let mid = items + before;
            let out = mid + seq![spl];
            assert(run_scan(b, splitters, origin, count) == (idx, out));
            assert(out.drop_last() =~= mid);
            if idx > ss {
                assert(mid.drop_last() =~= items);
                assert(tiles(mid, b.start as int, idx - 1));
            } else {
                assert(mid =~= items);
            }
            assert(tiles(out, b.start as int, idx - 1));
            assert forall|i: int| 0 <= i < out.len() implies entry_within(#[trigger] out[i], b) by {
                if i < items.len() {
                    assert(out[i] == items[i]);
                } else if i < mid.len() {
                    assert(out[i] == before[0]);
                } else {
                    assert(out[i] == spl);
                }
            }
            assert forall|i: int| 0 <= i < out.len() implies match #[trigger] out[i] {
                BlockItem::Splitter(x) => {
                    &&& splitters.contains(x)
                    &&& if i + 1 < out.len() {
                        out[i + 1] matches BlockItem::Block { start, .. } && start as int == wrap16(
                            x - origin,
                        )
                    } else {
                        wrap16(x - origin) == idx
                    }
                },
                _ => true,
            } by {
                if i < items.len() {
                    assert(out[i] == items[i]);
                    if i + 1 < items.len() {
                        assert(out[i + 1] == items[i + 1]);
                    } else if out[i] is Splitter {
                        assert(idx > ss);
                        assert(out[i + 1] == before[0]);
                    }
                } else if i < mid.len() {
                    assert(out[i] == before[0]);
                } else {
                    assert(out[i] == spl);
                }
            }
        }
    }
}

proof fn lemma_run_items(b: Block, splitters: Set<u16>, origin: u16)
    requires
        b.start <= b.end < 65536,
        run_first_addr(b, origin) <= run_last_addr(b, origin),
    ensures
        tiles(run_items(b, splitters, origin), b.start as int, b.end as int),
        splitters_lead(run_items(b, splitters, origin), splitters, origin),
        forall|i: int|
            0 <= i < run_items(b, splitters, origin).len() ==> entry_within(
                #[trigger] run_items(b, splitters, origin)[i],
                b,
            ),
{
    lemma_run_offsets(b, origin, 0);
    let n = (run_last_addr(b, origin) - run_first_addr(b, origin) + 1) as nat;
    lemma_run_scan(b, splitters, origin, n);
    let (ss, items) = run_scan(b, splitters, origin, n);
    assert(wrap16(ss) == ss);
    assert(wrap16(b.end as int) == b.end);
    let last = BlockItem::Block {
        start: wrap16(ss) as u16,
        end: wrap16(b.end as int) as u16,
        type_: b.type_,
        collapsed: b.collapsed,
    };
    let out = items + seq![last];
    assert(run_items(b, splitters, origin) == out);
    assert(out.drop_last() =~= items);
    assert forall|i: int| 0 <= i < out.len() implies match #[trigger] out[i] {
        BlockItem::Splitter(a) => {
            &&& splitters.contains(a)
            &&& i + 1 < out.len()
            &&& out[i + 1] matches BlockItem::Block { start, .. } && start as int == wrap16(
                a - origin,
            )
        },
        _ => true,
    } by {
        if i < items.len() {
            assert(out[i] == items[i]);
            if i + 1 < items.len() {
                assert(out[i + 1] == items[i + 1]);
            } else {
                assert(out[i + 1] == last);
            }
        }
    }
    assert forall|i: int| 0 <= i < out.len() implies entry_within(#[trigger] out[i], b) by {
        if i < items.len() {
            assert(out[i] == items[i]);
        }
    }
}

/// The block entries of the overview of the first `m` runs carry the type
/// and collapsed mark of every byte they cover.
proof fn lemma_items_of_runs_typed(
    r: Seq<Block>,
    types: Seq<BlockType>,
    ranges: Seq<(usize, usize)>,
    splitters: Set<u16>,
    origin: u16,
    m: nat,
)
    requires
        m <= r.len(),
        forall|k: int| 0 <= k < r.len() ==> #[trigger] r[k].start <= r[k].end < 65536,
        forall|k: int| 0 <= k < r.len() ==> #[trigger] r[k].end < types.len(),
        forall|k: int, i: int|
            #![trigger r[k], types[i]]
            0 <= k < r.len() && r[k].start <= i <= r[k].end ==> types[i] == r[k].type_ && in_ranges(
                ranges,
                i,
            ) == r[k].collapsed,
        runs_do_not_wrap(r, origin),
    ensures
        forall|i: int|
            0 <= i < items_of_runs(r, splitters, origin, m).len() ==> entry_typed(
                #[trigger] items_of_runs(r, splitters, origin, m)[i],
                types,
                ranges,
            ),
    decreases m,
{
    if m > 0 {
        lemma_items_of_runs_typed(r, types, ranges, splitters, origin, (m - 1) as nat);
        let b = r[m - 1];
        assert(b.start <= b.end < 65536);
        assert(b.end < types.len());
        assert(run_first_addr(r[m - 1], origin) <= run_last_addr(r[m - 1], origin));
        lemma_run_items(b, splitters, origin);
        let prev = items_of_runs(r, splitters, origin, (m - 1) as nat);
        let run = run_items(b, splitters, origin);
        let all = items_of_runs(r, splitters, origin, m);
        assert(all == prev + run);
        assert forall|i: int| 0 <= i < all.len() implies entry_typed(#[trigger] all[i], types, ranges) by {
            if i < prev.len() {
                assert(all[i] == prev[i]);
            } else {
                assert(all[i] == run[i - prev.len()]);
                assert(entry_within(run[i - prev.len()], b));
                match all[i] {
                    BlockItem::Block { start, end, type_, collapsed } => {
                        assert forall|o: int| start <= o <= end implies 0 <= o < types.len()
                            && #[trigger] types[o] == type_ && in_ranges(ranges, o) == collapsed by {
                            assert(r[m - 1].start <= o <= r[m - 1].end);
                        }
                    },
                    BlockItem::Splitter(_) => {},
                }
            }
        }
    }
}

proof fn lemma_leads_concat(a: Seq<BlockItem>, b: Seq<BlockItem>, splitters: Set<u16>, origin: u16)
    requires
        splitters_lead(a, splitters, origin),
        splitters_lead(b, splitters, origin),
    ensures
        splitters_lead(a + b, splitters, origin),
{
    let out = a + b;
    assert forall|i: int| 0 <= i < out.len() implies match #[trigger] out[i] {
        BlockItem::Splitter(x) => {
            &&& splitters.contains(x)
            &&& i + 1 < out.len()
            &&& out[i + 1] matches BlockItem::Block { start, .. } && start as int == wrap16(
                x - origin,
            )
        },
        _ => true,
    } by {
        if i < a.len() {
            assert(out[i] == a[i]);
            if a[i] is Splitter {
                assert(out[i + 1] == a[i + 1]);
            }
        } else {
            assert(out[i] == b[i - a.len()]);
            if b[i - a.len()] is Splitter {
                assert(out[i + 1] == b[i - a.len() + 1]);
            }
        }
    }
}

/// The overview entries of the first `m` runs tile the offsets those runs
/// cover, and their splitter entries lead the entry that starts at them.
proof fn lemma_items_of_runs_tile(r: Seq<Block>, splitters: Set<u16>, origin: u16, m: nat)
    requires
        m <= r.len(),
        r.len() > 0 ==> r[0].start == 0,
        forall|k: int| 0 <= k < r.len() ==> #[trigger] r[k].start <= r[k].end < 65536,
        forall|k: int| 0 <= k < r.len() - 1 ==> #[trigger] r[k + 1].start == r[k].end + 1,
        runs_do_not_wrap(r, origin),
    ensures
        tiles(items_of_runs(r, splitters, origin, m), 0, if m == 0 { -1 } else { r[m - 1].end as int }),
        splitters_lead(items_of_runs(r, splitters, origin, m), splitters, origin),
    decreases m,
{
    if m > 0 {
        lemma_items_of_runs_tile(r, splitters, origin, (m - 1) as nat);
        let b = r[m - 1];
        assert(b.start <= b.end < 65536);
        assert(run_first_addr(r[m - 1], origin) <= run_last_addr(r[m - 1], origin));
        lemma_run_items(b, splitters, origin);
        let prev = items_of_runs(r, splitters, origin, (m - 1) as nat);
        if m >= 2 {
            assert(r[m - 2 + 1].start == r[m - 2].end + 1);
        }
        lemma_tiles_concat(prev, run_items(b, splitters, origin), 0, b.start - 1, b.end as int);
        lemma_leads_concat(prev, run_items(b, splitters, origin), splitters, origin);
    } else {
        assert(items_of_runs(r, splitters, origin, 0) =~= Seq::<BlockItem>::empty());
        assert forall|i: int| 0 <= i < items_of_runs(r, splitters, origin, 0).len() implies match #[trigger] items_of_runs(r, splitters, origin, 0)[i] {
            BlockItem::Splitter(x) => false,
            _ => true,
        } by {}
    }
}

/// Some block entry of `items` covers offset `o`.
pub open spec fn offset_covered(items: Seq<BlockItem>, o: int) -> bool {
    exists|i: int| 0 <= i < items.len() && #[trigger] entry_covers(items[i], o)
}

/// The block entry `item` covers offset `o`.
pub open spec fn entry_covers(item: BlockItem, o: int) -> bool {
    match item {
        BlockItem::Block { start, end, .. } => start <= o <= end,
        BlockItem::Splitter(_) => false,
    }
}

proof fn lemma_tiles_bounds(items: Seq<BlockItem>, from: int, to: int, i: int, o: int)
    requires
        tiles(items, from, to),
        0 <= i < items.len(),
        entry_covers(items[i], o),
    ensures
        from <= o <= to,
    decreases items.len(),
{
    let n = items.len() - 1;
    match items.last() {
        BlockItem::Splitter(_) => {
            if i < n {
                assert(items.drop_last()[i] == items[i]);
                lemma_tiles_bounds(items.drop_last(), from, to, i, o);
            }
        },
        BlockItem::Block { start, .. } => {
            if i < n {
                assert(items.drop_last()[i] == items[i]);
                lemma_tiles_bounds(items.drop_last(), from, start as int - 1, i, o);
            }
        },
    }
}

proof fn lemma_tiles_cover(items: Seq<BlockItem>, from: int, to: int, o: int) -> (i: int)
    requires
        tiles(items, from, to),
        from <= o <= to,
    ensures
        0 <= i < items.len(),
        entry_covers(items[i], o),
    decreases items.len(),
{
    let n = items.len() - 1;
    match items.last() {
        BlockItem::Splitter(_) => {
            let i = lemma_tiles_cover(items.drop_last(), from, to, o);
            assert(items.drop_last()[i] == items[i]);
            i
        },
        BlockItem::Block { start, .. } => {
            if o >= start {
                n
            } else {
                let i = lemma_tiles_cover(items.drop_last(), from, start as int - 1, o);
                assert(items.drop_last()[i] == items[i]);
                i
            }
        },
    }
}

proof fn lemma_tiles_unique(items: Seq<BlockItem>, from: int, to: int, i: int, j: int, o: int)
    requires
        tiles(items, from, to),
        0 <= i < items.len(),
        0 <= j < items.len(),
        entry_covers(items[i], o),
        entry_covers(items[j], o),
    ensures
        i == j,
    decreases items.len(),
{
    let n = items.len() - 1;
    let d = items.drop_last();
    match items.last() {
        BlockItem::Splitter(_) => {
            if i < n && j < n {
                assert(d[i] == items[i] && d[j] == items[j]);
                lemma_tiles_unique(d, from, to, i, j, o);
            }
        },
        BlockItem::Block { start, .. } => {
            if i < n && j < n {
                assert(d[i] == items[i] && d[j] == items[j]);
                lemma_tiles_unique(d, from, start as int - 1, i, j, o);
            } else if i < n {
                assert(d[i] == items[i]);
                lemma_tiles_bounds(d, from, start as int - 1, i, o);
            } else if j < n {
                assert(d[j] == items[j]);
                lemma_tiles_bounds(d, from, start as int - 1, j, o);
            }
        },
    }
}

/// The blocks overview of an image of at most 64 KiB whose runs do not wrap
/// tiles the image: its block entries, in order, are non-empty consecutive
/// offset ranges from the first byte to the last, and each splitter entry
/// is an address of the splitter set and comes right before the entry that
/// starts at it.
pub proof fn lemma_overview_tiles(
    types: Seq<BlockType>,
    ranges: Seq<(usize, usize)>,
    splitters: Set<u16>,
    origin: u16,
)
    requires
        types.len() <= 65536,
        runs_do_not_wrap(compressed(types, ranges), origin),
    ensures
        ({
            let items = items_of_runs(
                compressed(types, ranges),
                splitters,
                origin,
                compressed(types, ranges).len(),
            );
            &&& tiles(items, 0, types.len() - 1)
            &&& splitters_lead(items, splitters, origin)
            &&& forall|o: int| 0 <= o < types.len() ==> #[trigger] offset_covered(items, o)
            &&& forall|i: int, j: int, o: int|
                0 <= i < items.len() && 0 <= j < items.len() && #[trigger] entry_covers(items[i], o)
                    && #[trigger] entry_covers(items[j], o) ==> i == j
            &&& forall|i: int| 0 <= i < items.len() ==> entry_typed(#[trigger] items[i], types, ranges)
        }),
{
    let r = compressed(types, ranges);
    lemma_runs_shape(types, ranges, types.len());
    lemma_items_of_runs_tile(r, splitters, origin, r.len());
    lemma_items_of_runs_typed(r, types, ranges, splitters, origin, r.len());
    let items = items_of_runs(r, splitters, origin, r.len());
    assert forall|o: int| 0 <= o < types.len() implies #[trigger] offset_covered(items, o) by {
        let i = lemma_tiles_cover(items, 0, types.len() - 1, o);
    }
    assert forall|i: int, j: int, o: int|
        0 <= i < items.len() && 0 <= j < items.len() && #[trigger] entry_covers(items[i], o)
            && #[trigger] entry_covers(items[j], o) implies i == j by {
        lemma_tiles_unique(items, 0, types.len() - 1, i, j, o);
    }
}

/// Truncation of a `usize` to `u16` keeps the value modulo `2^16`.
pub proof fn lemma_trunc16(s: usize)
    ensures
        (s as u16) as int == wrap16(s as int),
{
    assert(s as u16 == s % 65536) by (bit_vector);
}

/// No run's address range wraps past `$FFFF` (a range lookup over a wrapped
/// run is undefined).
pub open spec fn runs_do_not_wrap(r: Seq<Block>, origin: u16) -> bool {
    forall|k: int| 0 <= k < r.len() ==> #[trigger] run_first_addr(r[k], origin) <= run_last_addr(r[k], origin)
}

#[verifier::spinoff_prover]
#[verifier::rlimit(30)]
fn run_view_items(block: Block, splitters: &BTreeSet<u16>, origin: u16) -> (run: Vec<BlockItem>)
    requires
        run_first_addr(block, origin) <= run_last_addr(block, origin),
    ensures
        run@ == run_items(block, splitters@, origin),
{
    let block_start: u16 = origin.wrapping_add(block.start as u16);
    let block_end: u16 = origin.wrapping_add(block.end as u16);
    proof {
        lemma_trunc16(block.start);
        lemma_trunc16(block.end);
    }
    let mut run: Vec<BlockItem> = Vec::new();
    let mut sub_start: usize = block.start;
    let mut a: u32 = block_start as u32;
    while a <= block_end as u32
        invariant
            block_start as int <= a <= block_end + 1,
            block_start == run_first_addr(block, origin),
            block_end == run_last_addr(block, origin),
            (sub_start as int, run@) == run_scan(
                block,
                splitters@,
                origin,
                (a - block_start) as nat,
            ),
        decreases block_end + 1 - a,
    {
        let addr = a as u16;
        let ghost count = (a - block_start + 1) as nat;
        assert(run_first_addr(block, origin) + count - 1 == a);
        if splitters.contains(&addr) {
            let splitter_idx = addr.wrapping_sub(origin) as usize;
            assert(splitter_idx == wrap16(a - origin));
            if !(splitter_idx < sub_start || splitter_idx > block.end) {
                if splitter_idx > sub_start {
                    proof {
                        lemma_trunc16(sub_start);
                        lemma_trunc16((splitter_idx - 1) as usize);
                    }
                    run.push(
                        BlockItem::Block {
                            start: sub_start as u16,
                            end: (splitter_idx - 1) as u16,
                            type_: block.type_,
                            collapsed: block.collapsed,
                        },
                    );
                }
                run.push(BlockItem::Splitter(addr));
                sub_start = splitter_idx;
            }
        }
        a = a + 1;
    }
    if sub_start <= block.end {
        proof {
            lemma_trunc16(sub_start);
        }
        run.push(
            BlockItem::Block {
                start: sub_start as u16,
                end: block.end as u16,
                type_: block.type_,
                collapsed: block.collapsed,
            },
        );
    }
    run
}

/// The blocks overview: every run of the image split at its splitters.
pub fn blocks_view_items(
    types: &[BlockType],
    collapsed_ranges: &[(usize, usize)],
    splitters: &BTreeSet<u16>,
    origin: u16,
) -> (items: Vec<BlockItem>)
    requires
        runs_do_not_wrap(compressed(types@, collapsed_ranges@), origin),
    ensures
        items@ == items_of_runs(
            compressed(types@, collapsed_ranges@),
            splitters@,
            origin,
            compressed(types@, collapsed_ranges@).len(),
        ),
{
    let blocks = compress_block_types(types, collapsed_ranges);
    let mut items: Vec<BlockItem> = Vec::new();
    let mut k: usize = 0;
    while k < blocks.len()
        invariant
            k <= blocks@.len(),
            blocks@ == compressed(types@, collapsed_ranges@),
            runs_do_not_wrap(blocks@, origin),
            items@ == items_of_runs(blocks@, splitters@, origin, k as nat),
        decreases blocks@.len() - k,
    {
        let block = blocks[k];
        assert(run_first_addr(block, origin) <= run_last_addr(block, origin));
        let mut part = run_view_items(block, splitters, origin);
        items.append(&mut part);
        k = k + 1;
    }
    items
}

/// A blocks-overview entry holds `address`: a part of a run holds the
/// (possibly wrapping) address range of its offsets, a splitter its own
/// address.
pub open spec fn item_holds(origin: u16, address: u16) -> spec_fn(BlockItem) -> bool {
    |item: BlockItem|
        match item {
            BlockItem::Block { start, end, .. } => {
                let s = wrap16(origin + start);
                let e = wrap16(origin + end);
                if s <= e {
                    s <= address <= e
                } else {
                    address >= s || address <= e
                }
            },
            BlockItem::Splitter(a) => a == address,
        }
}

/// Index of the first entry of `items` that holds `address`.
pub fn first_item_holding(items: &Vec<BlockItem>, origin: u16, address: u16) -> (r: Option<usize>)
    ensures
        crate::listing::is_first_match(items@, item_holds(origin, address), r),
{
    let mut i: usize = 0;
    while i < items.len()
        invariant
            i <= items@.len(),
            forall|j: int| 0 <= j < i ==> !item_holds(origin, address)(#[trigger] items@[j]),
        decreases items@.len() - i,
    {
        let hit = match items[i] {
            BlockItem::Block { start, end, .. } => {
                let s = origin.wrapping_add(start);
                let e = origin.wrapping_add(end);
                if s <= e {
                    address >= s && address <= e
                } else {
                    address >= s || address <= e
                }
            },
            BlockItem::Splitter(addr) => addr == address,
        };
        if hit {
            return Some(i);
        }
        i = i + 1;
    }
    None
}

} // verus!
