//! Where the open menu is drawn and the text of its rows.
use crate::menu::{MenuCategory, MenuItem, MenuState};
use vstd::prelude::*;
use vstd::string::StrSliceExecFns;

verus! {

/// The width a text takes in the menu layout: its length in UTF-8 bytes,
/// as `str::len` gives it.
pub open spec fn text_width(s: Seq<char>) -> int {
    (vstd::utf8::encode_utf8(s).len() as usize) as int
}

fn width_of(s: &String) -> (w: usize)
    ensures
        w == text_width(s@),
{
    s.as_str().len()
}

/// The cells one menu name takes in the menu bar: its width, cut to 16
/// bits, and a cell of padding on either side.
pub open spec fn bar_cells(name: Seq<char>) -> int {
    ((text_width(name) as u16) as int) + 2
}

/// A menu's name as the menu bar shows it, with a space on either side.
pub fn bar_label(name: &String) -> (r: String)
    ensures
        r@ == " "@ + name@ + " "@,
{
    let mut r = " ".to_string();
    r.append(name.as_str());
    r.append(" ");
    r
}

/// How far right of the menu bar's start the menu at index `k` begins.
pub open spec fn popup_offset(cats: Seq<MenuCategory>, k: int) -> int
    decreases k,
{
    if k <= 0 {
        0
    } else {
        popup_offset(cats, k - 1) + bar_cells(cats[k - 1].name@)
    }
}

proof fn lemma_popup_offset_grows(cats: Seq<MenuCategory>, i: int, k: int)
    requires
        0 <= i <= k,
    ensures
        popup_offset(cats, i) <= popup_offset(cats, k),
    decreases k - i,
{
    if i < k {
        lemma_popup_offset_grows(cats, i, k - 1);
    }
}

/// The widest item name among `items`.
pub open spec fn widest_name(items: Seq<MenuItem>) -> int
    decreases items.len(),
{
    if items.len() == 0 {
        0
    } else {
        let rest = widest_name(items.drop_last());
        let w = text_width(items.last().name@);
        if w > rest {
            w
        } else {
            rest
        }
    }
}

/// The width of an item's shortcut (0 without one).
pub open spec fn shortcut_width(item: MenuItem) -> int {
    match item.shortcut {
        Some(s) => text_width(s@),
        None => 0,
    }
}

/// The widest shortcut among `items`.
pub open spec fn widest_shortcut(items: Seq<MenuItem>) -> int
    decreases items.len(),
{
    if items.len() == 0 {
        0
    } else {
        let rest = widest_shortcut(items.drop_last());
        let w = shortcut_width(items.last());
        if w > rest {
            w
        } else {
            rest
        }
    }
}

/// The widest name, a two-space gap and the widest shortcut.
pub open spec fn content_width(items: Seq<MenuItem>) -> int {
    widest_name(items) + 2 + widest_shortcut(items)
}

/// The open menu's placement and size in cells, before clipping to the
/// screen, and the column widths of its rows.
#[derive(Clone, Copy, Debug, PartialEq, Eq, Structural)]
pub struct PopupLayout {
    pub x_offset: u16,
    pub width: u16,
    pub height: u16,
    pub name_width: usize,
    pub shortcut_width: usize,
}

/// The layout fits its 16-bit cells (and the width sum fits a `usize`).
pub open spec fn popup_fits(m: &MenuState) -> bool {
    &&& m.selected_category < m.categories@.len()
    &&& popup_offset(m.categories@, m.selected_category as int) <= u16::MAX
    &&& content_width(m.categories@[m.selected_category as int].items@) <= usize::MAX
    &&& ((content_width(m.categories@[m.selected_category as int].items@) as usize) as u16) + 2
        <= u16::MAX
    &&& ((m.categories@[m.selected_category as int].items@.len() as usize) as u16) + 2 <= u16::MAX
}

/// The layout of the open menu: it starts below its name in the menu bar,
/// is as wide as its widest row plus a border (at least 20 cells) and as
/// high as its items plus a border.
pub fn popup_layout(m: &MenuState) -> (r: PopupLayout)
    requires
        popup_fits(m),
    ensures
        ({
            let items = m.categories@[m.selected_category as int].items@;
            let wide = ((content_width(items) as usize) as u16) + 2;
            &&& r.x_offset == popup_offset(m.categories@, m.selected_category as int)
            &&& r.name_width == widest_name(items)
            &&& r.shortcut_width == widest_shortcut(items)
            &&& r.width == if wide > 20 {
                wide
            } else {
                20
            }
            &&& r.height == ((items.len() as usize) as u16) + 2
        }),
{
    let mut x_offset: u16 = 0;
    let mut i: usize = 0;
    while i < m.selected_category
        invariant
            popup_fits(m),
            i <= m.selected_category,
            x_offset == popup_offset(m.categories@, i as int),
        decreases m.selected_category - i,
    {
        proof {
            lemma_popup_offset_grows(m.categories@, i + 1, m.selected_category as int);
        }
        let w = width_of(&m.categories[i].name) as u16;
        x_offset = x_offset + w + 2;
        i = i + 1;
    }
    let items = &m.categories[m.selected_category].items;
    let mut name_width: usize = 0;
    let mut short_width: usize = 0;
    let mut j: usize = 0;
    while j < items.len()
        invariant
            j <= items@.len(),
            name_width == widest_name(items@.take(j as int)),
            short_width == widest_shortcut(items@.take(j as int)),
        decreases items@.len() - j,
    {
        assert(items@.take(j + 1).drop_last() =~= items@.take(j as int));
        let w = width_of(&items[j].name);
        if w > name_width {
            name_width = w;
        }
        let s = match &items[j].shortcut {
            Some(t) => width_of(t),
            None => 0,
        };
        if s > short_width {
            short_width = s;
        }
        j = j + 1;
    }
    assert(items@.take(items@.len() as int) =~= items@);
    let content = name_width + 2 + short_width;
    let wide = content as u16 + 2;
    let width = if wide > 20 {
        wide
    } else {
        20
    };
    let height = items.len() as u16 + 2;
    PopupLayout { x_offset, width, height, name_width, shortcut_width: short_width }
}

/// Whether `popup_layout` can lay out the open menu.
pub fn popup_fits_now(m: &MenuState) -> (r: bool)
    ensures
        r == popup_fits(m),
{
    if m.selected_category >= m.categories.len() {
        return false;
    }
    let mut x_offset: u16 = 0;
    let mut i: usize = 0;
    while i < m.selected_category
        invariant
            m.selected_category < m.categories@.len(),
            i <= m.selected_category,
            x_offset == popup_offset(m.categories@, i as int),
        decreases m.selected_category - i,
    {
        let w = width_of(&m.categories[i].name) as u16;
        if w as u32 + 2 > u16::MAX as u32 - x_offset as u32 {
            proof {
                lemma_popup_offset_grows(m.categories@, i + 1, m.selected_category as int);
            }
            return false;
        }
        x_offset = x_offset + w + 2;
        i = i + 1;
    }
    let items = &m.categories[m.selected_category].items;
    let mut name_width: usize = 0;
    let mut short_width: usize = 0;
    let mut j: usize = 0;
    while j < items.len()
        invariant
            j <= items@.len(),
            name_width == widest_name(items@.take(j as int)),
            short_width == widest_shortcut(items@.take(j as int)),
        decreases items@.len() - j,
    {
        assert(items@.take(j + 1).drop_last() =~= items@.take(j as int));
        let w = width_of(&items[j].name);
        if w > name_width {
            name_width = w;
        }
        let s = match &items[j].shortcut {
            Some(t) => width_of(t),
            None => 0,
        };
        if s > short_width {
            short_width = s;
        }
        j = j + 1;
    }
    assert(items@.take(items@.len() as int) =~= items@);
    if name_width > usize::MAX - 2 || short_width > usize::MAX - 2 - name_width {
        return false;
    }
    let content = name_width + 2 + short_width;
    let wide = content as u16;
    let tall = items.len() as u16;
    wide <= u16::MAX - 2 && tall <= u16::MAX - 2
}

/// `s` followed by spaces up to `w` characters.
pub open spec fn padded_right(s: Seq<char>, w: int) -> Seq<char> {
    if s.len() < w {
        s + Seq::new((w - s.len()) as nat, |i: int| ' ')
    } else {
        s
    }
}

/// Spaces up to `w` characters followed by `s`.
pub open spec fn padded_left(s: Seq<char>, w: int) -> Seq<char> {
    if s.len() < w {
        Seq::new((w - s.len()) as nat, |i: int| ' ') + s
    } else {
        s
    }
}

/// The text of a menu row: the name padded to `name_width` characters, a
/// two-space gap, and the shortcut (or nothing) right-aligned in
/// `shortcut_width` characters.
pub open spec fn row_text(item: MenuItem, name_width: int, shortcut_width: int) -> Seq<char> {
    let shortcut = match item.shortcut {
        Some(s) => s@,
        None => Seq::empty(),
    };
    padded_right(item.name@, name_width) + "  "@ + padded_left(shortcut, shortcut_width)
}

fn spaces(n: usize) -> (r: String)
    ensures
        r@ == Seq::new(n as nat, |i: int| ' '),
{
    let mut r = String::new();
    let mut k: usize = 0;
    while k < n
        invariant
            k <= n,
            r@ == Seq::new(k as nat, |i: int| ' '),
        decreases n - k,
    {
        r.append(" ");
        proof {
            reveal_strlit(" ");
        }
        k = k + 1;
        assert(r@ =~= Seq::new(k as nat, |i: int| ' '));
    }
    r
}

/// The text of a menu row (see `row_text`).
pub fn popup_row(item: &MenuItem, name_width: usize, shortcut_width: usize) -> (r: String)
    ensures
        r@ == row_text(*item, name_width as int, shortcut_width as int),
{
    let mut r = String::new();
    r.append(item.name.as_str());
    let n = item.name.as_str().unicode_len();
    if n < name_width {
        let pad = spaces(name_width - n);
        r.append(pad.as_str());
    }
    r.append("  ");
    let empty = String::new();
    let shortcut = match &item.shortcut {
        Some(s) => s,
        None => &empty,
    };
    let k = shortcut.as_str().unicode_len();
    if k < shortcut_width {
        let pad = spaces(shortcut_width - k);
        r.append(pad.as_str());
    }
    r.append(shortcut.as_str());
    proof {
        reveal_strlit("  ");
    }
    assert(r@ =~= row_text(*item, name_width as int, shortcut_width as int));
    r
}

/// A separator row of a popup `width` cells wide: a horizontal line inside
/// the border.
pub fn popup_separator(width: u16) -> (r: String)
    ensures
        r@ == Seq::new(if width >= 2 { (width - 2) as nat } else { 0 }, |i: int| '─'),
{
    let n: u16 = if width >= 2 {
        width - 2
    } else {
        0
    };
    let mut r = String::new();
    let mut k: u16 = 0;
    while k < n
        invariant
            k <= n,
            r@ == Seq::new(k as nat, |i: int| '─'),
        decreases n - k,
    {
        r.append("─");
        proof {
            reveal_strlit("─");
        }
        k = k + 1;
        assert(r@ =~= Seq::new(k as nat, |i: int| '─'));
    }
    r
}


/// A rectangle of terminal cells.
#[derive(Clone, Copy, Debug, PartialEq, Eq, Structural)]
pub struct CellRect {
    pub x: u16,
    pub y: u16,
    pub width: u16,
    pub height: u16,
}

/// The rectangle at `(x, y)` of the given size, narrowed so that its right
/// and bottom edges stay within 16 bits (as `ratatui::layout::Rect::new`
/// builds it).
pub open spec fn rect_at(x: u16, y: u16, width: u16, height: u16) -> CellRect {
    CellRect {
        x,
        y,
        width: if width > u16::MAX - x { (u16::MAX - x) as u16 } else { width },
        height: if height > u16::MAX - y { (u16::MAX - y) as u16 } else { height },
    }
}

/// The right edge of `r`, saturating at 16 bits.
pub open spec fn right_edge(r: CellRect) -> int {
    if r.x + r.width > u16::MAX { u16::MAX as int } else { r.x + r.width }
}

/// The bottom edge of `r`, saturating at 16 bits.
pub open spec fn bottom_edge(r: CellRect) -> int {
    if r.y + r.height > u16::MAX { u16::MAX as int } else { r.y + r.height }
}

/// The part of `a` inside `b` (as `ratatui::layout::Rect::intersection`
/// computes it): the larger top-left corner and the smaller edges, with no
/// size where they cross.
pub open spec fn clipped(a: CellRect, b: CellRect) -> CellRect {
    let x1 = if a.x > b.x { a.x } else { b.x };
    let y1 = if a.y > b.y { a.y } else { b.y };
    let x2 = if right_edge(a) < right_edge(b) { right_edge(a) } else { right_edge(b) };
    let y2 = if bottom_edge(a) < bottom_edge(b) { bottom_edge(a) } else { bottom_edge(b) };
    CellRect {
        x: x1,
        y: y1,
        width: if x2 > x1 { (x2 - x1) as u16 } else { 0 },
        height: if y2 > y1 { (y2 - y1) as u16 } else { 0 },
    }
}

fn right_of(r: CellRect) -> (e: u16)
    ensures
        e == right_edge(r),
{
    r.x.saturating_add(r.width)
}

fn bottom_of(r: CellRect) -> (e: u16)
    ensures
        e == bottom_edge(r),
{
    r.y.saturating_add(r.height)
}

/// Where the open menu is drawn: below its name in the menu bar that
/// starts at `bar`, with the size of `layout`, clipped to `screen`.
pub fn popup_area(bar: CellRect, screen: CellRect, layout: PopupLayout) -> (r: CellRect)
    requires
        bar.x + layout.x_offset <= u16::MAX,
        bar.y + 1 <= u16::MAX,
    ensures
        r == clipped(
            rect_at(
                (bar.x + layout.x_offset) as u16,
                (bar.y + 1) as u16,
                layout.width,
                layout.height,
            ),
            screen,
        ),
{
    let x = bar.x + layout.x_offset;
    let y = bar.y + 1;
    let width = if layout.width > u16::MAX - x {
        u16::MAX - x
    } else {
        layout.width
    };
    let height = if layout.height > u16::MAX - y {
        u16::MAX - y
    } else {
        layout.height
    };
    let a = CellRect { x, y, width, height };
    let x1 = if a.x > screen.x {
        a.x
    } else {
        screen.x
    };
    let y1 = if a.y > screen.y {
        a.y
    } else {
        screen.y
    };
    let ra = right_of(a);
    let rb = right_of(screen);
    let ba = bottom_of(a);
    let bb = bottom_of(screen);
    let x2 = if ra < rb {
        ra
    } else {
        rb
    };
    let y2 = if ba < bb {
        ba
    } else {
        bb
    };
    CellRect { x: x1, y: y1, width: x2.saturating_sub(x1), height: y2.saturating_sub(y1) }
}

} // verus!
