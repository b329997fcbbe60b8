//! The inline terminal's redraw: the commands that turn the previous frame
//! into the next one (cells to put, row ends to clear).
use vstd::prelude::*;
use crate::text::{chars_of, string_of};

verus! {

broadcast use vstd::seq_lib::group_seq_properties;

/// Width in columns that `UnicodeWidthStr::width` reports for `s`.
pub uninterp spec fn unicode_str_width(s: Seq<char>) -> nat;

/// Calls `unicode_width::UnicodeWidthStr::width`. The result is the named
/// width; nothing more is claimed of it.
#[verifier::external_body]
pub(crate) fn str_width(s: &str) -> (w: usize)
    ensures
        w as nat == unicode_str_width(s@),
{
    unicode_width::UnicodeWidthStr::width(s)
}

/// A cell of a frame: its symbol, colours (as codes; 0 is the terminal's
/// own colour), modifier bits, and whether drawing skips it.
#[derive(Debug)]
pub struct GridCell {
    pub symbol: String,
    pub fg: u32,
    pub bg: u32,
    pub underline: u32,
    pub modifier: u16,
    pub skip: bool,
}

pub type CellView = (Seq<char>, u32, u32, u32, u16, bool);

impl View for GridCell {
    type V = CellView;

    open spec fn view(&self) -> CellView {
        (self.symbol@, self.fg, self.bg, self.underline, self.modifier, self.skip)
    }
}

pub open spec fn cells_view(v: Seq<GridCell>) -> Seq<CellView> {
    v.map_values(|c: GridCell| c@)
}

/// A frame: `width` by `height` cells, row by row.
#[derive(Debug)]
pub struct Grid {
    pub width: u16,
    pub height: u16,
    pub cells: Vec<GridCell>,
}

impl Grid {
    /// The cells fill the area exactly.
    pub open spec fn wf(&self) -> bool {
        self.cells@.len() == self.width * self.height
    }
}

/// A blank cell: a space in the terminal's own colours.
pub open spec fn blank_cell() -> CellView {
    (" "@, 0, 0, 0, 0, false)
}

/// A frame of `width` by `height` blank cells.
pub fn blank_grid(width: u16, height: u16) -> (g: Grid)
    ensures
        g.wf(),
        g.width == width,
        g.height == height,
        forall|i: int| 0 <= i < g.cells@.len() ==> #[trigger] g.cells@[i]@ == blank_cell(),
{
    assert((width as nat) * (height as nat) <= 0xffff * 0xffff) by (nonlinear_arith)
        requires
            width <= 0xffff,
            height <= 0xffff,
    ;
    let n = width as usize * height as usize;
    let mut cells: Vec<GridCell> = Vec::new();
    let mut i: usize = 0;
    while i < n
        invariant
            i <= n,
            cells@.len() == i,
            forall|j: int| 0 <= j < i ==> #[trigger] cells@[j]@ == blank_cell(),
        decreases n - i,
    {
        cells.push(GridCell { symbol: " ".to_owned(), fg: 0, bg: 0, underline: 0, modifier: 0, skip: false });
        i = i + 1;
    }
    Grid { width, height, cells }
}

/// A drawing command, in terminal coordinates.
#[derive(Debug)]
pub enum DrawCommand {
    /// Draw `cell` at (`x`, `y`).
    Put { x: u16, y: u16, cell: GridCell },
    /// Clear from (`x`, `y`) to the end of the row in colour `bg`.
    ClearToEnd { x: u16, y: u16, bg: u32 },
}

pub enum CommandView {
    Put(nat, nat, CellView),
    ClearToEnd(nat, nat, u32),
}

impl View for DrawCommand {
    type V = CommandView;

    open spec fn view(&self) -> CommandView {
        match self {
            DrawCommand::Put { x, y, cell } => CommandView::Put(*x as nat, *y as nat, cell@),
            DrawCommand::ClearToEnd { x, y, bg } => CommandView::ClearToEnd(*x as nat, *y as nat, *bg),
        }
    }
}

pub open spec fn commands_view(v: Seq<DrawCommand>) -> Seq<CommandView> {
    v.map_values(|c: DrawCommand| c@)
}

// ── Where each row's content ends ───────────────────────────────────────────

/// A cell that shows something on a row cleared in colour `bg`.
pub open spec fn nonblank(c: CellView, bg: u32) -> bool {
    c.0 != " "@ || c.2 != bg || c.4 != 0
}

pub open spec fn width_less_one(w: nat) -> nat {
    if w > 0 {
        (w - 1) as nat
    } else {
        0
    }
}

/// The last column (as a `u16` holds it) covered by a cell that shows
/// something, scanning `row` from column `col` a symbol at a time.
pub open spec fn last_nonblank_from(row: Seq<CellView>, col: nat, bg: u32, acc: nat) -> nat
    decreases row.len() - col,
{
    if col >= row.len() {
        acc
    } else {
        let w = unicode_str_width(row[col as int].0);
        let acc2 = if nonblank(row[col as int], bg) {
            ((col + width_less_one(w)) % 65536) as nat
        } else {
            acc
        };
        let next = col + if w > 1 { w } else { 1nat };
        last_nonblank_from(row, if next < row.len() { next } else { row.len() }, bg, acc2)
    }
}

pub open spec fn row_of(cells: Seq<CellView>, w: nat, r: nat) -> Seq<CellView> {
    cells.subrange((r * w) as int, (r * w + w) as int)
}

/// The colour of a row's last cell.
pub open spec fn row_bg(row: Seq<CellView>) -> u32 {
    if row.len() > 0 {
        row.last().2
    } else {
        0
    }
}

pub open spec fn row_last_nonblank(cells: Seq<CellView>, w: nat, r: nat) -> nat {
    let row = row_of(cells, w, r);
    last_nonblank_from(row, 0, row_bg(row), 0)
}

/// For rows `r..h`: a clear from just after the row's content to its end,
/// in the row's last colour, when the content ends before the last column.
pub open spec fn clear_cmds(cells: Seq<CellView>, w: nat, h: nat, vx: nat, vy: nat, r: nat) -> Seq<CommandView>
    decreases h - r,
{
    if r >= h {
        Seq::empty()
    } else {
        let l = row_last_nonblank(cells, w, r);
        (if l + 1 < w {
            seq![CommandView::ClearToEnd(vx + l + 1, vy + r, row_bg(row_of(cells, w, r)))]
        } else {
            Seq::empty()
        }) + clear_cmds(cells, w, h, vx, vy, r + 1)
    }
}

proof fn lemma_last_nonblank_bounded(row: Seq<CellView>, col: nat, bg: u32, acc: nat)
    requires
        acc < 65536,
    ensures
        last_nonblank_from(row, col, bg, acc) < 65536,
    decreases row.len() - col,
{
    if col < row.len() {
        let w = unicode_str_width(row[col as int].0);
        let acc2 = if nonblank(row[col as int], bg) {
            ((col + width_less_one(w)) % 65536) as nat
        } else {
            acc
        };
        let next = col + if w > 1 { w } else { 1nat };
        lemma_last_nonblank_bounded(row, if next < row.len() { next } else { row.len() }, bg, acc2);
    }
}

/// The content end of row `r` of `g` (see `row_last_nonblank`).
fn row_last_nonblank_of(g: &Grid, r: u16) -> (l: u16)
    requires
        g.wf(),
        r < g.height,
        g.width > 0,
    ensures
        l as nat == row_last_nonblank(cells_view(g.cells@), g.width as nat, r as nat),
{
    let ghost cv = cells_view(g.cells@);
    let w = g.width as usize;
    proof {
        assert((r as nat) * (g.width as nat) + (g.width as nat) <= (g.width as nat) * (g.height as nat))
            by (nonlinear_arith)
            requires
                r < g.height,
        ;
        assert((g.width as nat) * (g.height as nat) <= 0xffff * 0xffff) by (nonlinear_arith)
            requires
                g.height <= 0xffff,
                g.width <= 0xffff,
        ;
    }
    let start = r as usize * w;
    let ghost row = row_of(cv, w as nat, r as nat);
    let bg = g.cells[start + w - 1].bg;
    proof {
        assert(row.last() == cv[start + w - 1]);
    }
    let mut last: usize = 0;
    let mut col: usize = 0;
    while col < w
        invariant
            col <= w,
            w == g.width,
            start + w <= g.cells@.len(),
            g.cells@.len() <= usize::MAX,
            cv == cells_view(g.cells@),
            row == cv.subrange(start as int, (start + w) as int),
            row.len() == w,
            bg == row_bg(row),
            last < 65536,
            last_nonblank_from(row, col as nat, bg, last as nat) == last_nonblank_from(row, 0, bg, 0),
        decreases w - col,
    {
        let cell = &g.cells[start + col];
        proof {
            assert(row[col as int] == cell@);
        }
        let cw = str_width(cell.symbol.as_str());
        let less = if cw > 0 {
            cw - 1
        } else {
            0
        };
        let is_space = crate::text::eq_str(&chars_of(cell.symbol.as_str()), " ");
        if !is_space || cell.bg != bg || cell.modifier != 0 {
            last = (col % 65536 + less % 65536) % 65536;
            proof {
                assert((col + less) % 65536 == (col % 65536 + less % 65536) % 65536) by (nonlinear_arith);
            }
        }
        let step = if cw > 1 {
            cw
        } else {
            1
        };
        if step >= w - col {
            col = w;
        } else {
            col = col + step;
        }
    }
    proof {
        lemma_last_nonblank_bounded(row, 0, bg, 0);
    }
    last as u16
}

// ── The cells to draw ───────────────────────────────────────────────────────

/// The previous frame's cell at (`bx`, `by`), if that frame has one there.
pub open spec fn prev_cell(prev: Seq<CellView>, pw: nat, ph: nat, bx: nat, by: nat) -> Option<CellView> {
    if pw > 0 && bx < pw && by < ph && by * pw + bx < prev.len() {
        Some(prev[(by * pw + bx) as int])
    } else {
        None
    }
}

pub open spec fn max_nat(a: nat, b: nat) -> nat {
    if a >= b {
        a
    } else {
        b
    }
}

/// The cells of the next frame from index `i` on that are drawn: a cell is
/// put when it is not skipped, differs from the previous frame's cell (or a
/// wide cell before it was redrawn: `inv`), does not sit under the second
/// column of a wide cell just put (`skip`), and lies within its row's
/// content (`lnb`).
pub open spec fn puts_from(
    next: Seq<CellView>,
    w: nat,
    prev: Seq<CellView>,
    pw: nat,
    ph: nat,
    lnb: Seq<nat>,
    vx: nat,
    vy: nat,
    i: nat,
    inv: nat,
    skip: nat,
) -> Seq<CommandView>
    decreases next.len() - i,
{
    if i >= next.len() || w == 0 {
        Seq::empty()
    } else {
        let bx = i % w;
        let by = i / w;
        let cell = next[i as int];
        let pc = prev_cell(prev, pw, ph, bx, by);
        let changed = pc != Some(cell);
        let emit = !cell.5 && (changed || inv > 0) && skip == 0 && bx <= lnb[by as int];
        let cw = unicode_str_width(cell.0);
        let pwid = match pc {
            Some(p) => unicode_str_width(p.0),
            None => 1,
        };
        (if emit {
            seq![CommandView::Put(vx + bx, vy + by, cell)]
        } else {
            Seq::empty()
        }) + puts_from(next, w, prev, pw, ph, lnb, vx, vy, i + 1, width_less_one(max_nat(max_nat(inv, cw), pwid)), width_less_one(cw))
    }
}

fn copy_cell(c: &GridCell) -> (r: GridCell)
    ensures
        r@ == c@,
{
    GridCell {
        symbol: string_of(chars_of(c.symbol.as_str()).as_slice()),
        fg: c.fg,
        bg: c.bg,
        underline: c.underline,
        modifier: c.modifier,
        skip: c.skip,
    }
}

fn same_cell(a: &GridCell, b: &GridCell) -> (r: bool)
    ensures
        r == (a@ == b@),
{
    crate::text::eq_chars(&chars_of(a.symbol.as_str()), &chars_of(b.symbol.as_str())) && a.fg == b.fg && a.bg == b.bg
        && a.underline == b.underline && a.modifier == b.modifier && a.skip == b.skip
}

// ── The redraw ──────────────────────────────────────────────────────────────

/// A rectangle of the terminal.
#[derive(Debug, Clone, Copy, PartialEq, Eq, Structural)]
pub struct Rect {
    pub x: u16,
    pub y: u16,
    pub width: u16,
    pub height: u16,
}

pub open spec fn row_ends(next: Seq<CellView>, w: nat, h: nat) -> Seq<nat> {
    Seq::new(h, |r: int| row_last_nonblank(next, w, r as nat))
}

/// The commands that turn frame `prev` into frame `next` shown at
/// (`vx`, `vy`): the row clears, then the cells to put.
pub open spec fn diff_spec(
    prev: Seq<CellView>,
    pw: nat,
    ph: nat,
    next: Seq<CellView>,
    w: nat,
    h: nat,
    vx: nat,
    vy: nat,
) -> Seq<CommandView> {
    if w == 0 || h == 0 {
        Seq::empty()
    } else {
        clear_cmds(next, w, h, vx, vy, 0) + puts_from(next, w, prev, pw, ph, row_ends(next, w, h), vx, vy, 0, 0, 0)
    }
}

fn clear_pass(next: &Grid, vx: u16, vy: u16) -> (r: (Vec<DrawCommand>, Vec<u16>))
    requires
        next.wf(),
        next.width > 0,
        vx + next.width <= u16::MAX,
        vy + next.height <= u16::MAX,
    ensures
        commands_view(r.0@) == clear_cmds(cells_view(next.cells@), next.width as nat, next.height as nat, vx as nat, vy as nat, 0),
        r.1@.map_values(|l: u16| l as nat) == row_ends(cells_view(next.cells@), next.width as nat, next.height as nat),
{
    let ghost nv = cells_view(next.cells@);
    let ghost w = next.width as nat;
    let ghost h = next.height as nat;
    let mut out: Vec<DrawCommand> = Vec::new();
    let mut ends: Vec<u16> = Vec::new();
    let mut r: u16 = 0;
    while r < next.height
        invariant
            r <= next.height,
            next.wf(),
            next.width > 0,
            vx + next.width <= u16::MAX,
            vy + next.height <= u16::MAX,
            nv == cells_view(next.cells@),
            w == next.width,
            h == next.height,
            commands_view(out@) + clear_cmds(nv, w, h, vx as nat, vy as nat, r as nat) == clear_cmds(nv, w, h, vx as nat, vy as nat, 0),
            ends@.map_values(|l: u16| l as nat) == Seq::new(r as nat, |k: int| row_last_nonblank(nv, w, k as nat)),
        decreases next.height - r,
    {
        let l = row_last_nonblank_of(next, r);
        let ghost before = commands_view(out@);
        if (l as usize) + 1 < next.width as usize {
            proof {
                assert((r as nat) * w + w <= w * h) by (nonlinear_arith)
                    requires
                        r < h,
                ;
                assert(w * h <= 0xffff * 0xffff) by (nonlinear_arith)
                    requires
                        w <= 0xffff,
                        h <= 0xffff,
                ;
            }
            let start = r as usize * next.width as usize;
            let bg = next.cells[start + next.width as usize - 1].bg;
            proof {
                assert(row_bg(row_of(nv, w, r as nat)) == bg);
            }
            out.push(DrawCommand::ClearToEnd { x: vx + l + 1, y: vy + r, bg });
        }
        proof {
            assert(commands_view(out@) + clear_cmds(nv, w, h, vx as nat, vy as nat, (r + 1) as nat) =~= before
                + clear_cmds(nv, w, h, vx as nat, vy as nat, r as nat));
        }
        let ghost prev_ends = ends@.map_values(|x: u16| x as nat);
        ends.push(l);
        proof {
            assert(ends@.map_values(|x: u16| x as nat) =~= prev_ends.push(l as nat));
            assert(Seq::new((r + 1) as nat, |k: int| row_last_nonblank(nv, w, k as nat)) =~= Seq::new(
                r as nat,
                |k: int| row_last_nonblank(nv, w, k as nat),
            ).push(row_last_nonblank(nv, w, r as nat)));
        }
        r = r + 1;
    }
    proof {
        assert(commands_view(out@) =~= commands_view(out@) + Seq::<CommandView>::empty());
    }
    (out, ends)
}

fn max_us(a: usize, b: usize) -> (r: usize)
    ensures
        r == max_nat(a as nat, b as nat),
{
    if a >= b {
        a
    } else {
        b
    }
}

/// Looks up the previous frame's cell at (`bx`, `by`).
fn prev_cell_of<'a>(prev: &'a Grid, bx: u16, by: u16) -> (r: Option<&'a GridCell>)
    requires
        prev.wf(),
    ensures
        match prev_cell(cells_view(prev.cells@), prev.width as nat, prev.height as nat, bx as nat, by as nat) {
            Some(c) => r matches Some(x) && x@ == c,
            None => r is None,
        },
{
    if prev.width > 0 && bx < prev.width && by < prev.height {
        proof {
            assert((by as nat) * (prev.width as nat) + (bx as nat) < (prev.width as nat) * (prev.height as nat))
                by (nonlinear_arith)
                requires
                    by < prev.height,
                    bx < prev.width,
            ;
            assert((prev.width as nat) * (prev.height as nat) <= 0xffff * 0xffff) by (nonlinear_arith)
                requires
                    prev.width <= 0xffff,
                    prev.height <= 0xffff,
            ;
        }
        let idx = by as usize * prev.width as usize + bx as usize;
        Some(&prev.cells[idx])
    } else {
        None
    }
}

proof fn lemma_div_mod_bounds(i: nat, w: nat, h: nat)
    requires
        w > 0,
        i < w * h,
    ensures
        i % w < w,
        i / w < h,
{
    assert(i % w < w) by (nonlinear_arith)
        requires
            w > 0,
    ;
    assert(i / w < h) by (nonlinear_arith)
        requires
            w > 0,
            i < w * h,
    ;
}

#[verifier::rlimit(40)]
fn put_pass(out: &mut Vec<DrawCommand>, prev: &Grid, next: &Grid, ends: &Vec<u16>, vx: u16, vy: u16)
    requires
        prev.wf(),
        next.wf(),
        next.width > 0,
        vx + next.width <= u16::MAX,
        vy + next.height <= u16::MAX,
        ends@.map_values(|l: u16| l as nat) == row_ends(cells_view(next.cells@), next.width as nat, next.height as nat),
    ensures
        commands_view(final(out)@) == commands_view(old(out)@) + puts_from(
            cells_view(next.cells@),
            next.width as nat,
            cells_view(prev.cells@),
            prev.width as nat,
            prev.height as nat,
            row_ends(cells_view(next.cells@), next.width as nat, next.height as nat),
            vx as nat,
            vy as nat,
            0,
            0,
            0,
        ),
{
    let ghost nv = cells_view(next.cells@);
    let ghost pv = cells_view(prev.cells@);
    let ghost w = next.width as nat;
    let ghost h = next.height as nat;
    let ghost ev = row_ends(nv, w, h);
    let ghost start = commands_view(out@);
    let n = next.cells.len();
    let wu = next.width as usize;
    let mut invalidated: usize = 0;
    let mut to_skip: usize = 0;
    let mut i: usize = 0;
    while i < n
        invariant
            i <= n,
            n == next.cells@.len(),
            n == w * h,
            wu == w,
            w > 0,
            prev.wf(),
            next.wf(),
            vx + next.width <= u16::MAX,
            vy + next.height <= u16::MAX,
            nv == cells_view(next.cells@),
            pv == cells_view(prev.cells@),
            w == next.width,
            h == next.height,
            ev == row_ends(nv, w, h),
            ends@.map_values(|l: u16| l as nat) == ev,
            commands_view(out@) + puts_from(nv, w, pv, prev.width as nat, prev.height as nat, ev, vx as nat, vy as nat, i as nat, invalidated as nat, to_skip as nat)
                == start + puts_from(nv, w, pv, prev.width as nat, prev.height as nat, ev, vx as nat, vy as nat, 0, 0, 0),
        decreases n - i,
    {
        proof {
            lemma_div_mod_bounds(i as nat, w, h);
            assert(ends@.map_values(|l: u16| l as nat).len() == ends@.len());
            assert(ends@.len() == h);
        }
        let bx = (i % wu) as u16;
        let by = (i / wu) as u16;
        proof {
            assert(by as nat == (i as nat) / w);
            assert((by as nat) < h);
            assert(ends@.map_values(|l: u16| l as nat)[by as int] == ends@[by as int] as nat);
        }
        let cell = &next.cells[i];
        let pc = prev_cell_of(prev, bx, by);
        let changed = match pc {
            Some(p) => !same_cell(p, cell),
            None => true,
        };
        proof {
            assert(nv[i as int] == cell@);
            assert(ev[by as int] == ends@[by as int] as nat);
        }
        let ghost before = commands_view(out@);
        let ghost inv0 = invalidated as nat;
        let ghost skip0 = to_skip as nat;
        if !cell.skip && (changed || invalidated > 0) && to_skip == 0 && bx <= ends[by as usize] {
            out.push(DrawCommand::Put { x: vx + bx, y: vy + by, cell: copy_cell(cell) });
        }
        let cw = str_width(cell.symbol.as_str());
        let pw = match pc {
            Some(p) => str_width(p.symbol.as_str()),
            None => 1,
        };
        to_skip = cw.saturating_sub(1);
        invalidated = max_us(max_us(invalidated, cw), pw).saturating_sub(1);
        proof {
            assert(commands_view(out@) + puts_from(nv, w, pv, prev.width as nat, prev.height as nat, ev, vx as nat, vy as nat, (i + 1) as nat, invalidated as nat, to_skip as nat)
                =~= before + puts_from(nv, w, pv, prev.width as nat, prev.height as nat, ev, vx as nat, vy as nat, i as nat, inv0, skip0));
        }
        i = i + 1;
    }
}

/// The commands that redraw frame `prev` as frame `next`, in terminal
/// coordinates of `viewport` (its top left corner; its size is not read).
pub fn diff_buffers(prev: &Grid, next: &Grid, viewport: Rect) -> (r: Vec<DrawCommand>)
    requires
        prev.wf(),
        next.wf(),
        viewport.x + next.width <= u16::MAX,
        viewport.y + next.height <= u16::MAX,
    ensures
        commands_view(r@) == diff_spec(
            cells_view(prev.cells@),
            prev.width as nat,
            prev.height as nat,
            cells_view(next.cells@),
            next.width as nat,
            next.height as nat,
            viewport.x as nat,
            viewport.y as nat,
        ),
{
    if next.width == 0 || next.height == 0 {
        let out: Vec<DrawCommand> = Vec::new();
        proof {
            assert(commands_view(out@) =~= Seq::<CommandView>::empty());
        }
        return out;
    }
    let (mut out, ends) = clear_pass(next, viewport.x, viewport.y);
    put_pass(&mut out, prev, next, &ends, viewport.x, viewport.y);
    out
}

/// Whether `c` is a command that puts a cell.
pub fn is_put(c: &DrawCommand) -> (r: bool)
    ensures
        r == (c@ is Put),
{
    match c {
        DrawCommand::Put { .. } => true,
        DrawCommand::ClearToEnd { .. } => false,
    }
}

/// Every symbol of `cells` is at most two columns wide.
pub open spec fn narrow_symbols(cells: Seq<CellView>) -> bool {
    forall|k: int| 0 <= k < cells.len() ==> unicode_str_width(#[trigger] cells[k].0) <= 2
}

/// Redrawing a frame as itself puts no cell (when no symbol is wider than
/// two columns).
pub proof fn law_identical_frames_put_nothing(cells: Seq<CellView>, w: nat, h: nat, vx: nat, vy: nat)
    requires
        cells.len() == w * h,
        narrow_symbols(cells),
    ensures
        forall|k: int|
            0 <= k < diff_spec(cells, w, h, cells, w, h, vx, vy).len() ==> !(#[trigger] diff_spec(
                cells,
                w,
                h,
                cells,
                w,
                h,
                vx,
                vy,
            )[k] is Put),
{
    if w > 0 && h > 0 {
        lemma_no_puts_when_same(cells, w, h, row_ends(cells, w, h), vx, vy, 0, 0);
        lemma_clears_only(cells, w, h, vx, vy, 0);
        let c = clear_cmds(cells, w, h, vx, vy, 0);
        let p = puts_from(cells, w, cells, w, h, row_ends(cells, w, h), vx, vy, 0, 0, 0);
        assert(c + p =~= c);
    }
}

proof fn lemma_clears_only(cells: Seq<CellView>, w: nat, h: nat, vx: nat, vy: nat, r: nat)
    ensures
        forall|k: int|
            0 <= k < clear_cmds(cells, w, h, vx, vy, r).len() ==> !(#[trigger] clear_cmds(cells, w, h, vx, vy, r)[k] is Put),
    decreases h - r,
{
    if r < h {
        lemma_clears_only(cells, w, h, vx, vy, r + 1);
        let l = row_last_nonblank(cells, w, r);
        let head: Seq<CommandView> = if l + 1 < w {
            seq![CommandView::ClearToEnd(vx + l + 1, vy + r, row_bg(row_of(cells, w, r)))]
        } else {
            Seq::empty()
        };
        let rest = clear_cmds(cells, w, h, vx, vy, r + 1);
        assert(clear_cmds(cells, w, h, vx, vy, r) == head + rest);
        assert forall|k: int| 0 <= k < (head + rest).len() implies !((head + rest)[k] is Put) by {
            if k >= head.len() {
                assert((head + rest)[k] == rest[k - head.len()]);
            }
        }
    }
}

proof fn lemma_no_puts_when_same(cells: Seq<CellView>, w: nat, h: nat, ends: Seq<nat>, vx: nat, vy: nat, i: nat, inv: nat)
    requires
        cells.len() == w * h,
        w > 0,
        narrow_symbols(cells),
        inv <= 1,
    ensures
        puts_from(cells, w, cells, w, h, ends, vx, vy, i, inv, inv).len() == 0,
    decreases cells.len() - i,
{
    if i < cells.len() {
        let bx = i % w;
        let by = i / w;
        lemma_div_mod_bounds(i, w, h);
        assert(by * w + bx == i) by (nonlinear_arith)
            requires
                w > 0,
                bx == i % w,
                by == i / w,
        ;
        assert(by * w + bx < w * h);
        assert(prev_cell(cells, w, h, bx, by) == Some(cells[i as int]));
        let cw = unicode_str_width(cells[i as int].0);
        assert(cw <= 2);
        let next = width_less_one(max_nat(max_nat(inv, cw), cw));
        assert(next == width_less_one(cw));
        lemma_no_puts_when_same(cells, w, h, ends, vx, vy, i + 1, next);
    }
}

} // verus!
