//! Where the dialogs and the slash-command popup are placed on the screen.
use vstd::prelude::*;
use crate::screen_diff::Rect;

verus! {

/// `r` lies inside the terminal's coordinate range: its right and bottom
/// edges are representable.
pub open spec fn rect_in_range(r: Rect) -> bool {
    r.x + r.width <= u16::MAX && r.y + r.height <= u16::MAX
}

/// `inner` lies within `outer`.
pub open spec fn rect_within(inner: Rect, outer: Rect) -> bool {
    &&& outer.x <= inner.x
    &&& inner.x + inner.width <= outer.x + outer.width
    &&& outer.y <= inner.y
    &&& inner.y + inner.height <= outer.y + outer.height
}

pub open spec fn min_nat(a: nat, b: nat) -> nat {
    if a <= b { a } else { b }
}

pub open spec fn max_nat(a: nat, b: nat) -> nat {
    if a >= b { a } else { b }
}

/// `percent` percent of `len`, rounded down, but at least `floor` (or all
/// of `len` when it is shorter) and at most `len`.
pub open spec fn share(len: nat, percent: nat, floor: nat) -> nat {
    min_nat(max_nat(len * percent / 100, min_nat(floor, len)), len)
}

fn share_exec(len: u16, percent: u16, floor: u16) -> (r: u16)
    ensures
        r as nat == share(len as nat, percent as nat, floor as nat),
{
    assert((len as u32) * (percent as u32) <= 0xffff * 0xffff) by (nonlinear_arith)
        requires
            len <= 0xffff,
            percent <= 0xffff,
    ;
    let prod: u32 = (len as u32) * (percent as u32);
    let part: u32 = prod / 100;
    let least: u32 = if floor < len { floor as u32 } else { len as u32 };
    let grown: u32 = if part >= least { part } else { least };
    let r: u32 = if grown <= len as u32 { grown } else { len as u32 };
    r as u16
}

/// A dialog `percent_x` by `percent_y` percent of `r`, at least 20 columns
/// and 5 rows (as far as `r` allows), centred in `r`.
pub open spec fn centered_spec(percent_x: nat, percent_y: nat, r: Rect) -> Rect {
    let w = share(r.width as nat, percent_x, 20);
    let h = share(r.height as nat, percent_y, 5);
    Rect {
        x: (r.x + (r.width - w) / 2) as u16,
        y: (r.y + (r.height - h) / 2) as u16,
        width: w as u16,
        height: h as u16,
    }
}

pub fn centered_rect(percent_x: u16, percent_y: u16, r: Rect) -> (c: Rect)
    requires
        rect_in_range(r),
    ensures
        c == centered_spec(percent_x as nat, percent_y as nat, r),
        rect_within(c, r),
        r.width > 0 ==> c.width > 0,
        r.height > 0 ==> c.height > 0,
{
    let w = share_exec(r.width, percent_x, 20);
    let h = share_exec(r.height, percent_y, 5);
    let x = r.x + (r.width - w) / 2;
    let y = r.y + (r.height - h) / 2;
    Rect { x, y, width: w, height: h }
}

/// Most commands the slash popup shows at once.
pub const SLASH_POPUP_ROWS: u16 = 10;

/// The slash-command popup for `item_count` commands over the screen `r`:
/// one row per command (between 1 and 10) plus its border, no taller than
/// `r` less two rows; half as wide as `r` but at least 20 columns (as far
/// as `r` allows); one column in from the left edge, and about eight rows
/// above the bottom, never above the top of `r`.
pub open spec fn slash_popup_spec(r: Rect, item_count: nat) -> Rect {
    let content = if item_count < 1 { 1 } else if item_count > 10 { 10 } else { item_count };
    let room = if r.height >= 2 { (r.height - 2) as nat } else { 0 };
    let h = min_nat(content + 2, room);
    let w = max_nat(r.width as nat / 2, min_nat(20, r.width as nat));
    let up = if r.height >= h + 8 { (r.height - (h + 8)) as nat } else { 0 };
    Rect { x: (r.x + 1) as u16, y: (r.y + up) as u16, width: w as u16, height: h as u16 }
}

pub fn slash_popup_rect(r: Rect, item_count: usize) -> (p: Rect)
    requires
        rect_in_range(r),
        r.x < u16::MAX,
    ensures
        p == slash_popup_spec(r, item_count as nat),
        r.y <= p.y,
        p.y + p.height <= r.y + r.height,
{
    let content: u16 = if item_count < 1 {
        1
    } else if item_count > 10 {
        SLASH_POPUP_ROWS
    } else {
        item_count as u16
    };
    let room = r.height.saturating_sub(2);
    let h = if content + 2 <= room { content + 2 } else { room };
    let half = r.width / 2;
    let least = if r.width < 20 { r.width } else { 20 };
    let w = if half >= least { half } else { least };
    let up = r.height.saturating_sub(h + 8);
    Rect { x: r.x + 1, y: r.y + up, width: w, height: h }
}

} // verus!
