use vstd::prelude::*;

verus! {

/// The top-left position that centers a window of size `(win_w, win_h)` on
/// the monitor whose top-left corner sits at `(mon_x, mon_y)` and whose size
/// is `(mon_w, mon_h)`: the monitor corner plus half the leftover space on
/// each axis.
pub fn center_window_position(
    mon_x: i32,
    mon_y: i32,
    mon_w: u32,
    mon_h: u32,
    win_w: u32,
    win_h: u32,
) -> (pos: (i32, i32))
    requires
        win_w <= mon_w,
        win_h <= mon_h,
        mon_x + (mon_w - win_w) / 2 <= i32::MAX,
        mon_y + (mon_h - win_h) / 2 <= i32::MAX,
    ensures
        pos.0 == mon_x + (mon_w - win_w) / 2,
        pos.1 == mon_y + (mon_h - win_h) / 2,
{
    let half_w: u32 = (mon_w - win_w) / 2;
    let half_h: u32 = (mon_h - win_h) / 2;
    let x = mon_x + half_w as i32;
    let y = mon_y + half_h as i32;
    (x, y)
}

} // verus!
