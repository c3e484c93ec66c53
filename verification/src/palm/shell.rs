//! Where a Palm application's 160x160 screen goes on the device.
use vstd::prelude::*;
use crate::ui::STATUS_BAR_HEIGHT;

verus! {

#[derive(Clone, Copy, Debug, PartialEq, Eq, Structural)]
pub enum PrcStatusBarFocus {
    Home,
    Menu,
}

/// The application pane: its integer scale and its place under the status bar.
#[derive(Clone, Copy, Debug, PartialEq, Eq, Structural)]
pub struct PrcPaneLayout {
    pub content_top: i32,
    pub scale: i32,
    pub pane_x: i32,
    pub pane_y: i32,
    pub pane_w: i32,
    pub pane_h: i32,
}

/// `a / b` rounded toward zero, as Rust's `/` on signed integers.
pub open spec fn div_trunc(a: int, b: int) -> int {
    if a >= 0 { a / b } else { -((-a) / b) }
}

pub open spec fn max_int(a: int, b: int) -> int {
    if a >= b { a } else { b }
}

/// The largest scale (at most 3) at which 160x160 fits in the width and in
/// the height below the status bar (at least 1); the pane is centred
/// horizontally, clamped to the left edge, and starts 5 pixels under the
/// status bar.
pub open spec fn pane_layout_spec(screen_w: i32, screen_h: i32) -> PrcPaneLayout {
    let content_top = STATUS_BAR_HEIGHT + 5;
    let content_h = max_int(screen_h - content_top, 1);
    let sw = max_int(div_trunc(screen_w as int, 160), 1);
    let sh = max_int(div_trunc(content_h, 160), 1);
    let m = max_int(if sw <= sh { sw } else { sh }, 1);
    let scale = if m >= 3 { 3 } else { m };
    PrcPaneLayout {
        content_top: content_top as i32,
        scale: scale as i32,
        pane_x: max_int(div_trunc(screen_w - 160 * scale, 2), 0) as i32,
        pane_y: content_top as i32,
        pane_w: (160 * scale) as i32,
        pane_h: (160 * scale) as i32,
    }
}

fn div_trunc_i32(a: i32, b: i32) -> (q: i32)
    requires
        b > 0,
    ensures
        q == div_trunc(a as int, b as int),
{
    if a >= 0 {
        a / b
    } else {
        let na: u64 = (0i64 - a as i64) as u64;
        let m = na / (b as u64);
        assert(m <= na) by (nonlinear_arith) requires m == na / (b as u64), b >= 1;
        (0i64 - m as i64) as i32
    }
}

/// Lays out the application pane on a screen of the given size.
pub fn pane_layout(screen_w: i32, screen_h: i32) -> (p: PrcPaneLayout)
    requires
        screen_w >= i32::MIN + 160,
        screen_h >= i32::MIN + 39,
    ensures
        p == pane_layout_spec(screen_w, screen_h),
        1 <= p.scale <= 3,
{
    let content_top = STATUS_BAR_HEIGHT + 5;
    let d = screen_h - content_top;
    let content_h = if d > 1 { d } else { 1 };
    let w = div_trunc_i32(screen_w, 160);
    let max_scale_w = if w > 1 { w } else { 1 };
    let h = div_trunc_i32(content_h, 160);
    let max_scale_h = if h > 1 { h } else { 1 };
    let m = if max_scale_w <= max_scale_h { max_scale_w } else { max_scale_h };
    let max_scale = if m > 1 { m } else { 1 };
    let scale = if max_scale >= 3 { 3 } else { max_scale };
    assert(160 * scale <= screen_w || scale == 1) by (nonlinear_arith)
        requires
            screen_w >= 0 ==> 160 * w <= screen_w,
            screen_w < 0 ==> w <= 0,
            max_scale_w == (if w > 1 { w } else { 1 }),
            m <= max_scale_w,
            max_scale == (if m > 1 { m } else { 1 }),
            scale == (if max_scale >= 3 { 3 } else { max_scale }),
    ;
    let pane_w = 160 * scale;
    let pane_h = 160 * scale;
    let x = div_trunc_i32(screen_w - pane_w, 2);
    let pane_x = if x > 0 { x } else { 0 };
    let pane_y = content_top;
    PrcPaneLayout { content_top, scale: if scale > 1 { scale } else { 1 }, pane_x, pane_y, pane_w, pane_h }
}

/// A screen with room for the 160x160 pane under the status bar holds the
/// scaled pane whole, centred horizontally.
pub proof fn lemma_pane_fits_screen(screen_w: i32, screen_h: i32)
    requires
        screen_w >= 160,
        screen_h >= STATUS_BAR_HEIGHT + 5 + 160,
    ensures
        ({
            let p = pane_layout_spec(screen_w, screen_h);
            &&& p.pane_w == p.pane_h == 160 * p.scale
            &&& 0 <= p.pane_x
            &&& p.pane_x + p.pane_w <= screen_w
            &&& p.pane_y + p.pane_h <= screen_h
            &&& p.pane_x == (screen_w - p.pane_w) / 2
        }),
{
    let content_top = STATUS_BAR_HEIGHT + 5;
    let content_h = max_int(screen_h - content_top, 1);
    let sw = max_int(div_trunc(screen_w as int, 160), 1);
    let sh = max_int(div_trunc(content_h, 160), 1);
    assert(160 * div_trunc(screen_w as int, 160) <= screen_w) by (nonlinear_arith) requires screen_w >= 0;
    assert(160 * div_trunc(content_h, 160) <= content_h) by (nonlinear_arith) requires content_h >= 0;
}

} // verus!
