//! Decisions for showing, hiding and placing the viewer's window. The window
//! is known by its native handle as a plain integer (zero while none is
//! known); the caller performs the operations and supplies the rectangles.

use vstd::prelude::*;

verus! {

/// A rectangle in screen coordinates.
#[derive(Clone, Copy, PartialEq, Eq, Structural, Debug)]
pub struct WindowRect {
    pub left: i32,
    pub top: i32,
    pub right: i32,
    pub bottom: i32,
}

/// How a window is shown.
#[derive(Clone, Copy, PartialEq, Eq, Structural, Debug)]
pub enum ShowMode {
    Hide,
    Show,
    Restore,
}

/// One operation on the native window.
#[derive(Clone, Copy, PartialEq, Eq, Structural, Debug)]
pub enum WindowOp {
    /// List the window on the taskbar, or keep it off as a tool window.
    SetTaskbarVisible(bool),
    Show(ShowMode),
    /// Raise the window above all others, or release that.
    SetTopmost(bool),
    BringToTop,
    SetForeground,
}

/// The viewer's window, by its native handle.
#[derive(Clone, Copy, PartialEq, Eq, Structural, Debug)]
pub struct WindowControl {
    pub hwnd: isize,
}

/// The operations that send the window to the tray.
pub open spec fn hide_ops() -> Seq<WindowOp> {
    seq![WindowOp::SetTaskbarVisible(false), WindowOp::Show(ShowMode::Hide)]
}

/// The operations that bring the window back and to the front: shown,
/// restored, made topmost and released again so that it rises without
/// staying on top, then focused.
pub open spec fn show_ops() -> Seq<WindowOp> {
    seq![
        WindowOp::SetTaskbarVisible(true),
        WindowOp::Show(ShowMode::Show),
        WindowOp::Show(ShowMode::Restore),
        WindowOp::SetTopmost(true),
        WindowOp::SetTopmost(false),
        WindowOp::BringToTop,
        WindowOp::SetForeground,
    ]
}

pub open spec fn extent(lo: i32, hi: i32) -> int {
    if hi - lo >= 1 {
        hi - lo
    } else {
        1
    }
}

pub open spec fn clamp_min(v: int, lo: int) -> int {
    if v < lo {
        lo
    } else {
        v
    }
}

pub open spec fn clamp_max(v: int, hi: int) -> int {
    if v > hi {
        hi
    } else {
        v
    }
}

/// The value `a / 2` rounded toward zero.
pub open spec fn half_toward_zero(a: int) -> int {
    if a >= 0 {
        a / 2
    } else {
        -((-a) / 2)
    }
}

/// The style bits of a window listed on the taskbar (`visible`) or kept off it.
pub open spec fn taskbar_style(ex: isize, visible: bool, tool: isize, app: isize) -> isize {
    if visible {
        (ex & !tool) | app
    } else {
        (ex | tool) & !app
    }
}

/// Sets or clears the tool-window and app-window style bits `tool` and `app`
/// of the extended style `ex`, so that the window is listed on the taskbar
/// exactly when `visible`.
pub fn taskbar_ex_style(ex: isize, visible: bool, tool: isize, app: isize) -> (r: isize)
    ensures
        r == taskbar_style(ex, visible, tool, app),
{
    if visible {
        (ex & !tool) | app
    } else {
        (ex | tool) & !app
    }
}

fn extent_of(lo: i32, hi: i32) -> (r: i64)
    ensures
        r == extent(lo, hi),
{
    let d = hi as i64 - lo as i64;
    if d >= 1 {
        d
    } else {
        1
    }
}

impl WindowControl {
    /// No window known yet.
    pub fn new() -> (r: WindowControl)
        ensures
            r.hwnd == 0,
    {
        WindowControl { hwnd: 0 }
    }

    /// Records the window's handle; a zero handle leaves the known one.
    pub fn try_update_from_handle(&mut self, hwnd: isize)
        ensures
            hwnd != 0 ==> final(self).hwnd == hwnd,
            hwnd == 0 ==> final(self).hwnd == old(self).hwnd,
    {
        if hwnd != 0 {
            self.hwnd = hwnd;
        }
    }

    /// The operations that hide the window to the tray; none while no window is known.
    pub fn hide_to_tray(&self) -> (r: Vec<WindowOp>)
        ensures
            self.hwnd == 0 ==> r@.len() == 0,
            self.hwnd != 0 ==> r@ == hide_ops(),
    {
        if self.hwnd == 0 {
            return Vec::new();
        }
        let r = vec![WindowOp::SetTaskbarVisible(false), WindowOp::Show(ShowMode::Hide)];
        assert(r@ =~= hide_ops());
        r
    }

    /// The operations that show and focus the window; none while no window is known.
    pub fn show_and_focus(&self) -> (r: Vec<WindowOp>)
        ensures
            self.hwnd == 0 ==> r@.len() == 0,
            self.hwnd != 0 ==> r@ == show_ops(),
    {
        if self.hwnd == 0 {
            return Vec::new();
        }
        let r = vec![
            WindowOp::SetTaskbarVisible(true),
            WindowOp::Show(ShowMode::Show),
            WindowOp::Show(ShowMode::Restore),
            WindowOp::SetTopmost(true),
            WindowOp::SetTopmost(false),
            WindowOp::BringToTop,
            WindowOp::SetForeground,
        ];
        assert(r@ =~= show_ops());
        r
    }

    /// Where to move the window (`window`, its current rectangle) so that it
    /// sits in the bottom-right corner of the work area `work`, `margin_px`
    /// (at least zero) away from its edges; none while no window is known.
    pub fn snap_near_right(&self, margin_px: i32, window: WindowRect, work: WindowRect) -> (r:
        Option<(i64, i64)>)
        ensures
            self.hwnd == 0 ==> r.is_none(),
            self.hwnd != 0 ==> r == Some(
                (
                    (work.right - extent(window.left, window.right) - clamp_min(
                        margin_px as int,
                        0,
                    )) as i64,
                    (work.bottom - extent(window.top, window.bottom) - clamp_min(
                        margin_px as int,
                        0,
                    )) as i64,
                ),
            ),
    {
        if self.hwnd == 0 {
            return None;
        }
        let w = extent_of(window.left, window.right);
        let h = extent_of(window.top, window.bottom);
        let margin: i64 = if margin_px < 0 {
            0
        } else {
            margin_px as i64
        };
        let mut x = work.right as i64 - w - margin;
        let mut y = work.bottom as i64 - h - margin;
        // keep the window inside the work area
        let min_x = work.left as i64 + margin;
        let max_x = work.right as i64 - w - margin;
        let min_y = work.top as i64 + margin;
        let max_y = work.bottom as i64 - h - margin;
        if x < min_x {
            x = min_x;
        }
        if x > max_x {
            x = max_x;
        }
        if y < min_y {
            y = min_y;
        }
        if y > max_y {
            y = max_y;
        }
        Some((x, y))
    }

    /// Where to move the window (`window`, its current rectangle) so that it
    /// is centred in the work area `work`; none while no window is known.
    pub fn center_on_screen(&self, window: WindowRect, work: WindowRect) -> (r: Option<(i64, i64)>)
        ensures
            self.hwnd == 0 ==> r.is_none(),
            self.hwnd != 0 ==> r == Some(
                (
                    (work.left + half_toward_zero(
                        extent(work.left, work.right) - extent(window.left, window.right),
                    )) as i64,
                    (work.top + half_toward_zero(
                        extent(work.top, work.bottom) - extent(window.top, window.bottom),
                    )) as i64,
                ),
            ),
    {
        if self.hwnd == 0 {
            return None;
        }
        let w = extent_of(window.left, window.right);
        let h = extent_of(window.top, window.bottom);
        let work_w = extent_of(work.left, work.right);
        let work_h = extent_of(work.top, work.bottom);
        let dx = work_w - w;
        let dy = work_h - h;
        let half_x = if dx >= 0 {
            dx / 2
        } else {
            -((-dx) / 2)
        };
        let half_y = if dy >= 0 {
            dy / 2
        } else {
            -((-dy) / 2)
        };
        Some((work.left as i64 + half_x, work.top as i64 + half_y))
    }
}

} // verus!
